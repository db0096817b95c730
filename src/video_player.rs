//! The streaming engine: a state machine that turns events of the media
//! layer, the object store and the pub-sub channel into actions for them.
//! The host performs each action and reports its outcome as a new event.
use vstd::prelude::*;
use vstd::string::*;
use crate::abr::{chosen_level, ema_step, select_level, throughput, Ema};
use crate::content_id::{link_view, Cid};
use crate::live::{entries_within, ids, links_to_end, tail_from, track_link_of, LiveStream, VideoNode};
use crate::media::{
    buffer_end, check_status, first_supported, flush_range, flush_range_of, has_setup_shape,
    last_end, select_sinks, setup_shape, status_of, Config, StatusDecision, TimeRange, Track,
};
use crate::text::{decimal, push_decimal};
use crate::timecode::{seconds_to_timecode, timecode_of};

verus! {

/// The engine's states.
#[derive(Clone, Copy, Debug, PartialEq, Eq, Structural)]
pub enum MachineState {
    Load,
    Switch,
    Flush,
    Timeout,
    AdaptativeBitrate,
    Status,
}

/// An on-demand video: its duration (ms) and the root of its time index.
#[derive(Debug)]
pub struct VideoMetadata {
    pub duration: u64,
    pub video: Cid,
}

/// What the engine is made with: on-demand metadata, or the topic of a
/// live stream and the peer that announces on it.
pub struct Props {
    pub metadata: Option<VideoMetadata>,
    pub topic: Option<String>,
    pub streamer_peer_id: Option<String>,
}

/// What the media layer shows when a tick runs: the video sink's buffered
/// ranges (`None` where they cannot be read), the playback position (`None`
/// without a media element) and a monotonic clock, all in ms.
pub struct MediaView {
    pub buffered: Option<Vec<TimeRange>>,
    pub current_time: Option<u64>,
    pub now: u64,
}

/// What the engine asks its host to do.
#[derive(Debug)]
pub enum Action {
    /// Set the media source's duration (ms).
    SetDuration(u64),
    /// Fetch the setup descriptor at this path and report it with `on_setup`.
    FetchSetup(String),
    /// Fetch the live node of this identifier and report it with `on_video_node`.
    FetchNode(Cid),
    /// Create the audio and the video sink with these codecs.
    CreateSinks { audio_codec: String, video_codec: String },
    /// Fetch these segments (audio optional), report them with `on_append`
    /// (or `on_fetch_failed`) and append them to the sinks.
    FetchSegments { audio: Option<String>, video: String },
    /// Change the video sink's codec; on success report `on_codec_changed`.
    ChangeCodec(String),
    /// Remove this range (ms) from the audio sink, then from the video sink;
    /// on success report `on_flushed`.
    Remove { start: u64, end: u64 },
    /// Call `on_timeout` after this many ms.
    StartTimer(u64),
    /// Cancel the pending timer.
    CancelTimer,
    /// Join this pub-sub topic and report its messages with `on_pubsub_update`.
    Subscribe(String),
    /// Leave this pub-sub topic.
    Unsubscribe(String),
    /// The setup cannot produce both sinks: the engine halts.
    Fatal,
}

/// The path of the setup descriptor of an on-demand video.
pub open spec fn setup_path(root: Seq<char>) -> Seq<char> {
    root + "/time/hour/0/minute/0/second/0/video/setup/"@
}

/// The path of the setup descriptor of a live stream.
pub open spec fn live_setup_path(cid: Seq<char>) -> Seq<char> {
    cid + "/setup/"@
}

/// The path of track `track` of the on-demand segment at timecode `tc`.
pub open spec fn segment_path(root: Seq<char>, tc: (nat, nat, nat), track: Seq<char>) -> Seq<char> {
    root + "/time/hour/"@ + decimal(tc.0) + "/minute/"@ + decimal(tc.1) + "/second/"@
        + decimal(tc.2) + "/video/track/"@ + track
}

/// The position (ms) from which an on-demand video loads: the end of what
/// is buffered, or, with nothing buffered, one second before the playback
/// position (0 early on); `None` where that position is unknown.
pub open spec fn load_position(ranges: Seq<TimeRange>, current: Option<u64>) -> Option<nat> {
    if buffer_end(ranges) > 0 {
        Some(buffer_end(ranges) as nat)
    } else {
        match current {
            None => None,
            Some(c) => Some(if c > 1000 { (c - 1000) as nat } else { 0 }),
        }
    }
}

/// Whether an action asks for a segment fetch with these paths.
pub open spec fn is_fetch(a: Action, audio: Option<Seq<char>>, video: Seq<char>) -> bool {
    match a {
        Action::FetchSegments { audio: a, video: v } => v@ == video && match a {
            Some(x) => audio == Some(x@),
            None => audio is None,
        },
        _ => false,
    }
}

/// Whether an action starts a timer of `ms`.
pub open spec fn is_timer(a: Action, ms: u64) -> bool {
    a matches Action::StartTimer(t) && t == ms
}

/// The engine's state as its contracts see it.
pub struct PlayerState {
    pub config: Config,
    /// The root of the on-demand video's time index.
    pub root: Option<Seq<char>>,
    /// The on-demand video's duration (ms).
    pub duration: Option<u64>,
    pub live: Option<LiveStream>,
    /// The tracks of the accepted setup descriptor.
    pub tracks: Option<Seq<Track>>,
    /// The quality level: an index into the tracks.
    pub level: int,
    pub state: MachineState,
    pub ema: Ema,
    /// Whether a timer is pending.
    pub timer: bool,
    /// Whether a segment fetch is in flight.
    pub in_flight: bool,
    /// The state the last accepted setup found the engine in.
    pub setup_from: MachineState,
}

/// The streaming engine.
pub struct VideoPlayer {
    config: Config,
    metadata: Option<VideoMetadata>,
    live_stream: Option<LiveStream>,
    tracks: Option<Vec<Track>>,
    level: usize,
    state: MachineState,
    ema: Ema,
    timer_pending: bool,
    in_flight: bool,
    state_before_setup: MachineState,
}

impl View for VideoPlayer {
    type V = PlayerState;

    closed spec fn view(&self) -> PlayerState {
        PlayerState {
            config: self.config,
            root: match self.metadata {
                Some(m) => Some(m.video@),
                None => None,
            },
            duration: match self.metadata {
                Some(m) => Some(m.duration),
                None => None,
            },
            live: self.live_stream,
            tracks: match self.tracks {
                Some(t) => Some(t@),
                None => None,
            },
            level: self.level as int,
            state: self.state,
            ema: self.ema,
            timer: self.timer_pending,
            in_flight: self.in_flight,
            setup_from: self.state_before_setup,
        }
    }
}

/// A timer was asked for unless one is pending; nothing else changes.
pub open spec fn timer_post(o: PlayerState, n: PlayerState, r: Seq<Action>) -> bool {
    &&& n == (PlayerState { timer: true, ..o })
    &&& o.timer ==> r.len() == 0
    &&& !o.timer ==> r.len() == 1 && is_timer(r[0], o.config.tick_ms)
}

/// `n` is `o` in the bitrate state with a fetch in flight and its download
/// timed from `now`, the live stream aside.
pub open spec fn fetching(o: PlayerState, n: PlayerState, now: u64) -> bool {
    &&& n == (PlayerState {
        state: MachineState::AdaptativeBitrate,
        in_flight: true,
        ema: n.ema,
        live: n.live,
        ..o
    })
    &&& n.ema.wf()
    &&& n.ema.alpha_spec() == o.ema.alpha_spec()
    &&& n.ema.average_spec() == o.ema.average_spec()
    &&& n.ema.started_spec() == Some(now)
}

/// The outcome of a load. Nothing happens while a fetch is in flight.
/// On-demand: the segment pair at the timecode of the load position is
/// fetched. Live: the next segment of the chain is handed out and its
/// audio track and the current level's track are fetched; with no segment
/// ready, or a segment that lacks one of them, the timer is asked for
/// instead.
pub open spec fn load_post(o: PlayerState, v: MediaView, n: PlayerState, r: Seq<Action>) -> bool {
    let name = o.tracks->0[o.level].name@;
    if o.in_flight {
        n == o && r.len() == 0
    } else if o.root is Some {
        let root = o.root->0;
        &&& n.live == o.live
        &&& match v.buffered {
            None => n == o && r.len() == 0,
            Some(b) => match load_position(b@, v.current_time) {
                None => n == o && r.len() == 0,
                Some(pos) => {
                    let tc = timecode_of(pos);
                    &&& fetching(o, n, v.now)
                    &&& r.len() == 1
                    &&& is_fetch(r[0], Some(segment_path(root, tc, "audio"@)), segment_path(root, tc, name))
                },
            },
        }
    } else {
        let l = o.live->0;
        let m = n.live->0;
        if l.ordered().len() == 0 {
            timer_post(o, n, r)
        } else {
            let head = l.ordered()[0];
            &&& n.live is Some
            &&& m.wf()
            &&& m.topic == l.topic
            &&& m.streamer_peer_id == l.streamer_peer_id
            &&& m.ordered() == l.ordered().drop_first()
            &&& m.pending() == l.pending()
            &&& m.previous_spec() == Some(head.0@)
            &&& link_view(head.1.previous) == l.previous_spec()
            &&& match (track_link_of(head.1.tracks@, "audio"@), track_link_of(head.1.tracks@, name)) {
                (Some(a), Some(w)) => fetching(o, n, v.now) && r.len() == 1 && is_fetch(r[0], Some(a), w),
                _ => timer_post(PlayerState { live: n.live, ..o }, n, r),
            }
        }
    }
}

/// The outcome of a flush: the flush range is removed where the buffered
/// ranges and the playback position can be read.
pub open spec fn flush_post(o: PlayerState, v: MediaView, n: PlayerState, r: Seq<Action>) -> bool {
    &&& n == o
    &&& match (v.buffered, v.current_time) {
        (Some(b), Some(c)) => r.len() == 1 && (r[0] matches Action::Remove { start, end }
            && (start as int, end as int) == flush_range_of(b@, c as int, o.config)),
        _ => r.len() == 0,
    }
}

/// The outcome of a status check, following the status rules; where the
/// ranges or the position cannot be read, the timer is asked for.
pub open spec fn status_post(o: PlayerState, v: MediaView, n: PlayerState, r: Seq<Action>) -> bool {
    match (v.buffered, v.current_time) {
        (Some(b), Some(c)) => match status_of(b@, c as int, o.duration, o.config) {
            StatusDecision::Flush => flush_post(o, v, n, r),
            StatusDecision::EndOfVideo => n == o && r.len() == 0,
            StatusDecision::Timeout => timer_post(o, n, r),
            StatusDecision::Load => load_post(o, v, n, r),
        },
        _ => timer_post(o, n, r),
    }
}

/// The outcome of a switch: the video sink is asked to take the codec of
/// the current level.
pub open spec fn switch_post(o: PlayerState, n: PlayerState, r: Seq<Action>) -> bool {
    &&& n == o
    &&& r.len() == 1
    &&& r[0] matches Action::ChangeCodec(c)
    &&& c@ == o.tracks->0[o.level].codec@
}

/// The outcome of the bitrate step. Nothing happens while a fetch is in
/// flight. Without a measurement, or where the average selects the current
/// level, the status check follows; else the level changes and the switch
/// follows.
pub open spec fn abr_post(o: PlayerState, v: MediaView, n: PlayerState, r: Seq<Action>) -> bool {
    let t = o.tracks->0;
    let status = PlayerState { state: MachineState::Status, ..o };
    if o.in_flight {
        n == o && r.len() == 0
    } else {
        match o.ema.average_spec() {
            None => status_post(status, v, n, r),
            Some(a) => {
                let next = chosen_level(t, a as int);
                if next == o.level {
                    status_post(status, v, n, r)
                } else {
                    switch_post(PlayerState { state: MachineState::Switch, level: next, ..o }, n, r)
                }
            },
        }
    }
}

/// The outcome of a tick, by state. Before a setup was accepted only the
/// timer is asked for.
pub open spec fn tick_post(o: PlayerState, v: MediaView, n: PlayerState, r: Seq<Action>) -> bool {
    if o.tracks is None {
        if o.state == MachineState::Timeout {
            timer_post(o, n, r)
        } else {
            n == o && r.len() == 0
        }
    } else {
        match o.state {
            MachineState::Load => load_post(o, v, n, r),
            MachineState::Switch => switch_post(o, n, r),
            MachineState::Flush => flush_post(o, v, n, r),
            MachineState::Timeout => timer_post(o, n, r),
            MachineState::Status => status_post(o, v, n, r),
            MachineState::AdaptativeBitrate => abr_post(o, v, n, r),
        }
    }
}

impl VideoPlayer {
    /// Exactly one mode; a valid live stream; the level indexes a video
    /// track of the accepted setup (level 1, and nothing in flight, before
    /// it).
    pub closed spec fn wf(&self) -> bool {
        &&& self.config.wf()
        &&& self.ema.wf()
        &&& self.metadata is Some != self.live_stream is Some
        &&& self.live_stream matches Some(l) ==> l.wf()
        &&& match self.tracks {
            Some(t) => t@.len() >= 2 && 1 <= self.level < t@.len(),
            None => self.level == 1 && !self.in_flight,
        }
    }

    /// Makes the engine for on-demand metadata or for a live topic with
    /// its announcing peer; `None` unless exactly one of the two is given.
    /// A live engine asks to subscribe to its topic.
    pub fn create(props: Props, config: Config) -> (r: Option<(VideoPlayer, Vec<Action>)>)
        requires
            config.wf(),
        ensures
            r is Some <==> (props.metadata is Some && props.topic is None) || (props.metadata is None
                && props.topic is Some && props.streamer_peer_id is Some),
            r matches Some((p, acts)) ==> {
                &&& p.wf()
                &&& p@.config == config
                &&& p@.state == MachineState::Timeout
                &&& p@.level == 1
                &&& p@.tracks is None
                &&& !p@.timer
                &&& !p@.in_flight
                &&& p@.ema.average_spec() is None
                &&& p@.ema.started_spec() is None
                &&& p@.root == (match props.metadata {
                    Some(m) => Some(m.video@),
                    None => None,
                })
                &&& p@.duration == (match props.metadata {
                    Some(m) => Some(m.duration),
                    None => None,
                })
                &&& (p@.live is Some) == (props.topic is Some)
                &&& p@.live matches Some(l) ==> (l.previous_spec() is None && l.ordered().len() == 0
                    && l.pending().len() == 0 && (props.topic matches Some(t) && l.topic@ == t@)
                    && (props.streamer_peer_id matches Some(s) && l.streamer_peer_id@ == s@))
                &&& props.topic is None ==> acts@.len() == 0
                &&& props.topic matches Some(t) ==> (acts@.len() == 1
                    && (acts@[0] matches Action::Subscribe(u) && u@ == t@))
            },
    {
        let Props { metadata, topic, streamer_peer_id } = props;
        let mut acts: Vec<Action> = Vec::new();
        let live_stream = match (&metadata, topic, streamer_peer_id) {
            (None, Some(topic), Some(peer)) => {
                acts.push(Action::Subscribe(topic.clone()));
                Some(LiveStream::new(topic, peer))
            },
            (Some(_), None, _) => None,
            _ => {
                return None;
            },
        };
        let p = VideoPlayer {
            config,
            metadata,
            live_stream,
            tracks: None,
            level: 1,
            state: MachineState::Timeout,
            ema: Ema::new(config.smoothing_permille),
            timer_pending: false,
            in_flight: false,
            state_before_setup: MachineState::Timeout,
        };
        Some((p, acts))
    }

    pub fn state(&self) -> (r: MachineState)
        ensures
            r == self@.state,
    {
        self.state
    }

    pub fn level(&self) -> (r: usize)
        ensures
            r as int == self@.level,
    {
        self.level
    }

    /// The media source is open: an on-demand video sets its duration and
    /// fetches its setup descriptor; a live stream waits for its first
    /// announcement.
    pub fn on_source_open(&self) -> (r: Vec<Action>)
        ensures
            self@.root matches Some(root) ==> (r@.len() == 2
                && (r@[0] matches Action::SetDuration(d) && Some(d) == self@.duration)
                && (r@[1] matches Action::FetchSetup(path) && path@ == setup_path(root))),
            self@.root is None ==> r@.len() == 0,
    {
        let mut r: Vec<Action> = Vec::new();
        if let Some(m) = &self.metadata {
            let mut path = m.video.text.clone();
            path.append("/time/hour/0/minute/0/second/0/video/setup/");
            r.push(Action::SetDuration(m.duration));
            r.push(Action::FetchSetup(path));
        }
        r
    }


    /// A setup descriptor arrived, with `supported[i]` telling whether the
    /// media layer can play `tracks[i]`. Once a descriptor was accepted,
    /// others are ignored. A descriptor without the audio track first and a
    /// video track after it, or without a supported track of each kind, is
    /// fatal. Otherwise the sinks are made for the first supported audio
    /// and video tracks, the level is that video track's, and both
    /// initialization segments are fetched. While the media source is not
    /// open (`source_open` false) a descriptor is ignored.
    pub fn on_setup(&mut self, tracks: Vec<Track>, supported: &Vec<bool>, source_open: bool) -> (r: Vec<Action>)
        requires
            old(self).wf(),
        ensures
            final(self).wf(),
            !source_open ==> final(self)@ == old(self)@ && r@.len() == 0,
            old(self)@.tracks is Some ==> final(self)@ == old(self)@ && r@.len() == 0,
            source_open && old(self)@.tracks is None && !(setup_shape(tracks@)
                && first_supported(tracks@, supported@, true, 0) is Some
                && first_supported(tracks@, supported@, false, 0) is Some) ==> final(self)@ == old(self)@
                && r@.len() == 1 && r@[0] is Fatal,
            source_open && old(self)@.tracks is None && setup_shape(tracks@) ==> (first_supported(tracks@, supported@, true, 0) matches Some(a)
                ==> (first_supported(tracks@, supported@, false, 0) matches Some(v) ==> {
                &&& final(self)@ == (PlayerState {
                    tracks: Some(tracks@),
                    level: v,
                    state: MachineState::Load,
                    in_flight: true,
                    setup_from: old(self)@.state,
                    ..old(self)@
                })
                &&& r@.len() == 2
                &&& r@[0] matches Action::CreateSinks { audio_codec, video_codec }
                &&& audio_codec@ == tracks@[a].codec@
                &&& video_codec@ == tracks@[v].codec@
                &&& is_fetch(r@[1], Some(tracks@[a].initialization_segment@), tracks@[v].initialization_segment@)
            })),
    {
        let mut r: Vec<Action> = Vec::new();
        if !source_open || self.tracks.is_some() {
            return r;
        }
        let sinks = if has_setup_shape(&tracks) {
            select_sinks(&tracks, supported)
        } else {
            None
        };
        let (a, v) = match sinks {
            Some(s) => s,
            None => {
                r.push(Action::Fatal);
                return r;
            },
        };
        proof {
            crate::media::lemma_first_supported(tracks@, supported@, true, 0);
            crate::media::lemma_first_supported(tracks@, supported@, false, 0);
        }
        r.push(Action::CreateSinks { audio_codec: tracks[a].codec.clone(), video_codec: tracks[v].codec.clone() });
        r.push(Action::FetchSegments {
            audio: Some(tracks[a].initialization_segment.text.clone()),
            video: tracks[v].initialization_segment.text.clone(),
        });
        self.tracks = Some(tracks);
        self.level = v;
        self.state_before_setup = self.state;
        self.state = MachineState::Load;
        self.in_flight = true;
        r
    }

    /// The host could not create the sinks of the accepted setup: the
    /// setup is undone (no tracks, level 1, nothing in flight, the state it
    /// found) and the failure is fatal.
    pub fn on_sinks_failed(&mut self) -> (r: Vec<Action>)
        requires
            old(self).wf(),
        ensures
            final(self).wf(),
            r@.len() == 1,
            r@[0] is Fatal,
            old(self)@.tracks is None ==> final(self)@ == old(self)@,
            old(self)@.tracks is Some ==> final(self)@ == (PlayerState {
                tracks: None,
                level: 1,
                in_flight: false,
                state: old(self)@.setup_from,
                ..old(self)@
            }),
    {
        if self.tracks.is_some() {
            self.tracks = None;
            self.level = 1;
            self.in_flight = false;
            self.state = self.state_before_setup;
        }
        let mut r: Vec<Action> = Vec::new();
        r.push(Action::Fatal);
        r
    }

    /// The segments fetched last arrived at `now`, `bytes` bytes in all:
    /// nothing is in flight any more and the throughput is measured.
    pub fn on_append(&mut self, bytes: u64, now: u64)
        requires
            old(self).wf(),
        ensures
            final(self).wf(),
            !final(self)@.in_flight,
            final(self)@.state == old(self)@.state,
            final(self)@.level == old(self)@.level,
            final(self)@.tracks == old(self)@.tracks,
            final(self)@.live == old(self)@.live,
            final(self)@.timer == old(self)@.timer,
            final(self)@.ema.started_spec() is None,
            match old(self)@.ema.started_spec() {
                Some(t) => final(self)@.ema.average_spec() == Some(
                    ema_step(
                        old(self)@.ema.average_spec(),
                        throughput(bytes as nat, if now > t { (now - t) as nat } else { 0 }),
                        old(self)@.ema.alpha_spec(),
                    ) as u128,
                ),
                None => final(self)@.ema.average_spec() == old(self)@.ema.average_spec(),
            },
    {
        self.in_flight = false;
        self.ema.record(bytes, now);
    }

    /// The segment fetch failed: nothing is in flight any more, and the
    /// timer brings the next attempt.
    pub fn on_fetch_failed(&mut self) -> (r: Vec<Action>)
        requires
            old(self).wf(),
        ensures
            final(self).wf(),
            final(self)@ == (PlayerState { in_flight: false, timer: true, ..old(self)@ }),
            old(self)@.timer ==> r@.len() == 0,
            !old(self)@.timer ==> r@.len() == 1 && is_timer(r@[0], old(self)@.config.tick_ms),
    {
        self.in_flight = false;
        self.set_timeout()
    }

    /// The video sink took the codec of the current level: load its
    /// initialization segment, unless a fetch is in flight.
    pub fn on_codec_changed(&mut self) -> (r: Vec<Action>)
        requires
            old(self).wf(),
        ensures
            final(self).wf(),
            old(self)@.state != MachineState::Switch || old(self)@.in_flight
                || old(self)@.tracks is None ==> final(self)@ == old(self)@ && r@.len() == 0,
            old(self)@.state == MachineState::Switch && !old(self)@.in_flight ==> (
                old(self)@.tracks matches Some(t) ==> {
                &&& final(self)@ == (PlayerState { state: MachineState::Load, in_flight: true, ..old(self)@ })
                &&& r@.len() == 1
                &&& is_fetch(r@[0], None, t[old(self)@.level].initialization_segment@)
            }),
    {
        let mut r: Vec<Action> = Vec::new();
        if self.state != MachineState::Switch || self.in_flight {
            return r;
        }
        match &self.tracks {
            Some(t) => {
                r.push(Action::FetchSegments { audio: None, video: t[self.level].initialization_segment.text.clone() });
            },
            None => {
                return r;
            },
        }
        self.state = MachineState::Load;
        self.in_flight = true;
        r
    }

    /// The sinks removed the flushed range: load next.
    pub fn on_flushed(&mut self)
        requires
            old(self).wf(),
        ensures
            final(self).wf(),
            final(self)@ == (PlayerState { state: MachineState::Load, ..old(self)@ }),
    {
        self.state = MachineState::Load;
    }

    /// A pub-sub message from `from`. Only the stream's own peer is heard,
    /// and only a payload that decodes to an identifier: its node is
    /// fetched, and, before the setup was accepted, its setup descriptor.
    /// Nothing else happens: the engine's state does not change.
    pub fn on_pubsub_update(&self, from: &String, data: &Vec<u8>) -> (r: Vec<Action>)
        ensures
            self@.live is None ==> r@.len() == 0,
            self@.live matches Some(l) && from@ != l.streamer_peer_id@ ==> r@.len() == 0,
            self@.live matches Some(l) && from@ == l.streamer_peer_id@ ==> match crate::content_id::cid_text_of(data@) {
                None => r@.len() == 0,
                Some(c) => {
                    &&& r@.len() == (if self@.tracks is None { 2int } else { 1int })
                    &&& r@[0] matches Action::FetchNode(n)
                    &&& n@ == c
                    &&& self@.tracks is None ==> (r@[1] matches Action::FetchSetup(path) && path@ == live_setup_path(c))
                },
            },
    {
        let mut r: Vec<Action> = Vec::new();
        let live = match &self.live_stream {
            Some(l) => l,
            None => {
                return r;
            },
        };
        if *from != live.streamer_peer_id {
            return r;
        }
        let cid = match Cid::decode(data) {
            Some(c) => c,
            None => {
                return r;
            },
        };
        let mut path = cid.text.clone();
        path.append("/setup/");
        r.push(Action::FetchNode(cid));
        if self.tracks.is_none() {
            r.push(Action::FetchSetup(path));
        }
        r
    }

    /// The node of live segment `cid` arrived: it goes through the reorder
    /// buffer, and the predecessor of a node that has to wait is fetched.
    pub fn on_video_node(&mut self, cid: Cid, node: VideoNode) -> (r: Vec<Action>)
        requires
            old(self).wf(),
        ensures
            final(self).wf(),
            old(self)@.live is None ==> final(self)@ == old(self)@ && r@.len() == 0,
            old(self)@.live matches Some(l) ==> final(self)@.live matches Some(m) && {
                &&& m.previous_spec() == l.previous_spec()
                &&& ids(l.ordered()).contains(cid@) ==> m.ordered() == l.ordered() && m.pending() == l.pending() && r@.len() == 0
                &&& !ids(l.ordered()).contains(cid@) && links_to_end(l, node) ==> {
                    &&& r@.len() == 0
                    &&& m.ordered().subrange(0, l.ordered().len() as int + 1) == l.ordered().push((cid, node))
                    &&& forall|k: int| 0 <= k < m.pending().len() ==>
                        link_view(#[trigger] m.pending()[k].1.previous) != Some(m.ordered().last().0@)
                    &&& entries_within(m.pending(), l.pending())
                    &&& tail_from(m.ordered(), l.ordered().len() as int + 1, l.pending())
                    &&& forall|c: Seq<char>| #[trigger] ids(l.pending()).contains(c)
                        ==> ids(m.pending()).contains(c) || ids(m.ordered()).contains(c)
                }
                &&& !ids(l.ordered()).contains(cid@) && !links_to_end(l, node) ==> {
                    &&& m.ordered() == l.ordered()
                    &&& m.pending().last() == (cid, node)
                    &&& !ids(l.pending()).contains(cid@) ==> m.pending() == l.pending().push((cid, node))
                    &&& ids(l.pending()).contains(cid@) ==> exists|k: int|
                        0 <= k < l.pending().len() && l.pending()[k].0@ == cid@
                            && m.pending() == l.pending().remove(k).push((cid, node))
                    &&& match link_view(node.previous) {
                        Some(p) => r@.len() == 1 && (r@[0] matches Action::FetchNode(f) && f@ == p),
                        None => r@.len() == 0,
                    }
                }
            },
            final(self)@.state == old(self)@.state,
            final(self)@.level == old(self)@.level,
            final(self)@.tracks == old(self)@.tracks,
            final(self)@.timer == old(self)@.timer,
            final(self)@.in_flight == old(self)@.in_flight,
    {
        let mut r: Vec<Action> = Vec::new();
        let mut live = match self.live_stream.take() {
            Some(l) => l,
            None => {
                return r;
            },
        };
        let fetch = live.on_node(cid, node);
        self.live_stream = Some(live);
        if let Some(p) = fetch {
            r.push(Action::FetchNode(p));
        }
        r
    }


    /// Runs the step of the current state.
    pub fn tick(&mut self, view: &MediaView) -> (r: Vec<Action>)
        requires
            old(self).wf(),
        ensures
            final(self).wf(),
            tick_post(old(self)@, *view, final(self)@, r@),
            r@.len() <= 1,
            old(self)@.in_flight ==> forall|i: int| 0 <= i < r@.len() ==> !(r@[i] is FetchSegments),
            forall|i: int| 0 <= i < r@.len() && r@[i] is FetchSegments ==> final(self)@.in_flight,
    {
        if self.tracks.is_none() {
            if self.state == MachineState::Timeout {
                return self.set_timeout();
            }
            return Vec::new();
        }
        match self.state {
            MachineState::Load => self.load_segment(view),
            MachineState::Switch => self.switch_quality(),
            MachineState::Flush => self.flush_buffer(view),
            MachineState::Timeout => self.set_timeout(),
            MachineState::Status => self.check_status(view),
            MachineState::AdaptativeBitrate => self.check_abr(view),
        }
    }

    /// The sink finished an update: tick.
    pub fn on_update_end(&mut self, view: &MediaView) -> (r: Vec<Action>)
        requires
            old(self).wf(),
        ensures
            final(self).wf(),
            tick_post(old(self)@, *view, final(self)@, r@),
            r@.len() <= 1,
            old(self)@.in_flight ==> forall|i: int| 0 <= i < r@.len() ==> !(r@[i] is FetchSegments),
    {
        self.tick(view)
    }

    /// The timer fired: it is no longer pending; tick.
    pub fn on_timeout(&mut self, view: &MediaView) -> (r: Vec<Action>)
        requires
            old(self).wf(),
        ensures
            final(self).wf(),
            tick_post(PlayerState { timer: false, ..old(self)@ }, *view, final(self)@, r@),
            r@.len() <= 1,
            old(self)@.in_flight ==> forall|i: int| 0 <= i < r@.len() ==> !(r@[i] is FetchSegments),
    {
        self.timer_pending = false;
        self.tick(view)
    }

    /// The playback position jumped: flush, then tick.
    pub fn on_seeking(&mut self, view: &MediaView) -> (r: Vec<Action>)
        requires
            old(self).wf(),
        ensures
            final(self).wf(),
            tick_post(PlayerState { state: MachineState::Flush, ..old(self)@ }, *view, final(self)@, r@),
            r@.len() <= 1,
    {
        self.state = MachineState::Flush;
        self.tick(view)
    }

    /// Tearing down: leave the live topic and cancel a pending timer.
    pub fn destroy(&mut self) -> (r: Vec<Action>)
        requires
            old(self).wf(),
        ensures
            final(self).wf(),
            !final(self)@.timer,
            r@.len() == (if old(self)@.live is Some { 1int } else { 0int }) + (if old(self)@.timer { 1int } else { 0int }),
            old(self)@.live matches Some(l) ==> (r@[0] matches Action::Unsubscribe(t) && t@ == l.topic@),
            old(self)@.timer ==> r@.last() is CancelTimer,
    {
        let mut r: Vec<Action> = Vec::new();
        if let Some(l) = &self.live_stream {
            r.push(Action::Unsubscribe(l.topic.clone()));
        }
        if self.timer_pending {
            r.push(Action::CancelTimer);
            self.timer_pending = false;
        }
        r
    }

    fn load_segment(&mut self, view: &MediaView) -> (r: Vec<Action>)
        requires
            old(self).wf(),
            old(self).tracks is Some,
        ensures
            final(self).wf(),
            load_post(old(self)@, *view, final(self)@, r@),
            r@.len() <= 1,
    {
        if self.in_flight {
            return Vec::new();
        }
        if self.metadata.is_some() {
            self.load_media_segment(view)
        } else {
            self.load_live_segment(view)
        }
    }

    fn load_media_segment(&mut self, view: &MediaView) -> (r: Vec<Action>)
        requires
            old(self).wf(),
            old(self).tracks is Some,
            old(self).metadata is Some,
            !old(self).in_flight,
        ensures
            final(self).wf(),
            load_post(old(self)@, *view, final(self)@, r@),
            r@.len() <= 1,
    {
        let mut r: Vec<Action> = Vec::new();
        let ranges = match &view.buffered {
            Some(b) => b,
            None => {
                return r;
            },
        };
        let mut position = last_end(ranges);
        if position == 0 {
            match view.current_time {
                Some(c) => {
                    if c > 1000 {
                        position = c - 1000;
                    }
                },
                None => {
                    return r;
                },
            }
        }
        let tc = seconds_to_timecode(position);
        let (audio, video) = match (&self.metadata, &self.tracks) {
            (Some(m), Some(t)) => {
                let audio_name = String::from_str("audio");
                (segment_path_of(&m.video, tc, audio_name.as_str()), segment_path_of(&m.video, tc, t[self.level].name.as_str()))
            },
            _ => {
                return r;
            },
        };
        self.state = MachineState::AdaptativeBitrate;
        self.in_flight = true;
        self.ema.start_timer(view.now);
        r.push(Action::FetchSegments { audio: Some(audio), video });
        r
    }

    fn load_live_segment(&mut self, view: &MediaView) -> (r: Vec<Action>)
        requires
            old(self).wf(),
            old(self).tracks is Some,
            old(self).metadata is None,
            !old(self).in_flight,
        ensures
            final(self).wf(),
            load_post(old(self)@, *view, final(self)@, r@),
            r@.len() <= 1,
    {
        let mut live = match self.live_stream.take() {
            Some(l) => l,
            None => {
                return Vec::new();
            },
        };
        if live.buffer.len() == 0 {
            self.live_stream = Some(live);
            return self.set_timeout();
        }
        let popped = live.pop_next();
        self.live_stream = Some(live);
        let (_cid, node) = match popped {
            Some(e) => e,
            None => {
                return self.set_timeout();
            },
        };
        let audio_name = String::from_str("audio");
        let links = match &self.tracks {
            Some(t) => (node.track_link(&audio_name), node.track_link(&t[self.level].name)),
            None => (None, None),
        };
        match links {
            (Some(a), Some(v)) => {
                self.state = MachineState::AdaptativeBitrate;
                self.in_flight = true;
                self.ema.start_timer(view.now);
                let mut r: Vec<Action> = Vec::new();
                r.push(Action::FetchSegments { audio: Some(a.text), video: v.text });
                r
            },
            _ => self.set_timeout(),
        }
    }

    fn switch_quality(&mut self) -> (r: Vec<Action>)
        requires
            old(self).wf(),
            old(self).tracks is Some,
        ensures
            final(self).wf(),
            switch_post(old(self)@, final(self)@, r@),
    {
        let mut r: Vec<Action> = Vec::new();
        if let Some(t) = &self.tracks {
            r.push(Action::ChangeCodec(t[self.level].codec.clone()));
        }
        r
    }

    fn flush_buffer(&mut self, view: &MediaView) -> (r: Vec<Action>)
        requires
            old(self).wf(),
        ensures
            final(self).wf(),
            flush_post(old(self)@, *view, final(self)@, r@),
    {
        let mut r: Vec<Action> = Vec::new();
        match (&view.buffered, view.current_time) {
            (Some(b), Some(c)) => {
                let (start, end) = flush_range(b, c, self.config);
                r.push(Action::Remove { start, end });
            },
            _ => {},
        }
        r
    }

    fn check_status(&mut self, view: &MediaView) -> (r: Vec<Action>)
        requires
            old(self).wf(),
            old(self).tracks is Some,
        ensures
            final(self).wf(),
            status_post(old(self)@, *view, final(self)@, r@),
            r@.len() <= 1,
    {
        let (ranges, current) = match (&view.buffered, view.current_time) {
            (Some(b), Some(c)) => (b, c),
            _ => {
                return self.set_timeout();
            },
        };
        let duration = match &self.metadata {
            Some(m) => Some(m.duration),
            None => None,
        };
        match check_status(ranges, current, duration, self.config) {
            StatusDecision::Flush => self.flush_buffer(view),
            StatusDecision::EndOfVideo => Vec::new(),
            StatusDecision::Timeout => self.set_timeout(),
            StatusDecision::Load => self.load_segment(view),
        }
    }

    fn check_abr(&mut self, view: &MediaView) -> (r: Vec<Action>)
        requires
            old(self).wf(),
            old(self).tracks is Some,
        ensures
            final(self).wf(),
            abr_post(old(self)@, *view, final(self)@, r@),
            r@.len() <= 1,
            old(self)@.in_flight ==> r@.len() == 0,
    {
        if self.in_flight {
            return Vec::new();
        }
        let average = match self.ema.average() {
            Some(a) => a,
            None => {
                self.state = MachineState::Status;
                return self.check_status(view);
            },
        };
        let next = match &self.tracks {
            Some(t) => select_level(t, average),
            None => {
                return Vec::new();
            },
        };
        if next == self.level {
            self.state = MachineState::Status;
            return self.check_status(view);
        }
        self.level = next;
        self.state = MachineState::Switch;
        self.switch_quality()
    }

    /// Installs the timer unless one is pending.
    fn set_timeout(&mut self) -> (r: Vec<Action>)
        requires
            old(self).wf(),
        ensures
            final(self).wf(),
            timer_post(old(self)@, final(self)@, r@),
            r@.len() <= 1,
    {
        let mut r: Vec<Action> = Vec::new();
        if !self.timer_pending {
            self.timer_pending = true;
            r.push(Action::StartTimer(self.config.tick_ms));
        }
        r
    }
}

/// The path of track `track` of the segment at timecode `tc` under `root`.
fn segment_path_of(root: &Cid, tc: (u64, u8, u8), track: &str) -> (r: String)
    ensures
        r@ == segment_path(root@, (tc.0 as nat, tc.1 as nat, tc.2 as nat), track@),
{
    let mut s = root.text.clone();
    s.append("/time/hour/");
    push_decimal(&mut s, tc.0);
    s.append("/minute/");
    push_decimal(&mut s, tc.1 as u64);
    s.append("/second/");
    push_decimal(&mut s, tc.2 as u64);
    s.append("/video/track/");
    s.append(track);
    s
}

/// At all times the level indexes a video track of the accepted setup:
/// it lies between 1 and the number of tracks less one (and is 1 before a
/// setup was accepted).
pub proof fn lemma_level_in_range(p: VideoPlayer)
    requires
        p.wf(),
    ensures
        p@.tracks matches Some(t) ==> 1 <= p@.level < t.len(),
        p@.tracks is None ==> p@.level == 1,
{
}

} // verus!
