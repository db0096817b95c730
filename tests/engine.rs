use video_engine::content_id::Cid;
use video_engine::live::{LiveStream, VideoNode};
use video_engine::media::{Config, TimeRange, Track};
use video_engine::video_player::{Action, MachineState, MediaView, Props, VideoMetadata, VideoPlayer};

fn cid(s: &str) -> Cid {
    Cid { text: s.to_string() }
}

fn track(name: &str, bandwidth: u64) -> Track {
    Track {
        name: name.to_string(),
        codec: format!("codec-{}", name),
        bandwidth,
        initialization_segment: cid(&format!("init-{}", name)),
    }
}

fn ladder() -> Vec<Track> {
    vec![track("audio", 64000), track("v1", 500000), track("v2", 1500000), track("v3", 3000000)]
}

fn node(previous: Option<&str>, tag: &str) -> VideoNode {
    VideoNode {
        previous: previous.map(cid),
        tracks: vec![
            ("audio".to_string(), cid(&format!("{}-audio", tag))),
            ("v1".to_string(), cid(&format!("{}-v1", tag))),
            ("v2".to_string(), cid(&format!("{}-v2", tag))),
            ("v3".to_string(), cid(&format!("{}-v3", tag))),
        ],
    }
}

fn view(ranges: Vec<(u64, u64)>, current: u64, now: u64) -> MediaView {
    MediaView {
        buffered: Some(ranges.into_iter().map(|(start, end)| TimeRange { start, end }).collect()),
        current_time: Some(current),
        now,
    }
}

fn vod() -> VideoPlayer {
    let props = Props {
        metadata: Some(VideoMetadata { duration: 60_000, video: cid("root") }),
        topic: None,
        streamer_peer_id: None,
    };
    VideoPlayer::create(props, Config::standard()).unwrap().0
}

fn live() -> VideoPlayer {
    let props = Props { metadata: None, topic: Some("topic".to_string()), streamer_peer_id: Some("origin".to_string()) };
    VideoPlayer::create(props, Config::standard()).unwrap().0
}

fn fetch_paths(a: &Action) -> (Option<String>, String) {
    match a {
        Action::FetchSegments { audio, video } => (audio.clone(), video.clone()),
        other => panic!("not a fetch: {:?}", other),
    }
}

#[test]
fn create_needs_exactly_one_mode() {
    let both = Props {
        metadata: Some(VideoMetadata { duration: 1, video: cid("r") }),
        topic: Some("t".to_string()),
        streamer_peer_id: Some("p".to_string()),
    };
    assert!(VideoPlayer::create(both, Config::standard()).is_none());
    let neither = Props { metadata: None, topic: None, streamer_peer_id: None };
    assert!(VideoPlayer::create(neither, Config::standard()).is_none());
    let no_peer = Props { metadata: None, topic: Some("t".to_string()), streamer_peer_id: None };
    assert!(VideoPlayer::create(no_peer, Config::standard()).is_none());
    let p = vod();
    assert_eq!(p.state(), MachineState::Timeout);
    assert_eq!(p.level(), 1);
}

#[test]
fn vod_source_open_fetches_setup() {
    let p = vod();
    let acts = p.on_source_open();
    assert_eq!(acts.len(), 2);
    assert!(matches!(acts[0], Action::SetDuration(60_000)));
    match &acts[1] {
        Action::FetchSetup(path) => assert_eq!(path, "root/time/hour/0/minute/0/second/0/video/setup/"),
        other => panic!("{:?}", other),
    }
    assert!(live().on_source_open().is_empty());
}

#[test]
fn setup_creates_sinks_and_loads_init_segments() {
    let mut p = vod();
    let acts = p.on_setup(ladder(), &vec![true; 4], true);
    assert_eq!(acts.len(), 2);
    match &acts[0] {
        Action::CreateSinks { audio_codec, video_codec } => {
            assert_eq!(audio_codec, "codec-audio");
            assert_eq!(video_codec, "codec-v1");
        },
        other => panic!("{:?}", other),
    }
    assert_eq!(fetch_paths(&acts[1]), (Some("init-audio".to_string()), "init-v1".to_string()));
    assert_eq!(p.state(), MachineState::Load);
    assert_eq!(p.level(), 1);
    assert!(p.on_setup(ladder(), &vec![true; 4], true).is_empty());
}

#[test]
fn setup_skips_unsupported_video() {
    let mut p = vod();
    let acts = p.on_setup(ladder(), &vec![true, false, true, true], true);
    assert_eq!(fetch_paths(&acts[1]).1, "init-v2");
    assert_eq!(p.level(), 2);
}

#[test]
fn setup_without_supported_audio_is_fatal() {
    let mut p = vod();
    let acts = p.on_setup(ladder(), &vec![false, true, true, true], true);
    assert_eq!(acts.len(), 1);
    assert!(matches!(acts[0], Action::Fatal));
    let acts = p.on_setup(vec![track("v1", 1), track("audio", 2)], &vec![true, true], true);
    assert!(matches!(acts[0], Action::Fatal));
    assert_eq!(p.state(), MachineState::Timeout);
}

#[test]
fn vod_load_adapt_switch_cycle() {
    let mut p = vod();
    p.on_setup(ladder(), &vec![true; 4], true);
    p.on_append(1000, 5);
    let acts = p.on_update_end(&view(vec![], 0, 0));
    assert_eq!(
        fetch_paths(&acts[0]),
        (
            Some("root/time/hour/0/minute/0/second/0/video/track/audio".to_string()),
            "root/time/hour/0/minute/0/second/0/video/track/v1".to_string()
        )
    );
    assert_eq!(p.state(), MachineState::AdaptativeBitrate);
    // A second tick while the fetch is in flight asks for nothing.
    assert!(p.tick(&view(vec![], 0, 500)).is_empty());
    // 200 kB in one second: 1.6 Mbit/s selects level 2.
    p.on_append(200_000, 1000);
    let acts = p.on_update_end(&view(vec![(0, 2000)], 0, 1010));
    assert_eq!(acts.len(), 1);
    match &acts[0] {
        Action::ChangeCodec(c) => assert_eq!(c, "codec-v2"),
        other => panic!("{:?}", other),
    }
    assert_eq!(p.level(), 2);
    assert_eq!(p.state(), MachineState::Switch);
    let acts = p.on_codec_changed();
    assert_eq!(fetch_paths(&acts[0]), (None, "init-v2".to_string()));
    assert_eq!(p.state(), MachineState::Load);
    p.on_append(100, 1100);
    let acts = p.on_update_end(&view(vec![(0, 3725_400)], 0, 1200));
    assert_eq!(
        fetch_paths(&acts[0]),
        (
            Some("root/time/hour/1/minute/2/second/5/video/track/audio".to_string()),
            "root/time/hour/1/minute/2/second/5/video/track/v2".to_string()
        )
    );
}

#[test]
fn vod_empty_buffer_loads_one_second_before_position() {
    let mut p = vod();
    p.on_setup(ladder(), &vec![true; 4], true);
    p.on_append(10, 1);
    let acts = p.on_update_end(&view(vec![], 59_600 + 1000, 0));
    assert_eq!(fetch_paths(&acts[0]).1, "root/time/hour/0/minute/1/second/0/video/track/v1");
}

#[test]
fn vod_status_waits_when_forward_buffer_full() {
    let mut p = vod();
    p.on_setup(ladder(), &vec![true; 4], true);
    p.on_append(10, 1);
    p.on_update_end(&view(vec![], 0, 0));
    p.on_append(50_000, 1000); // 400 kbit/s: stays at level 1
    let acts = p.on_update_end(&view(vec![(0, 20_000)], 2000, 1000));
    assert_eq!(acts.len(), 1);
    assert!(matches!(acts[0], Action::StartTimer(1000)));
    assert_eq!(p.state(), MachineState::Status);
    // The timer is pending: a second wait asks for none.
    assert!(p.tick(&view(vec![(0, 20_000)], 2000, 1100)).is_empty());
    // Once it fires, playback moved on and loading resumes.
    let acts = p.on_timeout(&view(vec![(0, 20_000)], 5000, 2000));
    assert_eq!(fetch_paths(&acts[0]).1, "root/time/hour/0/minute/0/second/20/video/track/v1");
}

#[test]
fn vod_end_of_video() {
    let mut p = vod();
    p.on_setup(ladder(), &vec![true; 4], true);
    p.on_append(10, 1);
    p.on_update_end(&view(vec![], 0, 0));
    p.on_append(50_000, 1000);
    let acts = p.on_update_end(&view(vec![(55_000, 60_000)], 56_000, 1000));
    assert!(acts.is_empty());
}

#[test]
fn seeking_flushes_back_buffer() {
    let mut p = vod();
    p.on_setup(ladder(), &vec![true; 4], true);
    p.on_append(10, 1);
    let acts = p.on_seeking(&view(vec![(10_000, 35_000)], 30_000, 0));
    assert_eq!(acts.len(), 1);
    assert!(matches!(acts[0], Action::Remove { start: 10_000, end: 22_000 }));
    assert_eq!(p.state(), MachineState::Flush);
    p.on_flushed();
    assert_eq!(p.state(), MachineState::Load);
}

#[test]
fn failed_fetch_is_retried_on_the_timer() {
    let mut p = vod();
    p.on_setup(ladder(), &vec![true; 4], true);
    p.on_append(10, 1);
    p.on_update_end(&view(vec![], 0, 0));
    let acts = p.on_fetch_failed();
    assert!(matches!(acts[0], Action::StartTimer(1000)));
    let acts = p.on_timeout(&view(vec![], 0, 3000));
    assert_eq!(fetch_paths(&acts[0]).1, "root/time/hour/0/minute/0/second/0/video/track/v1");
}

#[test]
fn timer_before_setup() {
    let mut p = vod();
    let acts = p.tick(&view(vec![], 0, 0));
    assert!(matches!(acts[0], Action::StartTimer(1000)));
    assert!(p.tick(&view(vec![], 0, 0)).is_empty());
    let acts = p.destroy();
    assert_eq!(acts.len(), 1);
    assert!(matches!(acts[0], Action::CancelTimer));
}

#[test]
fn pubsub_from_other_peer_is_dropped() {
    let p = live();
    let c = <cid::Cid as std::convert::TryFrom<&str>>::try_from("QmYwAPJzv5CZsnA625s3Xf2nemtYgPpHdWEz79ojWnPbdG").unwrap();
    assert!(p.on_pubsub_update(&"intruder".to_string(), &c.to_bytes()).is_empty());
    assert!(p.on_pubsub_update(&"origin".to_string(), &b"Stopping".to_vec()).is_empty());
    let acts = p.on_pubsub_update(&"origin".to_string(), &c.to_bytes());
    assert_eq!(acts.len(), 2);
    match (&acts[0], &acts[1]) {
        (Action::FetchNode(n), Action::FetchSetup(path)) => {
            assert_eq!(n.text, "QmYwAPJzv5CZsnA625s3Xf2nemtYgPpHdWEz79ojWnPbdG");
            assert_eq!(path, "QmYwAPJzv5CZsnA625s3Xf2nemtYgPpHdWEz79ojWnPbdG/setup/");
        },
        other => panic!("{:?}", other),
    }
}

#[test]
fn reorder_yields_predecessor_order() {
    let mut l = LiveStream::new("topic".to_string(), "origin".to_string());
    let fetch = l.on_node(cid("C"), node(Some("B"), "C"));
    assert_eq!(fetch.map(|c| c.text), Some("B".to_string()));
    assert!(l.on_node(cid("A"), node(None, "A")).is_none());
    assert!(l.on_node(cid("B"), node(Some("A"), "B")).is_none());
    let order: Vec<String> = (0..3).map(|_| l.pop_next().unwrap().0.text).collect();
    assert_eq!(order, vec!["A", "B", "C"]);
    assert!(l.pop_next().is_none());
    assert_eq!(l.previous.as_ref().map(|c| c.text.clone()), Some("C".to_string()));
}

#[test]
fn duplicate_node_is_ignored() {
    let mut l = LiveStream::new("topic".to_string(), "origin".to_string());
    assert!(l.on_node(cid("A"), node(None, "A")).is_none());
    assert!(l.on_node(cid("A"), node(None, "A")).is_none());
    assert_eq!(l.buffer.len(), 1);
    assert_eq!(l.unordered_buffer.len(), 0);
}

#[test]
fn live_load_follows_chain_and_waits_when_empty() {
    let mut p = live();
    let acts = p.on_video_node(cid("B"), node(Some("A"), "B"));
    assert!(matches!(&acts[0], Action::FetchNode(c) if c.text == "A"));
    assert!(p.on_video_node(cid("A"), node(None, "A")).is_empty());
    p.on_setup(ladder(), &vec![true; 4], true);
    p.on_append(10, 1);
    let acts = p.on_update_end(&view(vec![], 0, 0));
    assert_eq!(fetch_paths(&acts[0]), (Some("A-audio".to_string()), "A-v1".to_string()));
    p.on_append(10_000, 1000); // 80 kbit/s: level 1
    let acts = p.on_update_end(&view(vec![(0, 2000)], 0, 1000));
    assert_eq!(fetch_paths(&acts[0]), (Some("B-audio".to_string()), "B-v1".to_string()));
    p.on_append(10_000, 2000);
    let acts = p.on_update_end(&view(vec![(0, 4000)], 0, 2000));
    assert!(matches!(acts[0], Action::StartTimer(1000)));
    let acts = p.destroy();
    assert!(matches!(&acts[0], Action::Unsubscribe(t) if t == "topic"));
    assert!(matches!(acts[1], Action::CancelTimer));
}

#[test]
fn live_create_asks_to_subscribe() {
    let props = Props { metadata: None, topic: Some("topic".to_string()), streamer_peer_id: Some("origin".to_string()) };
    let (_, acts) = VideoPlayer::create(props, Config::standard()).unwrap();
    assert_eq!(acts.len(), 1);
    assert!(matches!(&acts[0], Action::Subscribe(t) if t == "topic"));
    let props = Props { metadata: Some(VideoMetadata { duration: 1, video: cid("r") }), topic: None, streamer_peer_id: None };
    let (_, acts) = VideoPlayer::create(props, Config::standard()).unwrap();
    assert!(acts.is_empty());
}

#[test]
fn setup_before_source_open_is_ignored() {
    let mut p = vod();
    assert!(p.on_setup(ladder(), &vec![true; 4], false).is_empty());
    assert_eq!(p.state(), MachineState::Timeout);
    let acts = p.on_setup(ladder(), &vec![true; 4], true);
    assert_eq!(acts.len(), 2);
}

#[test]
fn failed_sink_creation_is_fatal_and_undoes_setup() {
    let mut p = vod();
    p.on_setup(ladder(), &vec![true, false, true, true], true);
    assert_eq!(p.level(), 2);
    let acts = p.on_sinks_failed();
    assert_eq!(acts.len(), 1);
    assert!(matches!(acts[0], Action::Fatal));
    assert_eq!(p.state(), MachineState::Timeout);
    assert_eq!(p.level(), 1);
    // Undone: a later descriptor is accepted again.
    assert_eq!(p.on_setup(ladder(), &vec![true; 4], true).len(), 2);
}

#[test]
fn reorder_through_engine() {
    let mut p = live();
    let acts = p.on_video_node(cid("C"), node(Some("B"), "C"));
    assert!(matches!(&acts[0], Action::FetchNode(c) if c.text == "B"));
    assert!(p.on_video_node(cid("A"), node(None, "A")).is_empty());
    assert!(p.on_video_node(cid("B"), node(Some("A"), "B")).is_empty());
    p.on_setup(ladder(), &vec![true; 4], true);
    p.on_append(10, 1);
    let mut seen = Vec::new();
    for now in [0u64, 1000, 2000] {
        let acts = p.on_update_end(&view(vec![], 0, now));
        seen.push(fetch_paths(&acts[0]).1);
        p.on_append(10_000, now + 1000);
    }
    assert_eq!(seen, vec!["A-v1", "B-v1", "C-v1"]);
}
