//! Live streams: the chain of announced segments and the reorder buffer that
//! hands them out in predecessor order.
use vstd::prelude::*;
use std::collections::VecDeque;
use crate::content_id::{Cid, copy_link, link_view, same_link};

verus! {

/// A live segment: the link to the segment before it and, for each track
/// name, the identifier of that track's bytes.
#[derive(Debug)]
pub struct VideoNode {
    pub previous: Option<Cid>,
    pub tracks: Vec<(String, Cid)>,
}

/// The identifier that a track table gives for `name` (its first entry of
/// that name).
pub open spec fn track_link_of(tracks: Seq<(String, Cid)>, name: Seq<char>) -> Option<Seq<char>>
    decreases tracks.len(),
{
    if tracks.len() == 0 {
        None
    } else if tracks[0].0@ == name {
        Some(tracks[0].1@)
    } else {
        track_link_of(tracks.drop_first(), name)
    }
}

impl VideoNode {
    /// The identifier of the bytes of track `name`, if the node has one.
    pub fn track_link(&self, name: &String) -> (r: Option<Cid>)
        ensures
            link_view(r) == track_link_of(self.tracks@, name@),
    {
        let mut i: usize = 0;
        assert(self.tracks@.skip(0) =~= self.tracks@);
        while i < self.tracks.len()
            invariant
                i <= self.tracks@.len(),
                track_link_of(self.tracks@, name@) == track_link_of(self.tracks@.skip(i as int), name@),
            decreases self.tracks@.len() - i,
        {
            assert(self.tracks@.skip(i as int).drop_first() =~= self.tracks@.skip(i + 1));
            if self.tracks[i].0 == *name {
                return Some(self.tracks[i].1.copy());
            }
            i = i + 1;
        }
        None
    }
}

/// The identifiers of a sequence of entries.
pub open spec fn ids(s: Seq<(Cid, VideoNode)>) -> Seq<Seq<char>> {
    s.map_values(|e: (Cid, VideoNode)| e.0@)
}

/// Every identifier of `s` is in `a` or in `b`.
pub open spec fn kept_in(s: Seq<Seq<char>>, a: Seq<Seq<char>>, b: Seq<Seq<char>>) -> bool {
    forall|c: Seq<char>| #[trigger] s.contains(c) ==> a.contains(c) || b.contains(c)
}

/// Every entry of `a` is an entry of `b`.
pub open spec fn entries_within(a: Seq<(Cid, VideoNode)>, b: Seq<(Cid, VideoNode)>) -> bool {
    forall|e: (Cid, VideoNode)| #[trigger] a.contains(e) ==> b.contains(e)
}

/// The entries of `s` from position `from` on are entries of `pool`.
pub open spec fn tail_from(s: Seq<(Cid, VideoNode)>, from: int, pool: Seq<(Cid, VideoNode)>) -> bool {
    forall|i: int| from <= i < s.len() ==> pool.contains(#[trigger] s[i])
}

/// Each entry links to the one before it.
pub open spec fn is_chain(s: Seq<(Cid, VideoNode)>) -> bool {
    forall|i: int| 0 <= i < s.len() - 1 ==> link_view(#[trigger] s[i + 1].1.previous) == Some(s[i].0@)
}


proof fn lemma_ids_push(s: Seq<(Cid, VideoNode)>, e: (Cid, VideoNode))
    ensures
        ids(s.push(e)) =~= ids(s).push(e.0@),
{
}

proof fn lemma_ids_remove(s: Seq<(Cid, VideoNode)>, k: int)
    requires
        0 <= k < s.len(),
    ensures
        ids(s.remove(k)) =~= ids(s).remove(k),
{
}

proof fn lemma_ids_drop_first(s: Seq<(Cid, VideoNode)>)
    requires
        s.len() > 0,
    ensures
        ids(s.subrange(1, s.len() as int)) =~= ids(s).subrange(1, s.len() as int),
{
}

/// The identifiers in `s` other than the one at `k` are those of
/// `s.remove(k)`.
proof fn lemma_remove_contains<A>(s: Seq<A>, k: int, c: A)
    requires
        0 <= k < s.len(),
    ensures
        s.remove(k).contains(c) ==> s.contains(c),
        s.contains(c) && c != s[k] ==> s.remove(k).contains(c),
        s.no_duplicates() ==> s.remove(k).no_duplicates(),
        s.no_duplicates() ==> !s.remove(k).contains(s[k]),
{
    if s.remove(k).contains(c) {
        let j = choose|j: int| 0 <= j < s.remove(k).len() && s.remove(k)[j] == c;
        if j < k {
            assert(s[j] == c);
        } else {
            assert(s[j + 1] == c);
        }
    }
    if s.contains(c) && c != s[k] {
        let j = choose|j: int| 0 <= j < s.len() && s[j] == c;
        if j < k {
            assert(s.remove(k)[j] == c);
        } else {
            assert(s.remove(k)[j - 1] == c);
        }
    }
    if s.no_duplicates() {
        assert forall|a: int, b: int| 0 <= a < b < s.remove(k).len() implies s.remove(k)[a] != s.remove(k)[b] by {
            let a2 = if a < k { a } else { a + 1 };
            let b2 = if b < k { b } else { b + 1 };
            assert(s.remove(k)[a] == s[a2]);
            assert(s.remove(k)[b] == s[b2]);
        }
        if s.remove(k).contains(s[k]) {
            let j = choose|j: int| 0 <= j < s.remove(k).len() && s.remove(k)[j] == s[k];
            let j2 = if j < k { j } else { j + 1 };
            assert(s[j2] == s[k]);
        }
    }
}

/// Whether a node links to the end of the chain: to its last segment, or
/// to the last segment handed out where the chain is empty.
pub open spec fn links_to_end(l: LiveStream, node: VideoNode) -> bool {
    if l.ordered().len() == 0 {
        link_view(node.previous) == l.previous_spec()
    } else {
        link_view(node.previous) == Some(l.ordered().last().0@)
    }
}

/// The state of a live stream: its pub-sub topic, the peer that may
/// announce on it, the last segment handed out, the segments ready in
/// chain order and those that arrived before their predecessor.
pub struct LiveStream {
    pub topic: String,
    pub streamer_peer_id: String,
    pub previous: Option<Cid>,
    pub buffer: VecDeque<(Cid, VideoNode)>,
    /// The waiting segments, keyed by identifier: a list whose identifiers
    /// are unique (see `wf`), since std's maps keyed by text carry no
    /// specification that a proof could use.
    pub unordered_buffer: Vec<(Cid, VideoNode)>,
}

impl LiveStream {
    /// The last segment handed out.
    pub open spec fn previous_spec(&self) -> Option<Seq<char>> {
        link_view(self.previous)
    }

    /// The segments ready to be handed out, in order.
    pub open spec fn ordered(&self) -> Seq<(Cid, VideoNode)> {
        self.buffer@
    }

    /// The segments waiting for their predecessor.
    pub open spec fn pending(&self) -> Seq<(Cid, VideoNode)> {
        self.unordered_buffer@
    }

    /// The ready segments form a chain that starts right after the last one
    /// handed out, and each identifier is held at most once.
    pub open spec fn wf(&self) -> bool {
        &&& is_chain(self.ordered())
        &&& self.ordered().len() > 0 ==> link_view(self.ordered()[0].1.previous) == self.previous_spec()
        &&& ids(self.ordered()).no_duplicates()
        &&& ids(self.pending()).no_duplicates()
        &&& forall|c: Seq<char>| ids(self.ordered()).contains(c) ==> !ids(self.pending()).contains(c)
    }

    /// A live stream on `topic` whose segments may be announced by
    /// `streamer_peer_id` only; nothing is handed out yet.
    pub fn new(topic: String, streamer_peer_id: String) -> (r: LiveStream)
        ensures
            r.wf(),
            r.topic@ == topic@,
            r.streamer_peer_id@ == streamer_peer_id@,
            r.previous_spec() is None,
            r.ordered().len() == 0,
            r.pending().len() == 0,
    {
        let r = LiveStream {
            topic,
            streamer_peer_id,
            previous: None,
            buffer: VecDeque::new(),
            unordered_buffer: Vec::new(),
        };
        assert(ids(r.ordered()) =~= Seq::<Seq<char>>::empty());
        assert(ids(r.pending()) =~= Seq::<Seq<char>>::empty());
        r
    }


    /// Hands out the next segment of the chain, if one is ready, and
    /// records it as the last one handed out. What is handed out links to
    /// the segment handed out before it.
    pub fn pop_next(&mut self) -> (r: Option<(Cid, VideoNode)>)
        requires
            old(self).wf(),
        ensures
            final(self).wf(),
            final(self).topic == old(self).topic,
            final(self).streamer_peer_id == old(self).streamer_peer_id,
            final(self).pending() == old(self).pending(),
            match r {
                Some(e) => {
                    &&& old(self).ordered().len() > 0
                    &&& e == old(self).ordered()[0]
                    &&& final(self).ordered() == old(self).ordered().drop_first()
                    &&& final(self).previous_spec() == Some(e.0@)
                    &&& link_view(e.1.previous) == old(self).previous_spec()
                },
                None => {
                    &&& old(self).ordered().len() == 0
                    &&& final(self).ordered() == old(self).ordered()
                    &&& final(self).previous_spec() == old(self).previous_spec()
                },
            },
    {
        let ghost before = self.buffer@;
        match self.buffer.pop_front() {
            Some(e) => {
                self.previous = Some(e.0.copy());
                proof {
                    assert(self.buffer@ =~= before.drop_first());
                    lemma_ids_drop_first(before);
                    let o = ids(before);
                    assert(ids(self.buffer@) =~= o.subrange(1, o.len() as int));
                    assert forall|c: Seq<char>| ids(self.buffer@).contains(c) implies o.contains(c) by {
                        let j = choose|j: int| 0 <= j < ids(self.buffer@).len() && ids(self.buffer@)[j] == c;
                        assert(o[j + 1] == c);
                    }
                    assert(is_chain(self.buffer@)) by {
                        assert forall|i: int| 0 <= i < self.buffer@.len() - 1 implies
                            link_view(#[trigger] self.buffer@[i + 1].1.previous) == Some(self.buffer@[i].0@) by {
                            assert(before[i + 2] == self.buffer@[i + 1]);
                        }
                    }
                    if self.buffer@.len() > 0 {
                        assert(before[1] == self.buffer@[0]);
                    }
                }
                Some(e)
            },
            None => None,
        }
    }

    /// Moves waiting segments to the end of the chain as long as one links
    /// to its last segment.
    fn extend(&mut self)
        requires
            old(self).wf(),
            old(self).ordered().len() > 0,
        ensures
            final(self).wf(),
            final(self).topic == old(self).topic,
            final(self).streamer_peer_id == old(self).streamer_peer_id,
            final(self).previous == old(self).previous,
            final(self).ordered().len() >= old(self).ordered().len(),
            final(self).ordered().subrange(0, old(self).ordered().len() as int) == old(self).ordered(),
            forall|k: int| 0 <= k < final(self).pending().len() ==>
                link_view(#[trigger] final(self).pending()[k].1.previous)
                    != Some(final(self).ordered().last().0@),
            forall|c: Seq<char>| #[trigger] ids(final(self).pending()).contains(c) ==> ids(old(self).pending()).contains(c),
            kept_in(ids(old(self).pending()), ids(final(self).pending()), ids(final(self).ordered())),
            entries_within(final(self).pending(), old(self).pending()),
            tail_from(final(self).ordered(), old(self).ordered().len() as int, old(self).pending()),
            forall|c: Seq<char>| #[trigger] ids(final(self).ordered()).contains(c) ==>
                ids(old(self).ordered()).contains(c) || ids(old(self).pending()).contains(c),
        decreases old(self).pending().len(),
    {
        let n = self.buffer.len();
        let tail = self.buffer[n - 1].0.copy();
        let k = match self.find_pending(&tail, true) {
            Some(k) => k,
            None => {
                return;
            },
        };
        let ghost o = self.buffer@;
        let ghost p = self.unordered_buffer@;
        let e = self.unordered_buffer.remove(k);
        self.buffer.push_back(e);
        proof {
            lemma_ids_push(o, e);
            lemma_ids_remove(p, k as int);
            assert(ids(p)[k as int] == e.0@);
            lemma_remove_contains(ids(p), k as int, e.0@);
            assert(!ids(o).contains(e.0@));
            assert forall|c: Seq<char>| ids(self.buffer@).contains(c) implies !ids(self.unordered_buffer@).contains(c) by {
                if c != e.0@ {
                    assert(ids(o).contains(c)) by {
                        let j = choose|j: int| 0 <= j < ids(self.buffer@).len() && ids(self.buffer@)[j] == c;
                        assert(ids(o)[j] == c);
                    }
                    lemma_remove_contains(ids(p), k as int, c);
                }
            }
            assert(ids(self.buffer@).no_duplicates()) by {
                assert forall|a: int, b: int| 0 <= a < b < ids(self.buffer@).len() implies
                    ids(self.buffer@)[a] != ids(self.buffer@)[b] by {
                    if b == o.len() {
                        assert(ids(o)[a] == ids(self.buffer@)[a]);
                    }
                }
            }
            assert(is_chain(self.buffer@)) by {
                assert forall|i: int| 0 <= i < self.buffer@.len() - 1 implies
                    link_view(#[trigger] self.buffer@[i + 1].1.previous) == Some(self.buffer@[i].0@) by {
                    if i + 1 < o.len() {
                        assert(o[i + 1] == self.buffer@[i + 1]);
                    } else {
                        assert(self.buffer@[i + 1] == e);
                        assert(self.buffer@[i] == o[i]);
                    }
                }
            }
        }
        let ghost mid_o = self.buffer@;
        let ghost mid_p = self.unordered_buffer@;
        self.extend();
        proof {
            assert(kept_in(ids(mid_p), ids(self.unordered_buffer@), ids(self.buffer@)));
            assert(entries_within(self.unordered_buffer@, mid_p));
            assert(tail_from(self.buffer@, mid_o.len() as int, mid_p));
            assert forall|x: (Cid, VideoNode)| mid_p.contains(x) implies p.contains(x) by {
                lemma_remove_contains(p, k as int, x);
            }
            assert(p.contains(e)) by {
                assert(p[k as int] == e);
            }
            assert(entries_within(self.unordered_buffer@, p));
            assert forall|i: int| o.len() <= i < self.buffer@.len() implies p.contains(#[trigger] self.buffer@[i]) by {
                if i == o.len() {
                    assert(self.buffer@.subrange(0, mid_o.len() as int)[i] == mid_o[i]);
                    assert(mid_o[i] == e);
                } else {
                    assert(mid_p.contains(self.buffer@[i]));
                }
            }
            assert(self.buffer@.subrange(0, mid_o.len() as int) == mid_o);
            assert(self.buffer@.subrange(0, o.len() as int) =~= mid_o.subrange(0, o.len() as int));
            assert(mid_o.subrange(0, o.len() as int) =~= o);
            assert forall|c: Seq<char>| #[trigger] ids(self.unordered_buffer@).contains(c) implies ids(p).contains(c) by {
                lemma_remove_contains(ids(p), k as int, c);
            }
            assert forall|c: Seq<char>| #[trigger] ids(p).contains(c) implies
                ids(self.unordered_buffer@).contains(c) || ids(self.buffer@).contains(c) by {
                lemma_remove_contains(ids(p), k as int, c);
                if c == e.0@ {
                    let j = o.len() as int;
                    assert(mid_o[j] == e);
                    assert(self.buffer@.subrange(0, mid_o.len() as int)[j] == mid_o[j]);
                    assert(self.buffer@[j] == e);
                    assert(ids(self.buffer@)[j] == c);
                    assert(ids(self.buffer@).contains(c));
                } else {
                    assert(ids(mid_p) == ids(p).remove(k as int));
                    assert(ids(mid_p).contains(c));
                    assert(ids(self.unordered_buffer@).contains(c) || ids(self.buffer@).contains(c));
                }
            }
            assert forall|c: Seq<char>| #[trigger] ids(self.buffer@).contains(c) implies
                ids(o).contains(c) || ids(p).contains(c) by {
                if ids(mid_o).contains(c) {
                    let j = choose|j: int| 0 <= j < ids(mid_o).len() && ids(mid_o)[j] == c;
                    if j < o.len() {
                        assert(ids(o)[j] == c);
                    } else {
                        assert(ids(p)[k as int] == c);
                    }
                } else {
                    lemma_remove_contains(ids(p), k as int, c);
                }
            }
        }
    }


    /// Accepts the node of segment `cid`, announced or fetched. A node
    /// already in the chain is ignored. A node that links to the end of the
    /// chain joins it, followed by every waiting node that then links to
    /// the new end. Any other node waits, and its predecessor is returned
    /// to be fetched.
    pub fn on_node(&mut self, cid: Cid, node: VideoNode) -> (fetch: Option<Cid>)
        requires
            old(self).wf(),
        ensures
            final(self).wf(),
            final(self).topic == old(self).topic,
            final(self).streamer_peer_id == old(self).streamer_peer_id,
            final(self).previous == old(self).previous,
            ids(old(self).ordered()).contains(cid@) ==> {
                &&& fetch is None
                &&& final(self).ordered() == old(self).ordered()
                &&& final(self).pending() == old(self).pending()
            },
            !ids(old(self).ordered()).contains(cid@) && links_to_end(*old(self), node) ==> {
                &&& fetch is None
                &&& final(self).ordered().len() > old(self).ordered().len()
                &&& final(self).ordered().subrange(0, old(self).ordered().len() as int + 1)
                    == old(self).ordered().push((cid, node))
                &&& forall|k: int| 0 <= k < final(self).pending().len() ==>
                    link_view(#[trigger] final(self).pending()[k].1.previous)
                        != Some(final(self).ordered().last().0@)
                &&& forall|c: Seq<char>| #[trigger] ids(final(self).pending()).contains(c)
                    ==> ids(old(self).pending()).contains(c)
                &&& forall|c: Seq<char>| #[trigger] ids(old(self).pending()).contains(c)
                    ==> ids(final(self).pending()).contains(c) || ids(final(self).ordered()).contains(c)
                &&& forall|c: Seq<char>| #[trigger] ids(final(self).ordered()).contains(c)
                    ==> ids(old(self).ordered()).contains(c) || ids(old(self).pending()).contains(c)
                        || c == cid@
                &&& entries_within(final(self).pending(), old(self).pending())
                &&& tail_from(final(self).ordered(), old(self).ordered().len() as int + 1, old(self).pending())
            },
            !ids(old(self).ordered()).contains(cid@) && !links_to_end(*old(self), node) ==> {
                &&& link_view(fetch) == link_view(node.previous)
                &&& final(self).ordered() == old(self).ordered()
                &&& final(self).pending().last() == (cid, node)
                &&& forall|c: Seq<char>| #[trigger] ids(final(self).pending()).contains(c)
                    ==> ids(old(self).pending()).contains(c) || c == cid@
                &&& forall|c: Seq<char>| #[trigger] ids(old(self).pending()).contains(c)
                    ==> ids(final(self).pending()).contains(c)
                &&& !ids(old(self).pending()).contains(cid@) ==> final(self).pending()
                    == old(self).pending().push((cid, node))
                &&& ids(old(self).pending()).contains(cid@) ==> exists|k: int|
                    0 <= k < old(self).pending().len() && old(self).pending()[k].0@ == cid@
                        && final(self).pending() == old(self).pending().remove(k).push((cid, node))
            },
    {
        if self.is_ordered(&cid) {
            return None;
        }
        let links = if self.buffer.len() == 0 {
            same_link(&node.previous, &self.previous)
        } else {
            let n = self.buffer.len();
            match &node.previous {
                Some(p) => p.same(&self.buffer[n - 1].0),
                None => false,
            }
        };
        let ghost p0 = self.unordered_buffer@;
        let ghost mut kk: int = -1;
        // The segment may already wait: it leaves the waiting nodes.
        match self.find_pending(&cid, false) {
            Some(k) => {
                let _ = self.unordered_buffer.remove(k);
                proof {
                    kk = k as int;
                    assert forall|x: (Cid, VideoNode)| self.unordered_buffer@.contains(x) implies p0.contains(x) by {
                        lemma_remove_contains(p0, k as int, x);
                    }
                    lemma_ids_remove(p0, k as int);
                    assert(ids(p0)[k as int] == cid@);
                    lemma_remove_contains(ids(p0), k as int, cid@);
                    assert forall|c: Seq<char>| ids(self.unordered_buffer@).contains(c) implies ids(p0).contains(c) by {
                        lemma_remove_contains(ids(p0), k as int, c);
                    }
                    assert forall|c: Seq<char>| ids(p0).contains(c) && c != cid@ implies ids(self.unordered_buffer@).contains(c) by {
                        lemma_remove_contains(ids(p0), k as int, c);
                    }
                }
            },
            None => {
                proof {
                    assert forall|c: Seq<char>| ids(p0).contains(c) implies c != cid@ by {
                        if ids(p0).contains(c) {
                            let j = choose|j: int| 0 <= j < ids(p0).len() && ids(p0)[j] == c;
                            assert(p0[j].0@ == c);
                        }
                    }
                }
            },
        }
        let ghost p1 = self.unordered_buffer@;
        let ghost o = self.buffer@;
        assert(entries_within(p1, p0));
        assert(kk >= 0 ==> 0 <= kk < p0.len() && p0[kk].0@ == cid@ && p1 == p0.remove(kk));
        assert(kk < 0 ==> p1 == p0 && !ids(p0).contains(cid@));
        if links {
            let e = (cid, node);
            self.buffer.push_back(e);
            proof {
                lemma_ids_push(o, e);
                assert(!ids(p1).contains(cid@));
                assert(ids(self.buffer@).no_duplicates()) by {
                    assert forall|a: int, b: int| 0 <= a < b < ids(self.buffer@).len() implies
                        ids(self.buffer@)[a] != ids(self.buffer@)[b] by {
                        if b == o.len() {
                            assert(ids(o)[a] == ids(self.buffer@)[a]);
                        }
                    }
                }
                assert forall|c: Seq<char>| ids(self.buffer@).contains(c) implies !ids(self.unordered_buffer@).contains(c) by {
                    if c != cid@ {
                        let j = choose|j: int| 0 <= j < ids(self.buffer@).len() && ids(self.buffer@)[j] == c;
                        assert(ids(o)[j] == c);
                        assert(ids(o).contains(c));
                        assert(!ids(p0).contains(c));
                        assert(ids(p1).contains(c) ==> ids(p0).contains(c));
                    }
                }
                assert(is_chain(self.buffer@)) by {
                    assert forall|i: int| 0 <= i < self.buffer@.len() - 1 implies
                        link_view(#[trigger] self.buffer@[i + 1].1.previous) == Some(self.buffer@[i].0@) by {
                        if i + 1 < o.len() {
                            assert(o[i + 1] == self.buffer@[i + 1]);
                        } else {
                            assert(self.buffer@[i + 1] == e);
                            assert(self.buffer@[i] == o[i]);
                        }
                    }
                }
            }
            let ghost mid = self.buffer@;
            self.extend();
            proof {
                assert(self.buffer@.subrange(0, o.len() as int + 1) == mid);
                assert(kept_in(ids(p1), ids(self.unordered_buffer@), ids(self.buffer@)));
                assert(entries_within(self.unordered_buffer@, p1));
                assert(tail_from(self.buffer@, mid.len() as int, p1));
                assert(tail_from(self.buffer@, o.len() as int + 1, p0)) by {
                    assert forall|i: int| o.len() + 1 <= i < self.buffer@.len() implies p0.contains(#[trigger] self.buffer@[i]) by {
                        assert(p1.contains(self.buffer@[i]));
                    }
                }
                assert(forall|c: Seq<char>| #[trigger] ids(self.buffer@).contains(c) ==>
                    ids(mid).contains(c) || ids(p1).contains(c));
                assert forall|c: Seq<char>| #[trigger] ids(self.buffer@).contains(c) implies
                    ids(o).contains(c) || ids(p0).contains(c) || c == cid@ by {
                    if ids(mid).contains(c) && c != cid@ {
                        let j = choose|j: int| 0 <= j < ids(mid).len() && ids(mid)[j] == c;
                        assert(ids(o)[j] == c);
                    }
                }
                assert forall|c: Seq<char>| #[trigger] ids(p0).contains(c) implies
                    ids(self.unordered_buffer@).contains(c) || ids(self.buffer@).contains(c) by {
                    if c == cid@ {
                        assert(mid[o.len() as int].0@ == c);
                        assert(self.buffer@[o.len() as int] == mid[o.len() as int]);
                        assert(ids(self.buffer@)[o.len() as int] == c);
                    } else {
                        assert(ids(p1).contains(c));
                    }
                }
            }
            None
        } else {
            let fetch = copy_link(&node.previous);
            let e = (cid, node);
            self.unordered_buffer.push(e);
            proof {
                if kk >= 0 {
                    assert(ids(p0).contains(cid@)) by {
                        assert(ids(p0)[kk] == cid@);
                    }
                }
                lemma_ids_push(p1, e);
                assert(!ids(p1).contains(cid@));
                assert(!ids(o).contains(cid@));
                assert(ids(self.unordered_buffer@).no_duplicates()) by {
                    assert forall|a: int, b: int| 0 <= a < b < ids(self.unordered_buffer@).len() implies
                        ids(self.unordered_buffer@)[a] != ids(self.unordered_buffer@)[b] by {
                        if b == p1.len() {
                            assert(ids(p1)[a] == ids(self.unordered_buffer@)[a]);
                        }
                    }
                }
                assert forall|c: Seq<char>| ids(self.buffer@).contains(c) implies !ids(self.unordered_buffer@).contains(c) by {
                    if ids(self.unordered_buffer@).contains(c) && c != cid@ {
                        let j = choose|j: int| 0 <= j < ids(self.unordered_buffer@).len() && ids(self.unordered_buffer@)[j] == c;
                        assert(ids(p1)[j] == c);
                    }
                }
                assert forall|c: Seq<char>| #[trigger] ids(self.unordered_buffer@).contains(c) implies
                    ids(p0).contains(c) || c == cid@ by {
                    if c != cid@ {
                        let j = choose|j: int| 0 <= j < ids(self.unordered_buffer@).len() && ids(self.unordered_buffer@)[j] == c;
                        assert(ids(p1)[j] == c);
                    }
                }
                assert forall|c: Seq<char>| #[trigger] ids(p0).contains(c) implies
                    ids(self.unordered_buffer@).contains(c) by {
                    if c == cid@ {
                        assert(ids(self.unordered_buffer@)[p1.len() as int] == c);
                    } else {
                        assert(ids(p1).contains(c));
                        let j = choose|j: int| 0 <= j < ids(p1).len() && ids(p1)[j] == c;
                        assert(ids(self.unordered_buffer@)[j] == c);
                    }
                }
            }
            fetch
        }
    }

    /// Whether `cid` is among the ready segments.
    fn is_ordered(&self, cid: &Cid) -> (r: bool)
        ensures
            r == ids(self.ordered()).contains(cid@),
    {
        let mut i: usize = 0;
        while i < self.buffer.len()
            invariant
                i <= self.buffer@.len(),
                forall|j: int| 0 <= j < i ==> self.buffer@[j].0@ != cid@,
            decreases self.buffer@.len() - i,
        {
            if self.buffer[i].0.same(cid) {
                assert(ids(self.ordered())[i as int] == cid@);
                return true;
            }
            i = i + 1;
        }
        proof {
            if ids(self.ordered()).contains(cid@) {
                let j = choose|j: int| 0 <= j < ids(self.ordered()).len() && ids(self.ordered())[j] == cid@;
                assert(self.buffer@[j].0@ == cid@);
            }
        }
        false
    }

    /// The position among the waiting segments of the one that has `cid`
    /// (`by_previous` false) or that links to `cid` (`by_previous` true).
    fn find_pending(&self, cid: &Cid, by_previous: bool) -> (r: Option<usize>)
        ensures
            match r {
                Some(k) => k < self.pending().len() && (if by_previous {
                    link_view(self.pending()[k as int].1.previous) == Some(cid@)
                } else {
                    self.pending()[k as int].0@ == cid@
                }),
                None => forall|k: int| 0 <= k < self.pending().len() ==> (if by_previous {
                    link_view(self.pending()[k].1.previous) != Some(cid@)
                } else {
                    self.pending()[k].0@ != cid@
                }),
            },
    {
        let mut i: usize = 0;
        while i < self.unordered_buffer.len()
            invariant
                i <= self.unordered_buffer@.len(),
                forall|k: int| 0 <= k < i ==> (if by_previous {
                    link_view(self.unordered_buffer@[k].1.previous) != Some(cid@)
                } else {
                    self.unordered_buffer@[k].0@ != cid@
                }),
            decreases self.unordered_buffer@.len() - i,
        {
            let e = &self.unordered_buffer[i];
            let hit = if by_previous {
                match &e.1.previous {
                    Some(p) => p.same(cid),
                    None => false,
                }
            } else {
                e.0.same(cid)
            };
            if hit {
                return Some(i);
            }
            i = i + 1;
        }
        None
    }
}

/// The segments wait to be handed out as a predecessor chain: the first
/// links to the last one handed out, each next one links to the one before
/// it, and no identifier appears twice. Handing them out in order
/// (`pop_next`) therefore yields a chain without gaps or repeats.
pub proof fn lemma_ready_segments_chain(l: LiveStream)
    requires
        l.wf(),
    ensures
        l.ordered().len() > 0 ==> link_view(l.ordered()[0].1.previous) == l.previous_spec(),
        forall|i: int| 0 <= i < l.ordered().len() - 1 ==>
            link_view(#[trigger] l.ordered()[i + 1].1.previous) == Some(l.ordered()[i].0@),
        ids(l.ordered()).no_duplicates(),
{
}

} // verus!
