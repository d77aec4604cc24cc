//! What is counted over windows of a second.
use crate::frame_queue::since;
use crate::fx::{fx_drain, fx_get, fx_insert};
use crate::idmap::{distinct_ids, entries_map, lemma_entry, lemma_find_entry};
use rustc_hash::FxHashMap;
use vstd::prelude::*;

verus! {

/// The length of a window.
pub const WINDOW_NS: u64 = 1_000_000_000;

/// What presenting video frames took, in nanoseconds.
#[derive(Clone, Copy, Debug, PartialEq, Eq, Structural)]
pub struct EscProf {
    pub last_flush: u64,
    pub frames: u64,
    pub converts: u64,
    pub presents: u64,
    pub srv_creates: u64,
    pub acquires: u64,
    pub batch_swaps: u64,
    pub acquire_ns: u64,
    pub convert_ns: u64,
    pub present_ns: u64,
}

/// What one video frame added.
#[derive(Clone, Copy, Debug, PartialEq, Eq, Structural)]
pub struct PresentCost {
    pub converts: u64,
    pub presents: u64,
    pub srv_creates: u64,
    pub batch_swaps: u64,
    pub convert_ns: u64,
    pub present_ns: u64,
}

impl EscProf {
    pub open spec fn empty(now: u64) -> EscProf {
        EscProf {
            last_flush: now,
            frames: 0,
            converts: 0,
            presents: 0,
            srv_creates: 0,
            acquires: 0,
            batch_swaps: 0,
            acquire_ns: 0,
            convert_ns: 0,
            present_ns: 0,
        }
    }

    pub fn new(now: u64) -> (p: EscProf)
        ensures
            p == EscProf::empty(now),
    {
        EscProf {
            last_flush: now,
            frames: 0,
            converts: 0,
            presents: 0,
            srv_creates: 0,
            acquires: 0,
            batch_swaps: 0,
            acquire_ns: 0,
            convert_ns: 0,
            present_ns: 0,
        }
    }

    /// A frame was asked for.
    pub fn note_acquire(&mut self, ns: u64)
        ensures
            *final(self) == (EscProf {
                acquires: old(self).acquires.wrapping_add(1),
                acquire_ns: old(self).acquire_ns.wrapping_add(ns),
                ..*old(self)
            }),
    {
        self.acquires = self.acquires.wrapping_add(1);
        self.acquire_ns = self.acquire_ns.wrapping_add(ns);
    }

    /// A frame was converted and presented, as far as it came.
    pub fn note_present(&mut self, cost: PresentCost)
        ensures
            *final(self) == (EscProf {
                converts: old(self).converts.wrapping_add(cost.converts),
                presents: old(self).presents.wrapping_add(cost.presents),
                srv_creates: old(self).srv_creates.wrapping_add(cost.srv_creates),
                batch_swaps: old(self).batch_swaps.wrapping_add(cost.batch_swaps),
                convert_ns: old(self).convert_ns.wrapping_add(cost.convert_ns),
                present_ns: old(self).present_ns.wrapping_add(cost.present_ns),
                ..*old(self)
            }),
    {
        self.converts = self.converts.wrapping_add(cost.converts);
        self.presents = self.presents.wrapping_add(cost.presents);
        self.srv_creates = self.srv_creates.wrapping_add(cost.srv_creates);
        self.batch_swaps = self.batch_swaps.wrapping_add(cost.batch_swaps);
        self.convert_ns = self.convert_ns.wrapping_add(cost.convert_ns);
        self.present_ns = self.present_ns.wrapping_add(cost.present_ns);
    }

    /// The end of a frame.
    pub fn note_frame(&mut self)
        ensures
            *final(self) == (EscProf { frames: old(self).frames.wrapping_add(1), ..*old(self) }),
    {
        self.frames = self.frames.wrapping_add(1);
    }

    /// Hands the counts out once a second, and starts anew.
    pub fn maybe_flush(&mut self, now: u64) -> (r: Option<EscProf>)
        ensures
            since(now, old(self).last_flush) < WINDOW_NS ==> r is None && *final(self) == *old(
                self,
            ),
            since(now, old(self).last_flush) >= WINDOW_NS ==> r == Some(*old(self)) && *final(self)
                == EscProf::empty(now),
    {
        if now.saturating_sub(self.last_flush) < WINDOW_NS {
            return None;
        }
        let out = *self;
        *self = EscProf::new(now);
        Some(out)
    }
}

/// How often frames became ready, and the longest time between two of them.
#[derive(Clone, Copy, Debug, PartialEq, Eq, Structural)]
pub struct PresentCadence {
    pub start: Option<u64>,
    pub last: Option<u64>,
    pub count: u32,
    pub max_gap_ns: u64,
}

/// A window of frames.
#[derive(Clone, Copy, Debug, PartialEq, Eq, Structural)]
pub struct CadenceReport {
    pub window_ns: u64,
    pub count: u32,
    pub max_gap_ns: u64,
}

impl PresentCadence {
    pub fn new() -> (c: PresentCadence)
        ensures
            c == (PresentCadence { start: None, last: None, count: 0, max_gap_ns: 0 }),
    {
        PresentCadence { start: None, last: None, count: 0, max_gap_ns: 0 }
    }

    /// The longest gap, the one that ends now among them.
    pub open spec fn longest_gap(self, now: u64) -> u64 {
        match self.last {
            Some(last) => if since(now, last) > self.max_gap_ns {
                since(now, last)
            } else {
                self.max_gap_ns
            },
            None => self.max_gap_ns,
        }
    }

    pub open spec fn window_start(self, now: u64) -> u64 {
        match self.start {
            Some(t) => t,
            None => now,
        }
    }

    /// A frame became ready. Once a second the window is handed out; the moment of the last frame
    /// is kept, so that the gap between two windows counts.
    pub fn note_frame(&mut self, now: u64) -> (r: Option<CadenceReport>)
        ensures
            ({
                let elapsed = since(now, old(self).window_start(now));
                let count = old(self).count.wrapping_add(1);
                if elapsed < WINDOW_NS {
                    r is None && *final(self) == (PresentCadence {
                        start: Some(old(self).window_start(now)),
                        last: Some(now),
                        count,
                        max_gap_ns: old(self).longest_gap(now),
                    })
                } else {
                    r == Some(
                        CadenceReport {
                            window_ns: elapsed,
                            count,
                            max_gap_ns: old(self).longest_gap(now),
                        },
                    ) && *final(self) == (PresentCadence {
                        start: Some(now),
                        last: Some(now),
                        count: 0,
                        max_gap_ns: 0,
                    })
                }
            }),
    {
        if let Some(last) = self.last {
            let gap: u64 = now.saturating_sub(last);
            if gap > self.max_gap_ns {
                self.max_gap_ns = gap;
            }
        }
        self.last = Some(now);
        self.count = self.count.wrapping_add(1);
        let start: u64 = match self.start {
            Some(t) => t,
            None => now,
        };
        self.start = Some(start);
        let elapsed: u64 = now.saturating_sub(start);
        if elapsed < WINDOW_NS {
            return None;
        }
        let report = CadenceReport {
            window_ns: elapsed,
            count: self.count,
            max_gap_ns: self.max_gap_ns,
        };
        self.start = Some(now);
        self.count = 0;
        self.max_gap_ns = 0;
        Some(report)
    }
}

/// A render pass that starts later than this after the last one ended was held up on its way.
pub const RENDER_GAP_NS: u64 = 100_000_000;

/// A render pass that takes longer than this misses its frame.
pub const SLOW_RENDER_NS: u64 = 16_000_000;

/// When the last render pass ended. Nothing is watched where watching is switched off.
#[derive(Clone, Copy, Debug, PartialEq, Eq, Structural)]
pub struct RenderCadence {
    pub enabled: bool,
    pub last_end: Option<u64>,
}

impl RenderCadence {
    pub fn new(enabled: bool) -> (c: RenderCadence)
        ensures
            c == (RenderCadence { enabled, last_end: None }),
    {
        RenderCadence { enabled, last_end: None }
    }

    /// A render pass starts: the time since the last one ended, where that is too long.
    pub fn gap(&self, now: u64) -> (r: Option<u64>)
        ensures
            r == (match self.last_end {
                Some(end) if self.enabled && since(now, end) > RENDER_GAP_NS => Some(
                    since(now, end),
                ),
                _ => None,
            }),
    {
        if !self.enabled {
            return None;
        }
        let end: u64 = match self.last_end {
            Some(end) => end,
            None => {
                return None;
            },
        };
        let gap: u64 = now.saturating_sub(end);
        if gap > RENDER_GAP_NS {
            Some(gap)
        } else {
            None
        }
    }

    /// A render pass that took this long ends now. The answer says whether it was too slow.
    pub fn note_end(&mut self, render_ns: u64, now: u64) -> (slow: bool)
        ensures
            slow == (old(self).enabled && render_ns > SLOW_RENDER_NS),
            *final(self) == (if old(self).enabled {
                RenderCadence { last_end: Some(now), ..*old(self) }
            } else {
                *old(self)
            }),
    {
        if self.enabled {
            self.last_end = Some(now);
        }
        self.enabled && render_ns > SLOW_RENDER_NS
    }
}

/// How often frames were asked for, by the place that asks and its reason, which the host numbers
/// together.
#[derive(Debug)]
pub struct FrameReasonTally {
    pub window_start: Option<u64>,
    pub counts: FxHashMap<u64, u64>,
}

/// A window of requests, the most frequent first.
#[derive(Debug)]
pub struct FrameReasonReport {
    pub window_ns: u64,
    pub total: u64,
    pub counts: Vec<(u64, u64)>,
}

/// No count is less than one after it.
pub open spec fn most_first(s: Seq<(u64, u64)>) -> bool {
    forall|i: int, j: int| 0 <= i < j < s.len() ==> (#[trigger] s[i]).1 >= (#[trigger] s[j]).1
}

/// The sum of the counts.
pub open spec fn total_of(s: Seq<(u64, u64)>) -> u64
    decreases s.len(),
{
    if s.len() == 0 {
        0
    } else {
        total_of(s.drop_last()).wrapping_add(s.last().1)
    }
}

/// Putting an entry with a new id in at any place is an insertion.
proof fn lemma_insert_entry(s: Seq<(u64, u64)>, at: int, k: u64, v: u64)
    requires
        distinct_ids(s),
        0 <= at <= s.len(),
        forall|i: int| 0 <= i < s.len() ==> (#[trigger] s[i]).0 != k,
    ensures
        distinct_ids(s.insert(at, (k, v))),
        entries_map(s.insert(at, (k, v))) == entries_map(s).insert(k, v),
{
    let after = s.insert(at, (k, v));
    assert forall|i: int, j: int| 0 <= i < j < after.len() implies (#[trigger] after[i]).0 != (
    #[trigger] after[j]).0 by {
        let a = if i < at {
            i
        } else {
            i - 1
        };
        let b = if j < at {
            j
        } else {
            j - 1
        };
        if i != at && j != at {
            assert(s[a].0 != s[b].0);
        }
    }
    let want = entries_map(s).insert(k, v);
    assert forall|q: u64| entries_map(after).contains_key(q) <==> want.contains_key(q) by {
        if entries_map(after).contains_key(q) {
            let j = lemma_find_entry(after, q);
            if j < at {
                lemma_entry(s, j);
            } else if j > at {
                lemma_entry(s, j - 1);
            }
        }
        if want.contains_key(q) {
            if q == k {
                assert(after[at].0 == q);
            } else {
                let j = lemma_find_entry(s, q);
                if j < at {
                    assert(after[j].0 == q);
                } else {
                    assert(after[j + 1].0 == q);
                }
            }
        }
    }
    assert forall|q: u64| entries_map(after).contains_key(q) implies entries_map(after)[q]
        == want[q] by {
        let j = lemma_find_entry(after, q);
        if j < at {
            lemma_entry(s, j);
        } else if j > at {
            lemma_entry(s, j - 1);
        }
    }
    assert(entries_map(after) =~= want);
}

/// The entries with the greatest counts first.
fn sorted_counts(entries: &Vec<(u64, u64)>) -> (out: Vec<(u64, u64)>)
    requires
        distinct_ids(entries@),
    ensures
        distinct_ids(out@),
        most_first(out@),
        out@.len() == entries@.len(),
        entries_map(out@) == entries_map(entries@),
{
    let mut out: Vec<(u64, u64)> = Vec::new();
    let mut i: usize = 0;
    assert(entries@.take(0) =~= out@);
    while i < entries.len()
        invariant
            i <= entries@.len(),
            distinct_ids(entries@),
            distinct_ids(out@),
            most_first(out@),
            out@.len() == i,
            entries_map(out@) == entries_map(entries@.take(i as int)),
        decreases entries@.len() - i,
    {
        let x: (u64, u64) = entries[i];
        let mut at: usize = 0;
        while at < out.len() && out[at].1 >= x.1
            invariant
                at <= out@.len(),
                forall|k: int| 0 <= k < at ==> (#[trigger] out@[k]).1 >= x.1,
            decreases out@.len() - at,
        {
            at = at + 1;
        }
        let ghost before = out@;
        let ghost head = entries@.take(i as int);
        proof {
            assert forall|k: int| 0 <= k < before.len() implies (#[trigger] before[k]).0 != x.0 by {
                lemma_entry(before, k);
                let j = lemma_find_entry(head, before[k].0);
                assert(head[j] == entries@[j]);
                assert(entries@[j].0 != entries@[i as int].0);
            }
            assert forall|k: int| 0 <= k < head.len() implies (#[trigger] head[k]).0 != x.0 by {
                assert(entries@[k].0 != entries@[i as int].0);
            }
            lemma_insert_entry(before, at as int, x.0, x.1);
            lemma_insert_entry(head, head.len() as int, x.0, x.1);
            assert(entries@.take(i + 1) =~= head.insert(head.len() as int, (x.0, x.1)));
        }
        out.insert(at, x);
        proof {
            assert(out@ =~= before.insert(at as int, (x.0, x.1)));
            assert forall|a: int, b: int| 0 <= a < b < out@.len() implies (#[trigger] out@[a]).1
                >= (#[trigger] out@[b]).1 by {
                let c = if a < at {
                    a
                } else {
                    a - 1
                };
                let d = if b < at {
                    b
                } else {
                    b - 1
                };
                if a == at {
                    if at < before.len() {
                        assert(before[at as int].1 < x.1);
                        assert(d == at || before[at as int].1 >= before[d].1);
                    }
                } else if b == at {
                    assert(before[a].1 >= x.1);
                } else {
                    assert(before[c].1 >= before[d].1);
                }
            }
        }
        i = i + 1;
    }
    assert(entries@.take(i as int) =~= entries@);
    out
}

impl FrameReasonTally {
    pub fn new() -> (t: FrameReasonTally)
        ensures
            t.counts@ == Map::<u64, u64>::empty(),
            t.window_start is None,
    {
        FrameReasonTally { window_start: None, counts: FxHashMap::default() }
    }

    /// The counts with one more request.
    pub open spec fn counted(self, place: u64) -> Map<u64, u64> {
        let before = if self.counts@.contains_key(place) {
            self.counts@[place]
        } else {
            0
        };
        self.counts@.insert(place, before.wrapping_add(1))
    }

    /// A frame is asked for. Once a second the counts are handed out.
    pub fn note(&mut self, place: u64, now: u64) -> (r: Option<FrameReasonReport>)
        ensures
            ({
                let start = match old(self).window_start {
                    Some(t) => t,
                    None => now,
                };
                let elapsed = since(now, start);
                match r {
                    None => elapsed < WINDOW_NS && final(self).window_start == Some(start)
                        && final(self).counts@ == old(self).counted(place),
                    Some(report) => {
                        &&& elapsed >= WINDOW_NS
                        &&& report.window_ns == elapsed
                        &&& distinct_ids(report.counts@)
                        &&& most_first(report.counts@)
                        &&& entries_map(report.counts@) == old(self).counted(place)
                        &&& report.total == total_of(report.counts@)
                        &&& final(self).window_start == Some(now)
                        &&& final(self).counts@ == Map::<u64, u64>::empty()
                    },
                }
            }),
    {
        let start: u64 = match self.window_start {
            Some(t) => t,
            None => now,
        };
        self.window_start = Some(start);
        let before: u64 = match fx_get(&self.counts, place) {
            Some(n) => *n,
            None => 0,
        };
        let _ = fx_insert(&mut self.counts, place, before.wrapping_add(1));
        let elapsed: u64 = now.saturating_sub(start);
        if elapsed < WINDOW_NS {
            return None;
        }
        let drained = fx_drain(&mut self.counts);
        let counts = sorted_counts(&drained);
        let mut total: u64 = 0;
        let mut i: usize = 0;
        assert(counts@.take(0) =~= Seq::<(u64, u64)>::empty());
        while i < counts.len()
            invariant
                i <= counts@.len(),
                total == total_of(counts@.take(i as int)),
            decreases counts@.len() - i,
        {
            proof {
                assert(counts@.take(i + 1).drop_last() =~= counts@.take(i as int));
            }
            total = total.wrapping_add(counts[i].1);
            i = i + 1;
        }
        assert(counts@.take(i as int) =~= counts@);
        self.window_start = Some(now);
        Some(FrameReasonReport { window_ns: elapsed, total, counts })
    }
}

} // verus!
