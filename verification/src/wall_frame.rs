//! The barrier that holds the tiles of a wall together.
//!
//! One logical frame of a wall is drawn by several painters. The coordinator keeps a barrier for
//! each such frame: the frame is presented by all of its painters at once when the last one is
//! ready in time. Where the deadline passes first, the painters that are ready are presented and
//! the others keep showing what they showed before.
use crate::idmap::{contains_id, copy_ids};
use crate::seqs::{lemma_push_distinct, lemma_push_has, lemma_take_has};
use crate::table::{table_get_mut, table_ids, table_retain};
use std::collections::HashMap;
use vstd::prelude::*;

verus! {

broadcast use vstd::std_specs::hash::group_hash_axioms;

/// How long a barrier waits for the other painters once the first one is ready, in nanoseconds.
pub const WALL_FRAME_BARRIER_DEADLINE_NS: u64 = 16_000_000;

/// How long a barrier that was decided stays, so that late painters still find it.
pub const WALL_FRAME_BARRIER_RETENTION_NS: u64 = 2_000_000_000;

/// After the first three, every this many-th report of a recurring event is made.
pub const WALL_FRAME_PACING_INFO_INTERVAL: u64 = 120;

/// Whether the report with this running number is made.
pub open spec fn reported(total: u64) -> bool {
    total <= 3 || total % WALL_FRAME_PACING_INFO_INTERVAL == 0
}

/// Whether the report with this running number is made: the first three, then every hundred and
/// twentieth.
pub fn is_reported(total: u64) -> (b: bool)
    ensures
        b == reported(total),
{
    total <= 3 || total % WALL_FRAME_PACING_INFO_INTERVAL == 0
}

/// A painter is to show its previous frame in place of this logical frame.
#[derive(Clone, Copy, Debug, PartialEq, Eq, Structural)]
pub struct KeepPreviousFrame {
    pub logical_frame_id: u64,
    /// The instruction comes from an injected delay and is spent by the first query.
    pub remove_after_skip_query: bool,
}

/// A delay injected for fault testing: from a given frame on, for some frames, one painter's
/// readiness is withheld from the barrier.
#[derive(Clone, Copy, Debug, PartialEq, Eq, Structural)]
pub struct WallFrameDelayInjection {
    pub target_index: usize,
    pub after_logical_frame_id: u64,
    pub remaining_frames: u64,
}

/// What a painter reports when its renderer has a frame ready.
#[derive(Clone, Copy, Debug, PartialEq, Eq, Structural)]
pub struct FrameReadyDiagnostic {
    pub painter_id: u64,
    pub local_frame_id: u64,
    pub wall_logical_frame_id: Option<u64>,
    pub ready_at: u64,
    /// From the request to the readiness, in nanoseconds.
    pub wait_ns: u64,
    pub need_repaint: bool,
}

/// What is decided for one painter: whether it repaints.
#[derive(Clone, Copy, Debug, PartialEq, Eq, Structural)]
pub struct WallFrameRepaintDecision {
    pub painter_id: u64,
    pub repaint_needed: bool,
}

/// The barrier of one logical frame.
#[derive(Debug)]
pub struct WallFrameBarrier {
    pub webview_ids: Vec<u64>,
    pub expected_painter_ids: Vec<u64>,
    pub ready_painter_ids: Vec<u64>,
    pub requested_at: u64,
    pub first_ready_at: Option<u64>,
    pub completed_at: Option<u64>,
    pub missed_deadline: bool,
    pub presentation_decision_made: bool,
    pub need_repaint: bool,
    pub injected_delayed_painter_id: Option<u64>,
    pub injected_ready_suppressed: bool,
}

/// A barrier as a value.
#[verifier::ext_equal]
pub struct BarrierView {
    pub webview_ids: Seq<u64>,
    pub expected: Seq<u64>,
    pub ready: Seq<u64>,
    pub requested_at: u64,
    pub first_ready_at: Option<u64>,
    pub completed_at: Option<u64>,
    pub missed: bool,
    pub decided: bool,
    pub need_repaint: bool,
    pub injected: Option<u64>,
    pub suppressed: bool,
}

/// What changes for the painters and the web views after a step of the coordinator.
#[derive(Debug)]
pub struct WallFrameCoordinatorUpdate {
    pub repaint_decisions: Vec<WallFrameRepaintDecision>,
    pub released_webview_ids: Vec<u64>,
}

/// An update as a value.
#[verifier::ext_equal]
pub struct UpdateView {
    pub decisions: Seq<WallFrameRepaintDecision>,
    pub released: Seq<u64>,
}

/// The barriers of the frames under way.
#[derive(Debug)]
pub struct WallFrameCoordinator {
    pub barriers: HashMap<u64, WallFrameBarrier>,
    /// The frame that each web view waits for.
    pub active_webview_frames: HashMap<u64, u64>,
    pub keep_previous_painters: HashMap<u64, KeepPreviousFrame>,
    pub delay_injection: Option<WallFrameDelayInjection>,
    pub keep_previous_expired_count: u64,
}

/// The coordinator as a value.
#[verifier::ext_equal]
pub struct CoordinatorView {
    pub barriers: Map<u64, BarrierView>,
    pub active: Map<u64, u64>,
    pub keep: Map<u64, KeepPreviousFrame>,
    pub injection: Option<WallFrameDelayInjection>,
    pub expired_count: u64,
}

impl View for WallFrameBarrier {
    type V = BarrierView;

    open spec fn view(&self) -> BarrierView {
        BarrierView {
            webview_ids: self.webview_ids@,
            expected: self.expected_painter_ids@,
            ready: self.ready_painter_ids@,
            requested_at: self.requested_at,
            first_ready_at: self.first_ready_at,
            completed_at: self.completed_at,
            missed: self.missed_deadline,
            decided: self.presentation_decision_made,
            need_repaint: self.need_repaint,
            injected: self.injected_delayed_painter_id,
            suppressed: self.injected_ready_suppressed,
        }
    }
}

impl View for WallFrameCoordinatorUpdate {
    type V = UpdateView;

    open spec fn view(&self) -> UpdateView {
        UpdateView { decisions: self.repaint_decisions@, released: self.released_webview_ids@ }
    }
}

/// The barriers of a table as values.
pub open spec fn barrier_views(m: Map<u64, WallFrameBarrier>) -> Map<u64, BarrierView> {
    Map::new(|k: u64| m.contains_key(k), |k: u64| m[k]@)
}

impl View for WallFrameCoordinator {
    type V = CoordinatorView;

    open spec fn view(&self) -> CoordinatorView {
        CoordinatorView {
            barriers: barrier_views(self.barriers@),
            active: self.active_webview_frames@,
            keep: self.keep_previous_painters@,
            injection: self.delay_injection,
            expired_count: self.keep_previous_expired_count,
        }
    }
}

/// `a` followed by those values of `b` that are not yet there.
pub open spec fn append_new(a: Seq<u64>, b: Seq<u64>) -> Seq<u64>
    decreases b.len(),
{
    if b.len() == 0 {
        a
    } else {
        let rest = append_new(a, b.drop_last());
        if rest.contains(b.last()) {
            rest
        } else {
            rest.push(b.last())
        }
    }
}

/// The decision for each of the painters.
pub open spec fn decisions_for(ids: Seq<u64>, repaint: bool) -> Seq<WallFrameRepaintDecision> {
    Seq::new(
        ids.len(),
        |i: int| WallFrameRepaintDecision { painter_id: ids[i], repaint_needed: repaint },
    )
}

impl UpdateView {
    pub open spec fn empty() -> UpdateView {
        UpdateView { decisions: Seq::empty(), released: Seq::empty() }
    }

    pub open spec fn extended(self, other: UpdateView) -> UpdateView {
        UpdateView {
            decisions: self.decisions + other.decisions,
            released: append_new(self.released, other.released),
        }
    }
}

impl BarrierView {
    /// A barrier that nothing has reached yet.
    pub open spec fn fresh(
        webview_ids: Seq<u64>,
        expected: Seq<u64>,
        requested_at: u64,
        injected: Option<u64>,
    ) -> BarrierView {
        BarrierView {
            webview_ids,
            expected,
            ready: Seq::empty(),
            requested_at,
            first_ready_at: None,
            completed_at: None,
            missed: false,
            decided: false,
            need_repaint: false,
            injected,
            suppressed: false,
        }
    }

    /// The painters that the barrier still waits for.
    pub open spec fn missing(self) -> Seq<u64> {
        self.expected.filter(|p: u64| !self.ready.contains(p))
    }

    /// The deadline, which runs from the first readiness, has passed.
    pub open spec fn late(self, now: u64) -> bool {
        match self.first_ready_at {
            Some(first) => now >= first + WALL_FRAME_BARRIER_DEADLINE_NS,
            None => false,
        }
    }

    /// A sweep at this moment finds the barrier undecided past its deadline.
    pub open spec fn expired(self, now: u64) -> bool {
        !self.decided && self.late(now)
    }

    /// A sweep at this moment leaves the barrier in the table.
    pub open spec fn retained(self, now: u64) -> bool {
        match self.completed_at {
            Some(at) => now <= at + WALL_FRAME_BARRIER_RETENTION_NS,
            None => !self.missed || (match self.first_ready_at {
                Some(first) => now <= first + WALL_FRAME_BARRIER_RETENTION_NS,
                None => false,
            }),
        }
    }

    pub open spec fn all_ready(self) -> bool {
        self.ready.len() == self.expected.len()
    }

    /// The barrier once a painter's readiness is recorded.
    pub open spec fn with_ready(self, d: FrameReadyDiagnostic) -> BarrierView {
        let ready = if self.ready.contains(d.painter_id) {
            self.ready
        } else {
            self.ready.push(d.painter_id)
        };
        BarrierView {
            ready,
            need_repaint: self.need_repaint || d.need_repaint,
            first_ready_at: (match self.first_ready_at {
                Some(first) => Some(first),
                None => Some(d.ready_at),
            }),
            completed_at: if ready.len() == self.expected.len() {
                Some(d.ready_at)
            } else {
                self.completed_at
            },
            ..self
        }
    }

    /// No painter is expected or ready twice, and none is ready that is not expected.
    pub open spec fn wf(self) -> bool {
        &&& self.expected.no_duplicates()
        &&& self.ready.no_duplicates()
        &&& forall|p: u64| #[trigger] self.ready.contains(p) ==> self.expected.contains(p)
    }
}

/// The web views among `ids` that wait for the frame stop waiting; those are handed out, in order.
pub open spec fn release(active: Map<u64, u64>, ids: Seq<u64>, frame: u64) -> (
    Map<u64, u64>,
    Seq<u64>,
)
    decreases ids.len(),
{
    if ids.len() == 0 {
        (active, Seq::empty())
    } else {
        let (rest, out) = release(active, ids.drop_last(), frame);
        let id = ids.last();
        if rest.contains_key(id) && rest[id] == frame {
            (rest.remove(id), out.push(id))
        } else {
            (rest, out)
        }
    }
}

/// The frame that an injected delay holds back a painter for, and the injection after that.
pub open spec fn injection_step(
    injection: WallFrameDelayInjection,
    frame: u64,
    expected: Seq<u64>,
) -> (WallFrameDelayInjection, Option<u64>) {
    if injection.remaining_frames == 0 || frame < injection.after_logical_frame_id {
        (injection, None)
    } else if injection.target_index < expected.len() {
        (
            WallFrameDelayInjection {
                remaining_frames: (injection.remaining_frames - 1) as u64,
                ..injection
            },
            Some(expected[injection.target_index as int]),
        )
    } else {
        (WallFrameDelayInjection { remaining_frames: 0, ..injection }, None)
    }
}

impl CoordinatorView {
    pub open spec fn with_barrier(self, frame: u64, barrier: BarrierView) -> CoordinatorView {
        CoordinatorView { barriers: self.barriers.insert(frame, barrier), ..self }
    }

    /// A frame of several painters is requested.
    pub open spec fn registered(
        self,
        frame: u64,
        webview_ids: Seq<u64>,
        expected: Seq<u64>,
        requested_at: u64,
    ) -> CoordinatorView {
        if expected.len() <= 1 {
            self
        } else {
            let (injection, injected) = match self.injection {
                Some(i) => {
                    let (next, target) = injection_step(i, frame, expected);
                    (Some(next), target)
                },
                None => (None, None),
            };
            CoordinatorView {
                barriers: self.barriers.insert(
                    frame,
                    BarrierView::fresh(webview_ids, expected, requested_at, injected),
                ),
                active: Map::new(
                    |w: u64| self.active.contains_key(w) || webview_ids.contains(w),
                    |w: u64|
                        if webview_ids.contains(w) {
                            frame
                        } else {
                            self.active[w]
                        },
                ),
                injection,
                ..self
            }
        }
    }

    pub open spec fn without_webview(self, webview_id: u64) -> CoordinatorView {
        CoordinatorView {
            barriers: self.barriers.restrict(
                Set::new(|f: u64| !self.barriers[f].webview_ids.contains(webview_id)),
            ),
            active: self.active.remove(webview_id),
            ..self
        }
    }

    /// The deadline of a frame passes: what is ready is presented, the others keep what they show.
    pub open spec fn missed(self, frame: u64) -> (CoordinatorView, UpdateView) {
        if !self.barriers.contains_key(frame) || self.barriers[frame].decided {
            (self, UpdateView::empty())
        } else {
            let b = self.barriers[frame];
            let (active, released) = release(self.active, b.webview_ids, frame);
            (
                CoordinatorView {
                    barriers: self.barriers.insert(
                        frame,
                        (BarrierView { missed: true, decided: true, ..b }),
                    ),
                    active,
                    keep: Map::new(
                        |p: u64|
                            b.missing().contains(p) || (self.keep.contains_key(p)
                                && !b.ready.contains(p)),
                        |p: u64|
                            if b.missing().contains(p) {
                                KeepPreviousFrame {
                                    logical_frame_id: frame,
                                    remove_after_skip_query: b.injected == Some(p),
                                }
                            } else {
                                self.keep[p]
                            },
                    ),
                    ..self
                },
                UpdateView { decisions: decisions_for(b.ready, b.need_repaint), released },
            )
        }
    }

    /// All painters of a frame are ready in time: all present it.
    pub open spec fn completed(self, frame: u64, ready_at: u64) -> (CoordinatorView, UpdateView) {
        if !self.barriers.contains_key(frame) || self.barriers[frame].decided {
            (self, UpdateView::empty())
        } else {
            let b = self.barriers[frame];
            let (active, released) = release(self.active, b.webview_ids, frame);
            (
                CoordinatorView {
                    barriers: self.barriers.insert(
                        frame,
                        (BarrierView { decided: true, completed_at: Some(ready_at), ..b }),
                    ),
                    active,
                    keep: self.keep.restrict(
                        Set::new(
                            |p: u64|
                                !b.expected.contains(p) || self.keep[p].remove_after_skip_query,
                        ),
                    ),
                    ..self
                },
                UpdateView { decisions: decisions_for(b.expected, b.need_repaint), released },
            )
        }
    }

    /// A painter is ready with its part of a frame.
    pub open spec fn noted(self, d: FrameReadyDiagnostic) -> (CoordinatorView, Option<UpdateView>) {
        match d.wall_logical_frame_id {
            None => (self, None),
            Some(frame) => if !self.barriers.contains_key(frame) {
                (self, None)
            } else {
                let (s, u) = if self.barriers[frame].expired(d.ready_at) {
                    self.missed(frame)
                } else {
                    (self, UpdateView::empty())
                };
                let b = s.barriers[frame];
                if !b.expected.contains(d.painter_id) {
                    (s, Some(u))
                } else if b.injected == Some(d.painter_id) && !b.suppressed {
                    (s.with_barrier(frame, (BarrierView { suppressed: true, ..b })), Some(u))
                } else {
                    let with = s.with_barrier(frame, b.with_ready(d));
                    if b.with_ready(d).all_ready() && !b.missed && !b.decided {
                        let (done, more) = with.completed(frame, d.ready_at);
                        (done, Some(u.extended(more)))
                    } else {
                        (with, Some(u))
                    }
                }
            },
        }
    }

    /// The deadlines of several frames pass, one after the other.
    pub open spec fn missed_all(self, frames: Seq<u64>) -> (CoordinatorView, UpdateView)
        decreases frames.len(),
    {
        if frames.len() == 0 {
            (self, UpdateView::empty())
        } else {
            let (s, u) = self.missed_all(frames.drop_last());
            let (done, more) = s.missed(frames.last());
            (done, u.extended(more))
        }
    }

    /// The frames are those that a sweep at this moment decides, in some order.
    pub open spec fn sweeps(self, frames: Seq<u64>, now: u64) -> bool {
        &&& frames.no_duplicates()
        &&& forall|f: u64| #[trigger]
            frames.contains(f) <==> self.barriers.contains_key(f) && self.barriers[f].expired(now)
    }

    /// The barriers that are no longer needed leave the table.
    pub open spec fn pruned(self, now: u64) -> CoordinatorView {
        CoordinatorView {
            barriers: self.barriers.restrict(Set::new(|f: u64| self.barriers[f].retained(now))),
            ..self
        }
    }

    /// A painter keeps a previous frame for a frame that is older than this one.
    pub open spec fn stale_keep(self, painter: u64, frame: u64) -> bool {
        self.keep.contains_key(painter) && !self.keep[painter].remove_after_skip_query
            && self.keep[painter].logical_frame_id < frame
    }

    /// The instructions that a newer frame makes moot are dropped, and counted.
    pub open spec fn expired_before(self, frame: u64, painters: Seq<u64>) -> CoordinatorView
        decreases painters.len(),
    {
        if painters.len() == 0 {
            self
        } else {
            let s = self.expired_before(frame, painters.drop_last());
            if s.stale_keep(painters.last(), frame) {
                CoordinatorView {
                    keep: s.keep.remove(painters.last()),
                    expired_count: s.expired_count.wrapping_add(1),
                    ..s
                }
            } else {
                s
            }
        }
    }

    /// The frame that a painter is to skip; asking spends an injected instruction.
    pub open spec fn queried(self, painter: u64) -> (CoordinatorView, Option<u64>) {
        if !self.keep.contains_key(painter) {
            (self, None)
        } else {
            let k = self.keep[painter];
            (
                if k.remove_after_skip_query {
                    CoordinatorView { keep: self.keep.remove(painter), ..self }
                } else {
                    self
                },
                Some(k.logical_frame_id),
            )
        }
    }
}

impl WallFrameDelayInjection {
    /// The settings of an injected delay: none without a valid target, and none for no frames. A
    /// setting that is absent or negative falls back to one.
    pub fn from_environment(
        target_index: Option<i64>,
        after: Option<i64>,
        count: Option<i64>,
    ) -> (r: Option<WallFrameDelayInjection>)
        ensures
            match r {
                Some(injection) => target_index == Some(injection.target_index as i64)
                    && injection.target_index <= i64::MAX
                    && injection.after_logical_frame_id == non_negative_or_one(after)
                    && injection.remaining_frames == non_negative_or_one(count)
                    && injection.remaining_frames > 0,
                None => target_index is None || target_index->0 < 0 || target_index->0 > usize::MAX
                    || non_negative_or_one(count) == 0,
            },
    {
        let target: usize = match target_index {
            Some(raw) => {
                if raw < 0 || raw as u64 > usize::MAX as u64 {
                    return None;
                }
                raw as usize
            },
            None => {
                return None;
            },
        };
        let after_logical_frame_id: u64 = match after {
            Some(raw) if raw >= 0 => raw as u64,
            _ => 1,
        };
        let remaining_frames: u64 = match count {
            Some(raw) if raw >= 0 => raw as u64,
            _ => 1,
        };
        if remaining_frames == 0 {
            return None;
        }
        Some(
            WallFrameDelayInjection {
                target_index: target,
                after_logical_frame_id,
                remaining_frames,
            },
        )
    }

    /// The painter that is held back for this frame. An injection whose target is not among the
    /// expected painters is switched off.
    pub fn target_for_frame(&mut self, logical_frame_id: u64, expected: &[u64]) -> (r: Option<u64>)
        ensures
            (*final(self), r) == injection_step(*old(self), logical_frame_id, expected@),
    {
        if self.remaining_frames == 0 || logical_frame_id < self.after_logical_frame_id {
            return None;
        }
        if self.target_index < expected.len() {
            self.remaining_frames = self.remaining_frames - 1;
            Some(expected[self.target_index])
        } else {
            self.remaining_frames = 0;
            None
        }
    }
}

/// A setting that must not be negative; one where it is absent or negative.
pub open spec fn non_negative_or_one(raw: Option<i64>) -> u64 {
    match raw {
        Some(v) => if v >= 0 {
            v as u64
        } else {
            1
        },
        None => 1,
    }
}

impl WallFrameCoordinatorUpdate {
    pub fn new() -> (u: WallFrameCoordinatorUpdate)
        ensures
            u@ == UpdateView::empty(),
    {
        WallFrameCoordinatorUpdate {
            repaint_decisions: Vec::new(),
            released_webview_ids: Vec::new(),
        }
    }

    /// Adds another update to this one. A web view is released once.
    pub fn extend(&mut self, other: WallFrameCoordinatorUpdate)
        ensures
            final(self)@ == old(self)@.extended(other@),
    {
        let mut i: usize = 0;
        while i < other.repaint_decisions.len()
            invariant
                i <= other.repaint_decisions@.len(),
                self.released_webview_ids@ == old(self).released_webview_ids@,
                self.repaint_decisions@ == old(self).repaint_decisions@
                    + other.repaint_decisions@.take(i as int),
            decreases other.repaint_decisions@.len() - i,
        {
            self.repaint_decisions.push(other.repaint_decisions[i]);
            i = i + 1;
        }
        assert(other.repaint_decisions@.take(i as int) =~= other.repaint_decisions@);
        let mut j: usize = 0;
        assert(other.released_webview_ids@.take(0) =~= Seq::<u64>::empty());
        while j < other.released_webview_ids.len()
            invariant
                j <= other.released_webview_ids@.len(),
                self.repaint_decisions@ == old(self).repaint_decisions@ + other.repaint_decisions@,
                self.released_webview_ids@ == append_new(
                    old(self).released_webview_ids@,
                    other.released_webview_ids@.take(j as int),
                ),
            decreases other.released_webview_ids@.len() - j,
        {
            let id: u64 = other.released_webview_ids[j];
            proof {
                let next = other.released_webview_ids@.take(j + 1);
                assert(next.drop_last() =~= other.released_webview_ids@.take(j as int));
                assert(next.last() == id);
            }
            if !contains_id(&self.released_webview_ids, id) {
                self.released_webview_ids.push(id);
            }
            j = j + 1;
        }
        assert(other.released_webview_ids@.take(j as int) =~= other.released_webview_ids@);
    }
}

impl WallFrameBarrier {
    pub fn new(
        webview_ids: Vec<u64>,
        expected_painter_ids: Vec<u64>,
        requested_at: u64,
        injected_delayed_painter_id: Option<u64>,
    ) -> (b: WallFrameBarrier)
        ensures
            b@ == BarrierView::fresh(
                webview_ids@,
                expected_painter_ids@,
                requested_at,
                injected_delayed_painter_id,
            ),
    {
        WallFrameBarrier {
            webview_ids,
            expected_painter_ids,
            ready_painter_ids: Vec::new(),
            requested_at,
            first_ready_at: None,
            completed_at: None,
            missed_deadline: false,
            presentation_decision_made: false,
            need_repaint: false,
            injected_delayed_painter_id,
            injected_ready_suppressed: false,
        }
    }

    /// The expected painters that are not ready, in the order in which they are expected.
    pub fn missing_painter_ids(&self) -> (out: Vec<u64>)
        ensures
            out@ == self@.missing(),
    {
        let mut out: Vec<u64> = Vec::new();
        let ghost keep = |p: u64| !self@.ready.contains(p);
        let mut i: usize = 0;
        proof {
            reveal(Seq::filter);
            assert(self.expected_painter_ids@.take(0) =~= Seq::<u64>::empty());
        }
        while i < self.expected_painter_ids.len()
            invariant
                i <= self.expected_painter_ids@.len(),
                keep == (|p: u64| !self@.ready.contains(p)),
                out@ == self.expected_painter_ids@.take(i as int).filter(keep),
            decreases self.expected_painter_ids@.len() - i,
        {
            let id: u64 = self.expected_painter_ids[i];
            proof {
                reveal(Seq::filter);
                assert(self.expected_painter_ids@.take(i + 1).drop_last()
                    =~= self.expected_painter_ids@.take(i as int));
            }
            if !contains_id(&self.ready_painter_ids, id) {
                out.push(id);
            }
            i = i + 1;
        }
        assert(self.expected_painter_ids@.take(i as int) =~= self.expected_painter_ids@);
        out
    }

    /// Whether the deadline has passed. It runs from the first readiness; without one there is
    /// none.
    pub fn missed_deadline_at(&self, now: u64) -> (b: bool)
        ensures
            b == self@.late(now),
    {
        match self.first_ready_at {
            Some(first) => now >= first && now - first >= WALL_FRAME_BARRIER_DEADLINE_NS,
            None => false,
        }
    }

    /// Whether a sweep at this moment leaves the barrier in the table.
    pub fn retained_at(&self, now: u64) -> (b: bool)
        ensures
            b == self@.retained(now),
    {
        if let Some(at) = self.completed_at {
            return now.saturating_sub(at) <= WALL_FRAME_BARRIER_RETENTION_NS;
        }
        if self.missed_deadline {
            return match self.first_ready_at {
                Some(first) => now.saturating_sub(first) <= WALL_FRAME_BARRIER_RETENTION_NS,
                None => false,
            };
        }
        true
    }

    /// Records a painter's readiness.
    pub fn record_ready(&mut self, d: &FrameReadyDiagnostic)
        ensures
            final(self)@ == old(self)@.with_ready(*d),
    {
        if !contains_id(&self.ready_painter_ids, d.painter_id) {
            self.ready_painter_ids.push(d.painter_id);
        }
        self.need_repaint = self.need_repaint || d.need_repaint;
        if self.first_ready_at.is_none() {
            self.first_ready_at = Some(d.ready_at);
        }
        if self.ready_painter_ids.len() == self.expected_painter_ids.len() {
            self.completed_at = Some(d.ready_at);
        }
    }
}

/// The decision for each of the painters, in order.
fn decide_all(ids: &[u64], repaint_needed: bool) -> (out: Vec<WallFrameRepaintDecision>)
    ensures
        out@ == decisions_for(ids@, repaint_needed),
{
    let mut out: Vec<WallFrameRepaintDecision> = Vec::new();
    let mut i: usize = 0;
    while i < ids.len()
        invariant
            i <= ids@.len(),
            out@ == decisions_for(ids@, repaint_needed).take(i as int),
        decreases ids@.len() - i,
    {
        out.push(WallFrameRepaintDecision { painter_id: ids[i], repaint_needed });
        i = i + 1;
        assert(out@ =~= decisions_for(ids@, repaint_needed).take(i as int));
    }
    assert(decisions_for(ids@, repaint_needed).take(i as int) =~= decisions_for(
        ids@,
        repaint_needed,
    ));
    out
}

/// Putting a barrier in the table puts its value among the values.
proof fn lemma_barrier_insert(m: Map<u64, WallFrameBarrier>, k: u64, b: WallFrameBarrier)
    ensures
        barrier_views(m.insert(k, b)) == barrier_views(m).insert(k, b@),
{
    assert(barrier_views(m.insert(k, b)) =~= barrier_views(m).insert(k, b@));
}

impl WallFrameCoordinator {
    pub fn new(delay_injection: Option<WallFrameDelayInjection>) -> (c: WallFrameCoordinator)
        ensures
            c@ == (CoordinatorView {
                barriers: Map::empty(),
                active: Map::empty(),
                keep: Map::empty(),
                injection: delay_injection,
                expired_count: 0,
            }),
    {
        let c = WallFrameCoordinator {
            barriers: HashMap::new(),
            active_webview_frames: HashMap::new(),
            keep_previous_painters: HashMap::new(),
            delay_injection,
            keep_previous_expired_count: 0,
        };
        assert(barrier_views(c.barriers@) =~= Map::empty());
        c
    }

    /// Opens the barrier of a frame. A frame of one painter needs none.
    pub fn register_frame(
        &mut self,
        logical_frame_id: u64,
        webview_ids: Vec<u64>,
        expected_painter_ids: Vec<u64>,
        requested_at: u64,
    )
        ensures
            final(self)@ == old(self)@.registered(
                logical_frame_id,
                webview_ids@,
                expected_painter_ids@,
                requested_at,
            ),
    {
        if expected_painter_ids.len() <= 1 {
            return ;
        }
        let injected: Option<u64> = match &mut self.delay_injection {
            Some(injection) => injection.target_for_frame(logical_frame_id, &expected_painter_ids),
            None => None,
        };
        let mut i: usize = 0;
        let ghost before = self.active_webview_frames@;
        let ghost ids = webview_ids@;
        while i < webview_ids.len()
            invariant
                i <= webview_ids@.len(),
                ids == webview_ids@,
                self.barriers == old(self).barriers,
                self.keep_previous_painters == old(self).keep_previous_painters,
                self.keep_previous_expired_count == old(self).keep_previous_expired_count,
                self.delay_injection == (match old(self).delay_injection {
                    Some(inj) => Some(
                        injection_step(inj, logical_frame_id, expected_painter_ids@).0,
                    ),
                    None => None,
                }),
                before == old(self).active_webview_frames@,
                self.active_webview_frames@ =~= Map::new(
                    |w: u64| before.contains_key(w) || ids.take(i as int).contains(w),
                    |w: u64|
                        if ids.take(i as int).contains(w) {
                            logical_frame_id
                        } else {
                            before[w]
                        },
                ),
            decreases webview_ids@.len() - i,
        {
            proof {
                lemma_take_has(ids, i as int);
            }
            let _ = self.active_webview_frames.insert(webview_ids[i], logical_frame_id);
            i = i + 1;
        }
        proof {
            assert(ids.take(i as int) =~= ids);
        }
        let barrier = WallFrameBarrier::new(
            webview_ids,
            expected_painter_ids,
            requested_at,
            injected,
        );
        proof {
            lemma_barrier_insert(self.barriers@, logical_frame_id, barrier);
        }
        self.barriers.insert(logical_frame_id, barrier);
        proof {
            assert(self@ =~= old(self)@.registered(
                logical_frame_id,
                ids,
                expected_painter_ids@,
                requested_at,
            ));
        }
    }

    pub fn webview_has_active_frame(&self, webview_id: u64) -> (b: bool)
        ensures
            b == self@.active.contains_key(webview_id),
    {
        self.active_webview_frames.contains_key(&webview_id)
    }

    /// The ids of the barriers that do not hold the web view.
    fn barriers_without(&self, webview_id: u64) -> (out: Vec<u64>)
        ensures
            forall|f: u64| #[trigger]
                out@.contains(f) <==> self@.barriers.contains_key(f)
                    && !self@.barriers[f].webview_ids.contains(webview_id),
    {
        let ids = table_ids(&self.barriers);
        let mut out: Vec<u64> = Vec::new();
        let mut i: usize = 0;
        while i < ids.len()
            invariant
                i <= ids@.len(),
                ids@.no_duplicates(),
                ids@.to_set() == self.barriers@.dom(),
                forall|f: u64| #[trigger]
                    out@.contains(f) <==> ids@.take(i as int).contains(f) && !self@.barriers[f].webview_ids.contains(
                        webview_id,
                    ),
            decreases ids@.len() - i,
        {
            let id: u64 = ids[i];
            let ghost so_far = out@;
            proof {
                assert(ids@.to_set().contains(id));
                assert(ids@.take(i + 1) =~= ids@.take(i as int).push(id));
                lemma_push_has(ids@.take(i as int), id);
            }
            match self.barriers.get(&id) {
                Some(barrier) => {
                    if !contains_id(&barrier.webview_ids, webview_id) {
                        out.push(id);
                        proof {
                            lemma_push_has(so_far, id);
                        }
                    }
                },
                None => {},
            }
            i = i + 1;
        }
        proof {
            assert(ids@.take(i as int) =~= ids@);
            assert forall|f: u64| ids@.contains(f) <==> self@.barriers.contains_key(f) by {
                assert(ids@.contains(f) <==> ids@.to_set().contains(f));
            }
        }
        out
    }

    /// Forgets a web view, and every barrier that it is part of.
    pub fn remove_webview(&mut self, webview_id: u64)
        ensures
            final(self)@ == old(self)@.without_webview(webview_id),
    {
        let live = self.barriers_without(webview_id);
        let _ = self.active_webview_frames.remove(&webview_id);
        table_retain(&mut self.barriers, &live);
        proof {
            assert forall|f: u64| live@.to_set().contains(f) <==> live@.contains(f) by {}
            assert(self@ =~= old(self)@.without_webview(webview_id));
        }
    }

    /// The web views that wait for the frame stop waiting for it; those are handed back.
    fn release_active_webviews_for_barrier(
        &mut self,
        logical_frame_id: u64,
        webview_ids: &[u64],
    ) -> (released: Vec<u64>)
        ensures
            (final(self)@.active, released@) == release(
                old(self)@.active,
                webview_ids@,
                logical_frame_id,
            ),
            final(self)@ == (CoordinatorView { active: final(self)@.active, ..old(self)@ }),
    {
        let mut released: Vec<u64> = Vec::new();
        let mut i: usize = 0;
        assert(webview_ids@.take(0) =~= Seq::<u64>::empty());
        while i < webview_ids.len()
            invariant
                i <= webview_ids@.len(),
                self.barriers == old(self).barriers,
                self.keep_previous_painters == old(self).keep_previous_painters,
                self.keep_previous_expired_count == old(self).keep_previous_expired_count,
                self.delay_injection == old(self).delay_injection,
                (self.active_webview_frames@, released@) == release(
                    old(self).active_webview_frames@,
                    webview_ids@.take(i as int),
                    logical_frame_id,
                ),
            decreases webview_ids@.len() - i,
        {
            let id: u64 = webview_ids[i];
            proof {
                assert(webview_ids@.take(i + 1).drop_last() =~= webview_ids@.take(i as int));
            }
            let waits: bool = match self.active_webview_frames.get(&id) {
                Some(active) => *active == logical_frame_id,
                None => false,
            };
            if waits {
                let _ = self.active_webview_frames.remove(&id);
                released.push(id);
            }
            i = i + 1;
        }
        assert(webview_ids@.take(i as int) =~= webview_ids@);
        released
    }

    /// Takes the painters out of the table of kept frames, all but those whose instruction is to
    /// be spent by a query where `spare_injected` is set.
    fn forget_kept(&mut self, painter_ids: &[u64], spare_injected: bool)
        ensures
            final(self)@ == (CoordinatorView {
                keep: old(self)@.keep.restrict(
                    Set::new(
                        |p: u64|
                            !painter_ids@.contains(p) || (spare_injected
                                && old(self)@.keep[p].remove_after_skip_query),
                    ),
                ),
                ..old(self)@
            }),
    {
        let ghost before = self.keep_previous_painters@;
        let mut i: usize = 0;
        while i < painter_ids.len()
            invariant
                i <= painter_ids@.len(),
                self.barriers == old(self).barriers,
                self.active_webview_frames == old(self).active_webview_frames,
                self.keep_previous_expired_count == old(self).keep_previous_expired_count,
                self.delay_injection == old(self).delay_injection,
                before == old(self).keep_previous_painters@,
                self.keep_previous_painters@ =~= before.restrict(
                    Set::new(
                        |p: u64|
                            !painter_ids@.take(i as int).contains(p) || (spare_injected
                                && before[p].remove_after_skip_query),
                    ),
                ),
            decreases painter_ids@.len() - i,
        {
            let id: u64 = painter_ids[i];
            proof {
                lemma_take_has(painter_ids@, i as int);
            }
            let spared: bool = spare_injected && (match self.keep_previous_painters.get(&id) {
                Some(frame) => frame.remove_after_skip_query,
                None => false,
            });
            if !spared {
                let _ = self.keep_previous_painters.remove(&id);
            }
            i = i + 1;
        }
        assert(painter_ids@.take(i as int) =~= painter_ids@);
    }

    /// The painters keep what they show in place of this frame.
    fn keep_for(&mut self, logical_frame_id: u64, painter_ids: &[u64], injected: Option<u64>)
        ensures
            final(self)@ == (CoordinatorView {
                keep: Map::new(
                    |p: u64| painter_ids@.contains(p) || old(self)@.keep.contains_key(p),
                    |p: u64|
                        if painter_ids@.contains(p) {
                            KeepPreviousFrame {
                                logical_frame_id,
                                remove_after_skip_query: injected == Some(p),
                            }
                        } else {
                            old(self)@.keep[p]
                        },
                ),
                ..old(self)@
            }),
    {
        let ghost before = self.keep_previous_painters@;
        let mut i: usize = 0;
        while i < painter_ids.len()
            invariant
                i <= painter_ids@.len(),
                self.barriers == old(self).barriers,
                self.active_webview_frames == old(self).active_webview_frames,
                self.keep_previous_expired_count == old(self).keep_previous_expired_count,
                self.delay_injection == old(self).delay_injection,
                before == old(self).keep_previous_painters@,
                self.keep_previous_painters@ =~= Map::new(
                    |p: u64| painter_ids@.take(i as int).contains(p) || before.contains_key(p),
                    |p: u64|
                        if painter_ids@.take(i as int).contains(p) {
                            KeepPreviousFrame {
                                logical_frame_id,
                                remove_after_skip_query: injected == Some(p),
                            }
                        } else {
                            before[p]
                        },
                ),
            decreases painter_ids@.len() - i,
        {
            let id: u64 = painter_ids[i];
            proof {
                lemma_take_has(painter_ids@, i as int);
            }
            let remove_after_skip_query: bool = match injected {
                Some(p) => p == id,
                None => false,
            };
            let _ = self.keep_previous_painters.insert(
                id,
                KeepPreviousFrame { logical_frame_id, remove_after_skip_query },
            );
            i = i + 1;
        }
        assert(painter_ids@.take(i as int) =~= painter_ids@);
    }
}

impl WallFrameCoordinator {
    /// Decides a frame whose deadline has passed: the painters that are ready present it, the
    /// others keep what they show. A frame is decided once.
    pub fn miss_barrier(&mut self, logical_frame_id: u64) -> (u: WallFrameCoordinatorUpdate)
        ensures
            (final(self)@, u@) == old(self)@.missed(logical_frame_id),
    {
        let ghost table = self.barriers@;
        let webview_ids: Vec<u64>;
        let ready_painter_ids: Vec<u64>;
        let missing_painter_ids: Vec<u64>;
        let repaint_needed: bool;
        let injected: Option<u64>;
        match table_get_mut(&mut self.barriers, logical_frame_id) {
            None => {
                return WallFrameCoordinatorUpdate::new();
            },
            Some(barrier) => {
                if barrier.presentation_decision_made {
                    proof {
                        assert(table.insert(logical_frame_id, *barrier) =~= table);
                    }
                    return WallFrameCoordinatorUpdate::new();
                }
                webview_ids = copy_ids(&barrier.webview_ids);
                ready_painter_ids = copy_ids(&barrier.ready_painter_ids);
                missing_painter_ids = barrier.missing_painter_ids();
                repaint_needed = barrier.need_repaint;
                injected = barrier.injected_delayed_painter_id;
                barrier.missed_deadline = true;
                barrier.presentation_decision_made = true;
            },
        }
        proof {
            lemma_barrier_insert(table, logical_frame_id, self.barriers@[logical_frame_id]);
        }
        self.forget_kept(&ready_painter_ids, false);
        self.keep_for(logical_frame_id, &missing_painter_ids, injected);
        let released_webview_ids = self.release_active_webviews_for_barrier(
            logical_frame_id,
            &webview_ids,
        );
        proof {
            assert(self@ =~= old(self)@.missed(logical_frame_id).0);
        }
        WallFrameCoordinatorUpdate {
            repaint_decisions: decide_all(&ready_painter_ids, repaint_needed),
            released_webview_ids,
        }
    }

    /// Decides a frame whose painters are all ready: all present it.
    pub fn complete_barrier(&mut self, logical_frame_id: u64, ready_at: u64) -> (u:
        WallFrameCoordinatorUpdate)
        ensures
            (final(self)@, u@) == old(self)@.completed(logical_frame_id, ready_at),
    {
        let ghost table = self.barriers@;
        let webview_ids: Vec<u64>;
        let painter_ids: Vec<u64>;
        let repaint_needed: bool;
        match table_get_mut(&mut self.barriers, logical_frame_id) {
            None => {
                return WallFrameCoordinatorUpdate::new();
            },
            Some(barrier) => {
                if barrier.presentation_decision_made {
                    proof {
                        assert(table.insert(logical_frame_id, *barrier) =~= table);
                    }
                    return WallFrameCoordinatorUpdate::new();
                }
                webview_ids = copy_ids(&barrier.webview_ids);
                painter_ids = copy_ids(&barrier.expected_painter_ids);
                repaint_needed = barrier.need_repaint;
                barrier.presentation_decision_made = true;
                barrier.completed_at = Some(ready_at);
            },
        }
        proof {
            lemma_barrier_insert(table, logical_frame_id, self.barriers@[logical_frame_id]);
        }
        self.forget_kept(&painter_ids, true);
        let released_webview_ids = self.release_active_webviews_for_barrier(
            logical_frame_id,
            &webview_ids,
        );
        proof {
            assert(self@ =~= old(self)@.completed(logical_frame_id, ready_at).0);
        }
        WallFrameCoordinatorUpdate {
            repaint_decisions: decide_all(&painter_ids, repaint_needed),
            released_webview_ids,
        }
    }

    /// Records that a painter is ready with its part of a frame, and decides the frame where this
    /// settles it. `None` where the painter's frame belongs to no barrier.
    pub fn note_frame_ready(&mut self, d: &FrameReadyDiagnostic) -> (r: Option<
        WallFrameCoordinatorUpdate,
    >)
        ensures
            final(self)@ == old(self)@.noted(*d).0,
            match r {
                Some(u) => old(self)@.noted(*d).1 == Some(u@),
                None => old(self)@.noted(*d).1 is None,
            },
    {
        let logical_frame_id: u64 = match d.wall_logical_frame_id {
            None => {
                return None;
            },
            Some(id) => id,
        };
        let missed_before_recording_ready: bool = match self.barriers.get(&logical_frame_id) {
            None => {
                return None;
            },
            Some(barrier) => !barrier.presentation_decision_made && barrier.missed_deadline_at(
                d.ready_at,
            ),
        };
        let mut update = WallFrameCoordinatorUpdate::new();
        if missed_before_recording_ready {
            update = self.miss_barrier(logical_frame_id);
        }
        let ghost mid = self@;
        let ghost table = self.barriers@;
        let mut complete_before_deadline: bool = false;
        match table_get_mut(&mut self.barriers, logical_frame_id) {
            None => {
                return Some(update);
            },
            Some(barrier) => {
                let ghost b0 = *barrier;
                proof {
                    assert(mid.barriers[logical_frame_id] == b0@);
                }
                if !contains_id(&barrier.expected_painter_ids, d.painter_id) {
                    proof {
                        assert(table.insert(logical_frame_id, *barrier) =~= table);
                    }
                    return Some(update);
                }
                let injected_here: bool = match barrier.injected_delayed_painter_id {
                    Some(p) => p == d.painter_id,
                    None => false,
                };
                if injected_here && !barrier.injected_ready_suppressed {
                    barrier.injected_ready_suppressed = true;
                    proof {
                        lemma_barrier_insert(table, logical_frame_id, *barrier);
                        assert(barrier@ =~= BarrierView { suppressed: true, ..b0@ });
                    }
                    return Some(update);
                }
                barrier.record_ready(d);
                complete_before_deadline = barrier.ready_painter_ids.len()
                    == barrier.expected_painter_ids.len() && !barrier.missed_deadline
                    && !barrier.presentation_decision_made;
                proof {
                    lemma_barrier_insert(table, logical_frame_id, *barrier);
                }
            },
        }
        if complete_before_deadline {
            let done = self.complete_barrier(logical_frame_id, d.ready_at);
            update.extend(done);
        }
        Some(update)
    }

    /// The frames that are undecided past their deadline, each once, in an order that is left open.
    fn expired_frames(&self, now: u64) -> (out: Vec<u64>)
        ensures
            out@.no_duplicates(),
            forall|f: u64| #[trigger]
                out@.contains(f) <==> self@.barriers.contains_key(f) && self@.barriers[f].expired(
                    now,
                ),
    {
        let ids = table_ids(&self.barriers);
        let mut out: Vec<u64> = Vec::new();
        let mut i: usize = 0;
        while i < ids.len()
            invariant
                i <= ids@.len(),
                ids@.no_duplicates(),
                ids@.to_set() == self.barriers@.dom(),
                out@.no_duplicates(),
                forall|f: u64| #[trigger]
                    out@.contains(f) <==> ids@.take(i as int).contains(f) && self@.barriers[f].expired(
                        now,
                    ),
            decreases ids@.len() - i,
        {
            let id: u64 = ids[i];
            let ghost so_far = out@;
            proof {
                assert(ids@.to_set().contains(id));
                assert(ids@.take(i + 1) =~= ids@.take(i as int).push(id));
                lemma_push_has(ids@.take(i as int), id);
            }
            match self.barriers.get(&id) {
                Some(barrier) => {
                    if !barrier.presentation_decision_made && barrier.missed_deadline_at(now) {
                        out.push(id);
                        proof {
                            lemma_push_has(so_far, id);
                            if so_far.contains(id) {
                                let k = choose|k: int| 0 <= k < i && ids@[k] == id;
                                assert(ids@[k] != ids@[i as int]);
                            }
                            lemma_push_distinct(so_far, id);
                        }
                    }
                },
                None => {},
            }
            i = i + 1;
        }
        proof {
            assert(ids@.take(i as int) =~= ids@);
            assert forall|f: u64| ids@.contains(f) <==> self@.barriers.contains_key(f) by {
                assert(ids@.contains(f) <==> ids@.to_set().contains(f));
            }
        }
        out
    }

    /// The ids of the barriers that a sweep leaves in the table.
    fn retained_ids(&self, now: u64) -> (out: Vec<u64>)
        ensures
            forall|f: u64| #[trigger]
                out@.contains(f) <==> self@.barriers.contains_key(f) && self@.barriers[f].retained(
                    now,
                ),
    {
        let ids = table_ids(&self.barriers);
        let mut out: Vec<u64> = Vec::new();
        let mut i: usize = 0;
        while i < ids.len()
            invariant
                i <= ids@.len(),
                ids@.no_duplicates(),
                ids@.to_set() == self.barriers@.dom(),
                forall|f: u64| #[trigger]
                    out@.contains(f) <==> ids@.take(i as int).contains(f) && self@.barriers[f].retained(
                        now,
                    ),
            decreases ids@.len() - i,
        {
            let id: u64 = ids[i];
            let ghost so_far = out@;
            proof {
                assert(ids@.to_set().contains(id));
                assert(ids@.take(i + 1) =~= ids@.take(i as int).push(id));
                lemma_push_has(ids@.take(i as int), id);
            }
            match self.barriers.get(&id) {
                Some(barrier) => {
                    if barrier.retained_at(now) {
                        out.push(id);
                        proof {
                            lemma_push_has(so_far, id);
                        }
                    }
                },
                None => {},
            }
            i = i + 1;
        }
        proof {
            assert(ids@.take(i as int) =~= ids@);
            assert forall|f: u64| ids@.contains(f) <==> self@.barriers.contains_key(f) by {
                assert(ids@.contains(f) <==> ids@.to_set().contains(f));
            }
        }
        out
    }

    /// Decides every frame whose deadline has passed and drops the barriers that nothing more is
    /// expected of. The frames are handed back in the order in which they were decided.
    pub fn sweep_expired_barriers(&mut self, now: u64) -> (r: (
        WallFrameCoordinatorUpdate,
        Vec<u64>,
    ))
        ensures
            old(self)@.sweeps(r.1@, now),
            final(self)@ == old(self)@.missed_all(r.1@).0.pruned(now),
            r.0@ == old(self)@.missed_all(r.1@).1,
    {
        let expired = self.expired_frames(now);
        let mut update = WallFrameCoordinatorUpdate::new();
        let mut j: usize = 0;
        assert(expired@.take(0) =~= Seq::<u64>::empty());
        while j < expired.len()
            invariant
                j <= expired@.len(),
                (self@, update@) == old(self)@.missed_all(expired@.take(j as int)),
            decreases expired@.len() - j,
        {
            proof {
                assert(expired@.take(j + 1).drop_last() =~= expired@.take(j as int));
            }
            let more = self.miss_barrier(expired[j]);
            update.extend(more);
            j = j + 1;
        }
        assert(expired@.take(j as int) =~= expired@);
        let ghost mid = self@;
        let live = self.retained_ids(now);
        table_retain(&mut self.barriers, &live);
        proof {
            assert forall|f: u64| live@.to_set().contains(f) <==> live@.contains(f) by {}
            assert(self@ =~= mid.pruned(now));
        }
        (update, expired)
    }

    /// Drops the instructions to keep a previous frame that this frame makes moot: one speaks of
    /// a single frame, and a newer frame ends it. An injected one stays until it is queried.
    /// Handed back are the dropped instructions that are reported: the painter, the frame that
    /// it kept its picture for, and the running number.
    pub fn expire_keep_previous_before(&mut self, logical_frame_id: u64, painter_ids: &[u64]) -> (r:
        Vec<(u64, u64, u64)>)
        ensures
            final(self)@ == old(self)@.expired_before(logical_frame_id, painter_ids@),
            r@ == old(self)@.expiry_reports(logical_frame_id, painter_ids@),
    {
        let mut reports: Vec<(u64, u64, u64)> = Vec::new();
        let mut i: usize = 0;
        assert(painter_ids@.take(0) =~= Seq::<u64>::empty());
        while i < painter_ids.len()
            invariant
                i <= painter_ids@.len(),
                self@ == old(self)@.expired_before(logical_frame_id, painter_ids@.take(i as int)),
                reports@ == old(self)@.expiry_reports(
                    logical_frame_id,
                    painter_ids@.take(i as int),
                ),
            decreases painter_ids@.len() - i,
        {
            let id: u64 = painter_ids[i];
            proof {
                assert(painter_ids@.take(i + 1).drop_last() =~= painter_ids@.take(i as int));
            }
            let kept: Option<u64> = match self.keep_previous_painters.get(&id) {
                Some(frame) => if !frame.remove_after_skip_query && frame.logical_frame_id
                    < logical_frame_id {
                    Some(frame.logical_frame_id)
                } else {
                    None
                },
                None => None,
            };
            if let Some(kept_for) = kept {
                let _ = self.keep_previous_painters.remove(&id);
                let total: u64 = self.keep_previous_expired_count.wrapping_add(1);
                self.keep_previous_expired_count = total;
                if is_reported(total) {
                    reports.push((id, kept_for, total));
                }
            }
            i = i + 1;
        }
        assert(painter_ids@.take(i as int) =~= painter_ids@);
        reports
    }

    /// The frame that a painter is to skip. An injected instruction is spent by the query.
    pub fn keep_previous_logical_frame(&mut self, painter_id: u64) -> (r: Option<u64>)
        ensures
            (final(self)@, r) == old(self)@.queried(painter_id),
    {
        let kept: KeepPreviousFrame = match self.keep_previous_painters.get(&painter_id) {
            Some(frame) => *frame,
            None => {
                return None;
            },
        };
        if kept.remove_after_skip_query {
            let _ = self.keep_previous_painters.remove(&painter_id);
        }
        Some(kept.logical_frame_id)
    }
}

impl CoordinatorView {
    /// The reports of instructions that a newer frame makes moot.
    pub open spec fn expiry_reports(self, frame: u64, painters: Seq<u64>) -> Seq<(u64, u64, u64)>
        decreases painters.len(),
    {
        if painters.len() == 0 {
            Seq::empty()
        } else {
            let s = self.expired_before(frame, painters.drop_last());
            let rest = self.expiry_reports(frame, painters.drop_last());
            let p = painters.last();
            let total = s.expired_count.wrapping_add(1);
            if s.stale_keep(p, frame) && reported(total) {
                rest.push((p, s.keep[p].logical_frame_id, total))
            } else {
                rest
            }
        }
    }
}

} // verus!
