//! What holds of every run of the wall frame coordinator.
use crate::wall_frame::{
    append_new, decisions_for, release, BarrierView, CoordinatorView, FrameReadyDiagnostic,
    UpdateView, WallFrameRepaintDecision,
};
use crate::seqs::{lemma_filter_contains, lemma_push_has};
use vstd::prelude::*;

verus! {

/// Every barrier expects each of its painters once, and only those are ready.
pub open spec fn barriers_wf(s: CoordinatorView) -> bool {
    forall|f: u64| #[trigger] s.barriers.contains_key(f) ==> s.barriers[f].wf()
}

/// A painter is waited for exactly where it is expected and not ready; once as many are ready as
/// are expected, none is waited for.
pub proof fn law_missing_is_what_is_not_ready(b: BarrierView)
    requires
        b.wf(),
    ensures
        forall|p: u64| #[trigger]
            b.missing().contains(p) <==> b.expected.contains(p) && !b.ready.contains(p),
        b.all_ready() <==> b.missing().len() == 0,
{
    let keep = |p: u64| !b.ready.contains(p);
    assert forall|p: u64| #[trigger]
        b.missing().contains(p) <==> b.expected.contains(p) && !b.ready.contains(p) by {
        lemma_filter_contains(b.expected, keep, p);
    }
    b.expected.unique_seq_to_set();
    b.ready.unique_seq_to_set();
    vstd::seq_lib::seq_to_set_is_finite(b.expected);
    vstd::seq_lib::seq_to_set_is_finite(b.ready);
    assert(b.ready.to_set().subset_of(b.expected.to_set())) by {
        assert forall|p: u64| b.ready.to_set().contains(p) implies b.expected.to_set().contains(
            p,
        ) by {
            assert(b.ready.contains(p));
        }
    }
    if b.missing().len() == 0 {
        assert forall|p: u64| b.expected.to_set().contains(p) implies b.ready.to_set().contains(
            p,
        ) by {
            assert(b.expected.contains(p));
            assert(!b.missing().contains(p));
        }
        assert(b.expected.to_set() =~= b.ready.to_set());
    }
    if b.all_ready() {
        vstd::set_lib::lemma_subset_equality(b.ready.to_set(), b.expected.to_set());
        if b.missing().len() > 0 {
            let p = b.missing()[0];
            assert(b.missing().contains(p));
            assert(b.expected.to_set().contains(p));
            assert(b.ready.to_set().contains(p));
            assert(false);
        }
    }
}

/// The barriers stay in order: whatever is registered, reported, missed or swept, no painter is
/// ready twice or unexpectedly.
pub proof fn law_barriers_stay_in_order(
    s: CoordinatorView,
    frame: u64,
    webview_ids: Seq<u64>,
    expected: Seq<u64>,
    requested_at: u64,
    d: FrameReadyDiagnostic,
    now: u64,
)
    requires
        barriers_wf(s),
        expected.no_duplicates(),
    ensures
        barriers_wf(s.registered(frame, webview_ids, expected, requested_at)),
        barriers_wf(s.missed(frame).0),
        barriers_wf(s.completed(frame, now).0),
        barriers_wf(s.noted(d).0),
        barriers_wf(s.pruned(now)),
        barriers_wf(s.without_webview(frame)),
{
    if let Some(f) = d.wall_logical_frame_id {
        if s.barriers.contains_key(f) {
            let t = if s.barriers[f].expired(d.ready_at) {
                s.missed(f).0
            } else {
                s
            };
            let b = t.barriers[f];
            assert(s.barriers[f].wf());
            assert(b.wf());
            if b.expected.contains(d.painter_id) {
                lemma_ready_wf(b, d);
                assert(barriers_wf(t.with_barrier(f, b.with_ready(d))));
            }
        }
    }
}

proof fn lemma_ready_wf(b: BarrierView, d: FrameReadyDiagnostic)
    requires
        b.wf(),
        b.expected.contains(d.painter_id),
    ensures
        b.with_ready(d).wf(),
{
    let n = b.with_ready(d);
    assert forall|p: u64| #[trigger] n.ready.contains(p) implies n.expected.contains(p) by {
        lemma_push_has(b.ready, d.painter_id);
    }
    if !b.ready.contains(d.painter_id) {
        assert forall|i: int, j: int|
            0 <= i < n.ready.len() && 0 <= j < n.ready.len() && i != j implies n.ready[i]
            != n.ready[j] by {
            if i == b.ready.len() {
                assert(b.ready.contains(b.ready[j]));
            }
            if j == b.ready.len() {
                assert(b.ready.contains(b.ready[i]));
            }
        }
    }
}

/// A frame is decided once: nothing that comes after the decision presents it again, releases a
/// web view for it, or takes the decision back.
pub proof fn law_frame_is_decided_once(s: CoordinatorView, frame: u64, d: FrameReadyDiagnostic)
    requires
        s.barriers.contains_key(frame),
        s.barriers[frame].decided,
    ensures
        s.missed(frame) == (s, UpdateView::empty()),
        s.completed(frame, d.ready_at) == (s, UpdateView::empty()),
        d.wall_logical_frame_id == Some(frame) ==> s.noted(d).1 == Some(UpdateView::empty()),
        s.noted(d).0.barriers.contains_key(frame),
        s.noted(d).0.barriers[frame].decided,
{
}

/// A frame that completes in time is presented by every painter that it expects, together; the
/// answer is the same for all of them.
pub proof fn law_completion_presents_every_painter(s: CoordinatorView, frame: u64, at: u64)
    requires
        s.barriers.contains_key(frame),
        !s.barriers[frame].decided,
    ensures
        ({
            let b = s.barriers[frame];
            let u = s.completed(frame, at).1;
            &&& u.decisions.len() == b.expected.len()
            &&& forall|i: int|
                0 <= i < u.decisions.len() ==> (#[trigger] u.decisions[i])
                    == (WallFrameRepaintDecision {
                    painter_id: b.expected[i],
                    repaint_needed: b.need_repaint,
                })
        }),
{
}

/// Where the deadline passes, a painter that is ready no longer keeps a previous frame, and each
/// one that is waited for is told to keep its previous frame in place of this one.
pub proof fn law_miss_splits_the_painters(s: CoordinatorView, frame: u64, p: u64)
    requires
        s.barriers.contains_key(frame),
        !s.barriers[frame].decided,
        s.barriers[frame].wf(),
        s.barriers[frame].expected.contains(p),
    ensures
        ({
            let after = s.missed(frame).0;
            if s.barriers[frame].ready.contains(p) {
                !after.keep.contains_key(p)
            } else {
                after.keep.contains_key(p) && after.keep[p].logical_frame_id == frame
            }
        }),
{
    law_missing_is_what_is_not_ready(s.barriers[frame]);
}

/// An instruction to keep a previous frame lasts until the next wall frame of the painter: after
/// that frame expires the older ones, none for an older frame is left with its painters, save an
/// injected one. Other painters and other tables are untouched.
pub proof fn law_newer_frame_ends_keep_previous(s: CoordinatorView, frame: u64, painters: Seq<u64>)
    ensures
        ({
            let after = s.expired_before(frame, painters);
            &&& forall|p: u64| painters.contains(p) ==> !#[trigger] after.stale_keep(p, frame)
            &&& forall|p: u64| #[trigger]
                after.keep.contains_key(p) <==> s.keep.contains_key(p) && !(painters.contains(p)
                    && s.stale_keep(p, frame))
            &&& forall|p: u64| #[trigger]
                after.keep.contains_key(p) ==> after.keep[p] == s.keep[p]
            &&& after.barriers == s.barriers
            &&& after.active == s.active
            &&& after.injection == s.injection
        }),
    decreases painters.len(),
{
    if painters.len() > 0 {
        let rest = painters.drop_last();
        law_newer_frame_ends_keep_previous(s, frame, rest);
        let mid = s.expired_before(frame, rest);
        let after = s.expired_before(frame, painters);
        assert(painters =~= rest.push(painters.last()));
        assert forall|p: u64| #[trigger]
            after.keep.contains_key(p) <==> s.keep.contains_key(p) && !(painters.contains(p)
                && s.stale_keep(p, frame)) by {
            lemma_push_has(rest, painters.last());
            assert(mid.keep.contains_key(p) <==> s.keep.contains_key(p) && !(rest.contains(p)
                && s.stale_keep(p, frame)));
        }
        assert forall|p: u64| #[trigger] after.keep.contains_key(p) implies after.keep[p]
            == s.keep[p] by {
            assert(mid.keep.contains_key(p));
        }
        assert forall|p: u64| painters.contains(p) implies !#[trigger] after.stale_keep(
            p,
            frame,
        ) by {
            if after.keep.contains_key(p) {
                assert(after.keep[p] == s.keep[p]);
            }
        }
    } else {
        assert forall|p: u64| painters.contains(p) implies !#[trigger] s.stale_keep(p, frame) by {}
    }
}

/// A web view is released by a frame only where it still waits for that very frame; it waits no
/// longer then, and a web view that waits for another frame goes on waiting.
pub proof fn law_release_frees_only_the_waiting(active: Map<u64, u64>, ids: Seq<u64>, frame: u64)
    ensures
        ({
            let (after, out) = release(active, ids, frame);
            &&& forall|w: u64| #[trigger]
                out.contains(w) <==> ids.contains(w) && active.contains_key(w) && active[w]
                    == frame
            &&& forall|w: u64| #[trigger]
                after.contains_key(w) <==> active.contains_key(w) && !out.contains(w)
            &&& forall|w: u64| #[trigger] after.contains_key(w) ==> after[w] == active[w]
            &&& out.no_duplicates()
        }),
    decreases ids.len(),
{
    if ids.len() > 0 {
        let rest = ids.drop_last();
        let id = ids.last();
        law_release_frees_only_the_waiting(active, rest, frame);
        let (mid, sofar) = release(active, rest, frame);
        let (after, out) = release(active, ids, frame);
        assert(ids =~= rest.push(id));
        assert forall|w: u64| #[trigger]
            out.contains(w) <==> ids.contains(w) && active.contains_key(w) && active[w] == frame by {
            lemma_push_has(rest, id);
            lemma_push_has(sofar, id);
            assert(sofar.contains(w) <==> rest.contains(w) && active.contains_key(w) && active[w]
                == frame);
            assert(mid.contains_key(id) <==> active.contains_key(id) && !sofar.contains(id));
        }
        assert forall|w: u64| #[trigger]
            after.contains_key(w) <==> active.contains_key(w) && !out.contains(w) by {
            lemma_push_has(sofar, id);
            assert(mid.contains_key(w) <==> active.contains_key(w) && !sofar.contains(w));
        }
        assert forall|w: u64| #[trigger] after.contains_key(w) implies after[w] == active[w] by {
            assert(mid.contains_key(w));
        }
        if mid.contains_key(id) && mid[id] == frame {
            assert(!sofar.contains(id));
            assert forall|i: int, j: int|
                0 <= i < out.len() && 0 <= j < out.len() && i != j implies out[i] != out[j] by {
                if i == sofar.len() {
                    assert(sofar.contains(sofar[j]));
                }
                if j == sofar.len() {
                    assert(sofar.contains(sofar[i]));
                }
            }
        }
    }
}

/// After a frame is decided, no web view of it waits for it.
pub proof fn law_decided_frame_holds_nobody(s: CoordinatorView, frame: u64, at: u64, w: u64)
    requires
        s.barriers.contains_key(frame),
        !s.barriers[frame].decided,
        s.barriers[frame].webview_ids.contains(w),
    ensures
        ({
            let missed = s.missed(frame).0;
            let completed = s.completed(frame, at).0;
            &&& !(missed.active.contains_key(w) && missed.active[w] == frame)
            &&& !(completed.active.contains_key(w) && completed.active[w] == frame)
        }),
{
    law_release_frees_only_the_waiting(s.active, s.barriers[frame].webview_ids, frame);
}

proof fn lemma_missed_all(s: CoordinatorView, frames: Seq<u64>)
    ensures
        ({
            let after = s.missed_all(frames).0;
            &&& after.barriers.dom() == s.barriers.dom()
            &&& forall|f: u64| #[trigger]
                s.barriers.contains_key(f) ==> after.barriers[f].first_ready_at
                    == s.barriers[f].first_ready_at && (after.barriers[f].decided
                    == (s.barriers[f].decided || frames.contains(f)))
        }),
    decreases frames.len(),
{
    if frames.len() > 0 {
        let rest = frames.drop_last();
        lemma_missed_all(s, rest);
        let mid = s.missed_all(rest).0;
        let after = s.missed_all(frames).0;
        assert(frames =~= rest.push(frames.last()));
        assert(after.barriers.dom() =~= s.barriers.dom());
        assert forall|f: u64| #[trigger] s.barriers.contains_key(f) implies after.barriers[f].first_ready_at
            == s.barriers[f].first_ready_at && (after.barriers[f].decided == (
        s.barriers[f].decided || frames.contains(f))) by {
            lemma_push_has(rest, frames.last());
            assert(mid.barriers.contains_key(f));
        }
    }
}

/// A sweep leaves no frame undecided past its deadline, in whatever order it goes through them.
pub proof fn law_sweep_leaves_no_late_frame(
    s: CoordinatorView,
    frames: Seq<u64>,
    now: u64,
    frame: u64,
)
    requires
        s.sweeps(frames, now),
    ensures
        ({
            let after = s.missed_all(frames).0.pruned(now);
            after.barriers.contains_key(frame) ==> !after.barriers[frame].expired(now)
        }),
{
    lemma_missed_all(s, frames);
    let mid = s.missed_all(frames).0;
    if mid.barriers.contains_key(frame) {
        assert(s.barriers.contains_key(frame));
    }
}

/// Adding updates up releases each web view once.
pub proof fn law_update_releases_once(a: UpdateView, b: UpdateView)
    requires
        a.released.no_duplicates(),
    ensures
        a.extended(b).released.no_duplicates(),
        forall|w: u64| #[trigger]
            a.extended(b).released.contains(w) <==> a.released.contains(w) || b.released.contains(
                w,
            ),
{
    lemma_append_new(a.released, b.released);
}

proof fn lemma_append_new(a: Seq<u64>, b: Seq<u64>)
    requires
        a.no_duplicates(),
    ensures
        append_new(a, b).no_duplicates(),
        forall|w: u64| #[trigger]
            append_new(a, b).contains(w) <==> a.contains(w) || b.contains(w),
    decreases b.len(),
{
    if b.len() > 0 {
        let rest = b.drop_last();
        lemma_append_new(a, rest);
        let r = append_new(a, rest);
        assert(b =~= rest.push(b.last()));
        assert forall|w: u64| #[trigger]
            append_new(a, b).contains(w) <==> a.contains(w) || b.contains(w) by {
            lemma_push_has(rest, b.last());
            lemma_push_has(r, b.last());
            assert(r.contains(w) <==> a.contains(w) || rest.contains(w));
        }
        if !r.contains(b.last()) {
            let out = append_new(a, b);
            assert forall|i: int, j: int|
                0 <= i < out.len() && 0 <= j < out.len() && i != j implies out[i] != out[j] by {
                if i == r.len() {
                    assert(r.contains(r[j]));
                }
                if j == r.len() {
                    assert(r.contains(r[i]));
                }
            }
        }
    }
}

/// What can happen to the coordinator's frames.
pub enum CoordinatorEvent {
    /// A painter is ready.
    Ready(FrameReadyDiagnostic),
    /// The frames that are past their deadline are decided, in this order, and old ones go.
    Sweep { frames: Seq<u64>, now: u64 },
    /// A frame is requested.
    Register { frame: u64, webview_ids: Seq<u64>, expected: Seq<u64>, requested_at: u64 },
    RemoveWebView(u64),
}

impl CoordinatorView {
    pub open spec fn stepped(self, e: CoordinatorEvent) -> CoordinatorView {
        match e {
            CoordinatorEvent::Ready(d) => self.noted(d).0,
            CoordinatorEvent::Sweep { frames, now } => self.missed_all(frames).0.pruned(now),
            CoordinatorEvent::Register { frame, webview_ids, expected, requested_at } => {
                self.registered(frame, webview_ids, expected, requested_at)
            },
            CoordinatorEvent::RemoveWebView(w) => self.without_webview(w),
        }
    }

    /// The event can happen, and it does not request the frame again.
    pub open spec fn admits(self, e: CoordinatorEvent, frame: u64) -> bool {
        match e {
            CoordinatorEvent::Sweep { frames, now } => self.sweeps(frames, now),
            CoordinatorEvent::Register { frame: f, .. } => f != frame,
            _ => true,
        }
    }

    /// The decisions for the frame that the event brings.
    pub open spec fn decided_by(self, e: CoordinatorEvent, frame: u64) -> Seq<
        WallFrameRepaintDecision,
    > {
        match e {
            CoordinatorEvent::Ready(d) => match self.noted(d).1 {
                Some(u) if d.wall_logical_frame_id == Some(frame) => u.decisions,
                _ => Seq::empty(),
            },
            CoordinatorEvent::Sweep { frames, .. } => if frames.contains(frame) {
                self.missed(frame).1.decisions
            } else {
                Seq::empty()
            },
            _ => Seq::empty(),
        }
    }

    pub open spec fn after_events(self, events: Seq<CoordinatorEvent>) -> CoordinatorView
        decreases events.len(),
    {
        if events.len() == 0 {
            self
        } else {
            self.after_events(events.drop_last()).stepped(events.last())
        }
    }

    /// The decisions for the frame that the event at this place brings.
    pub open spec fn decided_at(self, events: Seq<CoordinatorEvent>, i: int, frame: u64) -> Seq<
        WallFrameRepaintDecision,
    > {
        self.after_events(events.take(i)).decided_by(events[i], frame)
    }

    /// Every event can happen when its turn comes.
    pub open spec fn admits_all(self, events: Seq<CoordinatorEvent>, frame: u64) -> bool {
        forall|i: int|
            0 <= i < events.len() ==> self.after_events(events.take(i)).admits(
                #[trigger] events[i],
                frame,
            )
    }

    /// Nothing more is decided for the frame: it was decided, or it is gone.
    pub open spec fn closed_for(self, frame: u64) -> bool {
        !self.barriers.contains_key(frame) || self.barriers[frame].decided
    }

    /// What is there of the frame expects these painters.
    pub open spec fn expects(self, frame: u64, expected: Seq<u64>) -> bool {
        self.barriers.contains_key(frame) ==> self.barriers[frame].wf()
            && self.barriers[frame].expected == expected
    }
}

/// The decisions that a sweep brings: for each frame what its own miss brings, one frame after the
/// other.
pub open spec fn each_missed(s: CoordinatorView, frames: Seq<u64>) -> Seq<WallFrameRepaintDecision>
    decreases frames.len(),
{
    if frames.len() == 0 {
        Seq::empty()
    } else {
        each_missed(s, frames.drop_last()) + s.missed(frames.last()).1.decisions
    }
}

proof fn lemma_missed_one(s: CoordinatorView, frames: Seq<u64>, frame: u64)
    requires
        frames.no_duplicates(),
    ensures
        ({
            let after = s.missed_all(frames).0.barriers;
            &&& after.contains_key(frame) == s.barriers.contains_key(frame)
            &&& s.barriers.contains_key(frame) ==> after[frame] == (if frames.contains(frame) {
                s.missed(frame).0.barriers[frame]
            } else {
                s.barriers[frame]
            })
        }),
    decreases frames.len(),
{
    if frames.len() > 0 {
        let rest = frames.drop_last();
        let last = frames.last();
        assert(frames =~= rest.push(last));
        lemma_push_has(rest, last);
        assert(!rest.contains(last)) by {
            if rest.contains(last) {
                let i = choose|i: int| 0 <= i < rest.len() && rest[i] == last;
                assert(frames[i] == frames[frames.len() - 1]);
            }
        }
        lemma_missed_one(s, rest, frame);
        lemma_missed_one(s, rest, last);
    }
}

/// A sweep decides each of its frames as if it were the only one: what one frame's miss brings does
/// not depend on the frames before it.
pub proof fn law_sweep_decides_each_frame_alone(s: CoordinatorView, frames: Seq<u64>)
    requires
        frames.no_duplicates(),
    ensures
        s.missed_all(frames).1.decisions == each_missed(s, frames),
    decreases frames.len(),
{
    if frames.len() > 0 {
        let rest = frames.drop_last();
        let last = frames.last();
        assert(!rest.contains(last)) by {
            if rest.contains(last) {
                let i = choose|i: int| 0 <= i < rest.len() && rest[i] == last;
                assert(frames[i] == frames[frames.len() - 1]);
            }
        }
        law_sweep_decides_each_frame_alone(s, rest);
        lemma_missed_one(s, rest, last);
    }
}

/// One event: a frame that is closed stays closed and gets no decision; a decision closes the frame,
/// and is either for all painters that are expected or for those that were ready before the miss.
proof fn lemma_one_event(s: CoordinatorView, e: CoordinatorEvent, frame: u64, expected: Seq<u64>)
    requires
        s.admits(e, frame),
        s.expects(frame, expected),
    ensures
        s.stepped(e).expects(frame, expected),
        s.closed_for(frame) ==> s.stepped(e).closed_for(frame) && s.decided_by(e, frame).len() == 0,
        s.decided_by(e, frame).len() > 0 ==> {
            let d = s.decided_by(e, frame);
            let b = s.barriers[frame];
            &&& s.barriers.contains_key(frame)
            &&& s.stepped(e).closed_for(frame)
            &&& (exists|r: bool| d == #[trigger] decisions_for(expected, r)) || d == decisions_for(
                b.ready,
                b.need_repaint,
            )
        },
{
    let before = s.barriers[frame];
    match e {
        CoordinatorEvent::Ready(d) => {
            if let Some(f) = d.wall_logical_frame_id {
                if s.barriers.contains_key(f) && f == frame {
                    let late = before.expired(d.ready_at);
                    let (t, u) = if late {
                        s.missed(f)
                    } else {
                        (s, UpdateView::empty())
                    };
                    let b = t.barriers[f];
                    assert(b.wf() && b.expected == expected);
                    if b.expected.contains(d.painter_id) {
                        lemma_ready_wf(b, d);
                        let with = t.with_barrier(f, b.with_ready(d));
                        if b.with_ready(d).all_ready() && !b.missed && !b.decided && !(b.injected
                            == Some(d.painter_id) && !b.suppressed) {
                            assert(!late);
                            let more = with.completed(f, d.ready_at).1;
                            assert(u.extended(more).decisions =~= decisions_for(
                                expected,
                                b.with_ready(d).need_repaint,
                            ));
                        }
                    }
                } else if s.barriers.contains_key(f) {
                    assert(s.noted(d).0.barriers.contains_key(frame) == s.barriers.contains_key(
                        frame,
                    ));
                    assert(s.barriers.contains_key(frame) ==> s.noted(d).0.barriers[frame]
                        == before);
                }
            }
        },
        CoordinatorEvent::Sweep { frames, now } => {
            lemma_missed_one(s, frames, frame);
        },
        _ => {},
    }
}

proof fn lemma_events(
    s: CoordinatorView,
    events: Seq<CoordinatorEvent>,
    i: int,
    frame: u64,
    expected: Seq<u64>,
)
    requires
        0 <= i <= events.len(),
        s.expects(frame, expected),
        s.admits_all(events, frame),
    ensures
        s.after_events(events.take(i)).expects(frame, expected),
    decreases i,
{
    if i > 0 {
        lemma_events(s, events, i - 1, frame, expected);
        assert(events.take(i).drop_last() =~= events.take(i - 1));
        lemma_one_event(s.after_events(events.take(i - 1)), events[i - 1], frame, expected);
    } else {
        assert(events.take(0) =~= Seq::<CoordinatorEvent>::empty());
    }
}

proof fn lemma_stays_closed(
    s: CoordinatorView,
    events: Seq<CoordinatorEvent>,
    i: int,
    j: int,
    frame: u64,
    expected: Seq<u64>,
)
    requires
        0 <= i <= j <= events.len(),
        s.expects(frame, expected),
        s.admits_all(events, frame),
        s.after_events(events.take(i)).closed_for(frame),
    ensures
        s.after_events(events.take(j)).closed_for(frame),
    decreases j - i,
{
    if i < j {
        lemma_stays_closed(s, events, i, j - 1, frame, expected);
        lemma_events(s, events, j - 1, frame, expected);
        assert(events.take(j).drop_last() =~= events.take(j - 1));
        lemma_one_event(s.after_events(events.take(j - 1)), events[j - 1], frame, expected);
    }
}

/// A painter has at most one of these decisions, and only where it is listed.
proof fn lemma_decisions_distinct(ids: Seq<u64>, repaint: bool)
    requires
        ids.no_duplicates(),
    ensures
        forall|a: int, b: int|
            0 <= a < b < decisions_for(ids, repaint).len() ==> (#[trigger] decisions_for(
                ids,
                repaint,
            )[a]).painter_id != (#[trigger] decisions_for(ids, repaint)[b]).painter_id,
        forall|a: int|
            0 <= a < ids.len() ==> ids.contains(
                (#[trigger] decisions_for(ids, repaint)[a]).painter_id,
            ),
{
    assert forall|a: int| 0 <= a < ids.len() implies ids.contains(
        (#[trigger] decisions_for(ids, repaint)[a]).painter_id,
    ) by {
        assert(ids[a] == decisions_for(ids, repaint)[a].painter_id);
    }
}

/// Whatever is reported, swept, requested or removed after a frame was requested of several
/// painters: the decisions for it come all together, from one event. No painter gets two, none gets
/// one that is not expected, and the decisions are for all the painters that are expected, or, where
/// the deadline passed, for exactly those that were ready before.
pub proof fn law_frame_is_decided_by_one_event(
    before: CoordinatorView,
    frame: u64,
    webview_ids: Seq<u64>,
    expected: Seq<u64>,
    requested_at: u64,
    events: Seq<CoordinatorEvent>,
)
    requires
        expected.len() > 1,
        expected.no_duplicates(),
        before.registered(frame, webview_ids, expected, requested_at).admits_all(events, frame),
    ensures
        ({
            let s = before.registered(frame, webview_ids, expected, requested_at);
            &&& forall|i: int, j: int|
                0 <= i < events.len() && 0 <= j < events.len() && i != j && (
                #[trigger] s.decided_at(events, i, frame)).len() > 0 ==> (#[trigger] s.decided_at(
                    events,
                    j,
                    frame,
                )).len() == 0
            &&& forall|i: int|
                0 <= i < events.len() && (#[trigger] s.decided_at(events, i, frame)).len() > 0 ==> {
                    let d = s.decided_at(events, i, frame);
                    let b = s.after_events(events.take(i)).barriers[frame];
                    &&& (exists|r: bool| d == #[trigger] decisions_for(expected, r)) || d
                        == decisions_for(b.ready, b.need_repaint)
                    &&& forall|k: int|
                        0 <= k < d.len() ==> expected.contains((#[trigger] d[k]).painter_id)
                    &&& forall|k: int, l: int|
                        0 <= k < l < d.len() ==> (#[trigger] d[k]).painter_id != (
                        #[trigger] d[l]).painter_id
                }
        }),
{
    let s = before.registered(frame, webview_ids, expected, requested_at);
    assert(s.expects(frame, expected));
    assert forall|i: int|
        0 <= i < events.len() && (#[trigger] s.decided_at(events, i, frame)).len() > 0 implies ({
        let d = s.decided_at(events, i, frame);
        let b = s.after_events(events.take(i)).barriers[frame];
        &&& (exists|r: bool| d == #[trigger] decisions_for(expected, r)) || d == decisions_for(
            b.ready,
            b.need_repaint,
        )
        &&& forall|k: int| 0 <= k < d.len() ==> expected.contains((#[trigger] d[k]).painter_id)
        &&& forall|k: int, l: int|
            0 <= k < l < d.len() ==> (#[trigger] d[k]).painter_id != (#[trigger] d[l]).painter_id
    }) by {
        let t = s.after_events(events.take(i));
        let d = s.decided_at(events, i, frame);
        let b = t.barriers[frame];
        lemma_events(s, events, i, frame, expected);
        lemma_one_event(t, events[i], frame, expected);
        lemma_decisions_distinct(b.ready, b.need_repaint);
        if exists|r: bool| d == #[trigger] decisions_for(expected, r) {
            let r = choose|r: bool| d == #[trigger] decisions_for(expected, r);
            lemma_decisions_distinct(expected, r);
        }
    }
    assert forall|i: int, j: int|
        0 <= i < events.len() && 0 <= j < events.len() && i != j && (#[trigger] s.decided_at(
            events,
            i,
            frame,
        )).len() > 0 implies (#[trigger] s.decided_at(events, j, frame)).len() == 0 by {
        let (a, b) = if i < j {
            (i, j)
        } else {
            (j, i)
        };
        lemma_events(s, events, a, frame, expected);
        lemma_events(s, events, b, frame, expected);
        lemma_one_event(s.after_events(events.take(a)), events[a], frame, expected);
        lemma_one_event(s.after_events(events.take(b)), events[b], frame, expected);
        assert(events.take(a + 1).drop_last() =~= events.take(a));
        if s.decided_at(events, a, frame).len() > 0 {
            lemma_stays_closed(s, events, a + 1, b, frame, expected);
        }
    }
}

/// A painter that is ready with a frame that nobody waits for, or with none of a wall, changes
/// nothing and gets no answer.
pub proof fn law_unknown_frame_is_ignored(s: CoordinatorView, d: FrameReadyDiagnostic)
    requires
        d.wall_logical_frame_id matches Some(f) ==> !s.barriers.contains_key(f),
    ensures
        s.noted(d) == (s, None::<UpdateView>),
{
}

} // verus!
