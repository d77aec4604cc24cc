//! Laws of the wall frames, stated over what a barrier holds: which painters are counted, when a
//! frame is late and when it is decided, who is told to present and who keeps the previous frame.

use crate::wall_frame::{
    append_new, injection_step, non_negative_or_one, reported, BarrierView, CoordinatorView,
    FrameReadyDiagnostic, UpdateView, WallFrameDelayInjection,
};
use crate::wall_frame_laws::{law_missing_is_what_is_not_ready, law_release_frees_only_the_waiting};
use vstd::prelude::*;

verus! {

/// A frame is late from sixteen milliseconds after its first painter was ready; it expires where nothing
/// was decided until then.
pub proof fn law_deadline_runs_from_the_first_ready_painter(b: BarrierView, now: u64)
    ensures
        b.first_ready_at is None ==> !b.expired(now),
        b.first_ready_at is Some && !b.decided ==> (b.expired(now) <==> now - b.first_ready_at->0
            >= 16_000_000),
        b.decided ==> !b.expired(now),
{
}

/// A barrier is kept while it is under way, and for two seconds after it was completed; one that missed its
/// deadline for two seconds after its first painter was ready.
pub proof fn law_barriers_are_kept_for_two_seconds(b: BarrierView, now: u64)
    ensures
        b.completed_at is Some ==> (b.retained(now) <==> now - b.completed_at->0 <= 2_000_000_000),
        b.completed_at is None && !b.missed ==> b.retained(now),
        b.completed_at is None && b.missed && b.first_ready_at is Some ==> (b.retained(now) <==> now
            - b.first_ready_at->0 <= 2_000_000_000),
        b.completed_at is None && b.missed && b.first_ready_at is None ==> !b.retained(now),
{
}

/// A painter that is ready is counted once; the first one starts the deadline; a repaint is needed where one
/// of them needs it; and the frame is complete at the time the last one comes.
pub proof fn law_ready_painters_are_counted(b: BarrierView, d: FrameReadyDiagnostic, p: u64)
    ensures
        ({
            let after = b.with_ready(d);
            &&& after.ready.contains(p) <==> b.ready.contains(p) || p == d.painter_id
            &&& after.ready.len() == b.ready.len() + (if b.ready.contains(d.painter_id) {
                0int
            } else {
                1
            })
            &&& b.first_ready_at is None ==> after.first_ready_at == Some(d.ready_at)
            &&& b.first_ready_at is Some ==> after.first_ready_at == b.first_ready_at
            &&& after.need_repaint <==> b.need_repaint || d.need_repaint
            &&& after.ready.len() == b.expected.len() ==> after.completed_at == Some(d.ready_at)
            &&& after.ready.len() != b.expected.len() ==> after.completed_at == b.completed_at
            &&& after.webview_ids == b.webview_ids && after.expected == b.expected
            &&& after.requested_at == b.requested_at && after.missed == b.missed
            &&& after.decided == b.decided && after.injected == b.injected && after.suppressed
                == b.suppressed
        }),
{
    let more = b.ready.push(d.painter_id);
    assert(more[b.ready.len() as int] == d.painter_id);
    if b.ready.contains(p) {
        let i = choose|i: int| 0 <= i < b.ready.len() && b.ready[i] == p;
        assert(more[i] == p);
    }
}

/// A frame for one painter needs no barrier. One for more is registered as not ready, waiting for exactly
/// those painters; its web views wait for it, and nothing else changes.
pub proof fn law_registered_frame_waits_for_its_painters(
    s: CoordinatorView,
    frame: u64,
    webview_ids: Seq<u64>,
    expected: Seq<u64>,
    requested_at: u64,
    w: u64,
    f: u64,
)
    ensures
        ({
            let after = s.registered(frame, webview_ids, expected, requested_at);
            &&& expected.len() <= 1 ==> after == s
            &&& expected.len() > 1 ==> {
                let b = after.barriers[frame];
                &&& after.barriers.contains_key(frame)
                &&& b.webview_ids == webview_ids && b.expected == expected && b.ready.len() == 0
                &&& b.requested_at == requested_at && b.first_ready_at is None
                    && b.completed_at is None
                &&& !b.missed && !b.decided && !b.need_repaint && !b.suppressed
                &&& webview_ids.contains(w) ==> after.active.contains_key(w) && after.active[w]
                    == frame
                &&& !webview_ids.contains(w) ==> (after.active.contains_key(w)
                    <==> s.active.contains_key(w)) && (s.active.contains_key(w) ==> after.active[w]
                    == s.active[w])
                &&& f != frame ==> (after.barriers.contains_key(f) <==> s.barriers.contains_key(f))
                    && (s.barriers.contains_key(f) ==> after.barriers[f] == s.barriers[f])
                &&& after.keep == s.keep && after.expired_count == s.expired_count
                &&& s.injection is None ==> b.injected is None && after.injection is None
                &&& b.injected is Some ==> expected.contains(b.injected->0)
            }
        }),
{
}

/// A delay is injected from its frame on, as often as it says: each time into the painter at its place
/// among those of the frame. Where there is no such place it is given up.
pub proof fn law_delay_is_injected_as_often_as_asked(
    i: WallFrameDelayInjection,
    frame: u64,
    expected: Seq<u64>,
)
    ensures
        ({
            let (after, target) = injection_step(i, frame, expected);
            let due = i.remaining_frames > 0 && i.after_logical_frame_id <= frame;
            &&& due && i.target_index < expected.len() ==> target == Some(
                expected[i.target_index as int],
            ) && after.remaining_frames + 1 == i.remaining_frames
            &&& due && i.target_index >= expected.len() ==> target is None && after.remaining_frames
                == 0
            &&& !due ==> target is None && after == i
            &&& after.target_index == i.target_index && after.after_logical_frame_id
                == i.after_logical_frame_id
        }),
{
}

/// What a missed frame does: the painters that are ready present, each as the frame needs; those that are
/// missing keep the previous frame, until the next query where their delay was injected; the web
/// views that waited for the frame are released; and nothing else changes.
pub proof fn law_missed_frame_presents_what_is_ready(
    s: CoordinatorView,
    frame: u64,
    p: u64,
    w: u64,
    f: u64,
)
    requires
        s.barriers.contains_key(frame),
        !s.barriers[frame].decided,
        s.barriers[frame].wf(),
    ensures
        ({
            let b = s.barriers[frame];
            let (after, u) = s.missed(frame);
            let missing = b.expected.contains(p) && !b.ready.contains(p);
            &&& after.barriers[frame] == (BarrierView { missed: true, decided: true, ..b })
            &&& f != frame ==> (after.barriers.contains_key(f) <==> s.barriers.contains_key(f)) && (
            s.barriers.contains_key(f) ==> after.barriers[f] == s.barriers[f])
            &&& u.decisions.len() == b.ready.len()
            &&& forall|i: int|
                0 <= i < b.ready.len() ==> (#[trigger] u.decisions[i]).painter_id == b.ready[i]
                    && u.decisions[i].repaint_needed == b.need_repaint
            &&& missing ==> after.keep.contains_key(p) && after.keep[p].logical_frame_id == frame && (
            after.keep[p].remove_after_skip_query <==> b.injected == Some(p))
            &&& b.ready.contains(p) ==> !after.keep.contains_key(p)
            &&& !b.expected.contains(p) ==> (after.keep.contains_key(p) <==> s.keep.contains_key(p))
                && (s.keep.contains_key(p) ==> after.keep[p] == s.keep[p])
            &&& u.released.contains(w) <==> b.webview_ids.contains(w) && s.active.contains_key(w)
                && s.active[w] == frame
            &&& after.active.contains_key(w) <==> s.active.contains_key(w) && !u.released.contains(w)
            &&& after.active.contains_key(w) ==> after.active[w] == s.active[w]
            &&& after.injection == s.injection && after.expired_count == s.expired_count
        }),
{
    let b = s.barriers[frame];
    law_missing_is_what_is_not_ready(b);
    law_release_frees_only_the_waiting(s.active, b.webview_ids, frame);
    if b.ready.contains(p) {
        assert(b.expected.contains(p));
    }
}

/// What a completed frame does: every painter presents; none of them keeps the previous frame any more,
/// unless that ends with its next query; the web views that waited are released.
pub proof fn law_completed_frame_ends_keep_previous(
    s: CoordinatorView,
    frame: u64,
    at: u64,
    p: u64,
    w: u64,
    f: u64,
)
    requires
        s.barriers.contains_key(frame),
        !s.barriers[frame].decided,
    ensures
        ({
            let b = s.barriers[frame];
            let (after, u) = s.completed(frame, at);
            &&& after.barriers[frame] == (BarrierView { decided: true, completed_at: Some(at), ..b })
            &&& f != frame ==> (after.barriers.contains_key(f) <==> s.barriers.contains_key(f)) && (
            s.barriers.contains_key(f) ==> after.barriers[f] == s.barriers[f])
            &&& after.keep.contains_key(p) <==> s.keep.contains_key(p) && (!b.expected.contains(p)
                || s.keep[p].remove_after_skip_query)
            &&& after.keep.contains_key(p) ==> after.keep[p] == s.keep[p]
            &&& u.released.contains(w) <==> b.webview_ids.contains(w) && s.active.contains_key(w)
                && s.active[w] == frame
            &&& after.active.contains_key(w) <==> s.active.contains_key(w) && !u.released.contains(w)
            &&& after.active.contains_key(w) ==> after.active[w] == s.active[w]
            &&& after.injection == s.injection && after.expired_count == s.expired_count
        }),
{
    law_release_frees_only_the_waiting(s.active, s.barriers[frame].webview_ids, frame);
}

/// A painter that is ready in time is counted. Where all the others are ready it completes the frame, and all
/// of them present together; else nobody presents yet.
pub proof fn law_last_painter_completes_the_frame(
    s: CoordinatorView,
    d: FrameReadyDiagnostic,
    frame: u64,
    f: u64,
)
    requires
        d.wall_logical_frame_id == Some(frame),
        s.barriers.contains_key(frame),
        s.barriers[frame].wf(),
        !s.barriers[frame].missed,
        !s.barriers[frame].decided,
        s.barriers[frame].first_ready_at is Some ==> d.ready_at - s.barriers[frame].first_ready_at->0
            < 16_000_000,
        s.barriers[frame].expected.contains(d.painter_id),
        s.barriers[frame].injected != Some(d.painter_id) || s.barriers[frame].suppressed,
    ensures
        ({
            let b = s.barriers[frame];
            let after = s.noted(d).0;
            let told = s.noted(d).1;
            let last = forall|q: u64| #[trigger]
                b.expected.contains(q) ==> b.ready.contains(q) || q == d.painter_id;
            &&& told is Some
            &&& after.barriers[frame].ready.contains(d.painter_id)
            &&& after.barriers[frame].decided <==> last
            &&& last ==> {
                &&& told->0.decisions.len() == b.expected.len()
                &&& forall|i: int|
                    0 <= i < b.expected.len() ==> (#[trigger] told->0.decisions[i]).painter_id
                        == b.expected[i] && told->0.decisions[i].repaint_needed == (b.need_repaint
                        || d.need_repaint)
                &&& after.barriers[frame].completed_at == Some(d.ready_at)
            }
            &&& !last ==> told->0.decisions.len() == 0 && told->0.released.len() == 0 && after.keep
                == s.keep && after.active == s.active
            &&& f != frame ==> (after.barriers.contains_key(f) <==> s.barriers.contains_key(f)) && (
            s.barriers.contains_key(f) ==> after.barriers[f] == s.barriers[f])
        }),
{
    let b = s.barriers[frame];
    let next = b.with_ready(d);
    law_ready_painters_are_counted(b, d, d.painter_id);
    assert(next.wf()) by {
        if !b.ready.contains(d.painter_id) {
            crate::seqs::lemma_push_distinct(b.ready, d.painter_id);
        }
        assert forall|p: u64| #[trigger] next.ready.contains(p) implies next.expected.contains(p) by {
            law_ready_painters_are_counted(b, d, p);
        }
    }
    law_missing_is_what_is_not_ready(next);
    let last = forall|q: u64| #[trigger]
        b.expected.contains(q) ==> b.ready.contains(q) || q == d.painter_id;
    if last {
        assert(next.missing().len() == 0) by {
            if next.missing().len() > 0 {
                let q = next.missing()[0];
                assert(next.missing().contains(q));
                law_ready_painters_are_counted(b, d, q);
                assert(b.expected.contains(q));
            }
        }
    } else {
        let q = choose|q: u64| #[trigger]
            b.expected.contains(q) && !(b.ready.contains(q) || q == d.painter_id);
        law_ready_painters_are_counted(b, d, q);
        assert(next.missing().contains(q));
    }
    assert(append_new(Seq::<u64>::empty(), Seq::<u64>::empty()) =~= Seq::<u64>::empty());
}

/// A painter that is not waited for, or one whose delay was injected, is not counted; the injected delay is
/// used up by it.
pub proof fn law_uncounted_painters(s: CoordinatorView, d: FrameReadyDiagnostic, frame: u64)
    requires
        d.wall_logical_frame_id == Some(frame),
        s.barriers.contains_key(frame),
        s.barriers[frame].first_ready_at is Some && !s.barriers[frame].decided ==> d.ready_at
            - s.barriers[frame].first_ready_at->0 < 16_000_000,
    ensures
        ({
            let b = s.barriers[frame];
            let after = s.noted(d).0;
            let told = s.noted(d).1;
            &&& !b.expected.contains(d.painter_id) ==> after == s && told is Some
                && told->0.decisions.len() == 0 && told->0.released.len() == 0
            &&& b.expected.contains(d.painter_id) && b.injected == Some(d.painter_id)
                && !b.suppressed ==> after.barriers[frame] == (BarrierView { suppressed: true, ..b })
                && told is Some && told->0.decisions.len() == 0 && after.keep == s.keep
                && after.active == s.active
        }),
{
}

/// A painter that comes after the deadline is too late: those that were ready present without it, and no
/// one else does.
pub proof fn law_late_painter_is_not_waited_for(
    s: CoordinatorView,
    d: FrameReadyDiagnostic,
    frame: u64,
)
    requires
        d.wall_logical_frame_id == Some(frame),
        s.barriers.contains_key(frame),
        s.barriers[frame].wf(),
        !s.barriers[frame].decided,
        s.barriers[frame].first_ready_at is Some,
        d.ready_at - s.barriers[frame].first_ready_at->0 >= 16_000_000,
    ensures
        ({
            let b = s.barriers[frame];
            let after = s.noted(d).0;
            let told = s.noted(d).1;
            &&& told is Some
            &&& told->0.decisions.len() == b.ready.len()
            &&& forall|i: int|
                0 <= i < b.ready.len() ==> (#[trigger] told->0.decisions[i]).painter_id == b.ready[i]
                    && told->0.decisions[i].repaint_needed == b.need_repaint
            &&& after.barriers[frame].missed && after.barriers[frame].decided
            &&& b.expected.contains(d.painter_id) && !b.ready.contains(d.painter_id)
                ==> after.keep.contains_key(d.painter_id)
                && after.keep[d.painter_id].logical_frame_id == frame
        }),
{
    law_missed_frame_presents_what_is_ready(s, frame, d.painter_id, 0, 0);
}

/// A painter that keeps the previous frame is told so, with the frame it missed, at each query; where it ends
/// with the query, at one. A query changes nothing for the others.
pub proof fn law_query_tells_the_missed_frame(s: CoordinatorView, p: u64, q: u64)
    ensures
        ({
            let (after, told) = s.queried(p);
            &&& told is Some <==> s.keep.contains_key(p)
            &&& told is Some ==> told->0 == s.keep[p].logical_frame_id
            &&& after.keep.contains_key(p) <==> s.keep.contains_key(p)
                && !s.keep[p].remove_after_skip_query
            &&& q != p ==> (after.keep.contains_key(q) <==> s.keep.contains_key(q))
            &&& after.keep.contains_key(q) ==> after.keep[q] == s.keep[q]
            &&& after.barriers == s.barriers && after.active == s.active && after.injection
                == s.injection && after.expired_count == s.expired_count
        }),
{
}

/// A web view that is gone takes its barriers with it and waits for no frame; the others stay.
pub proof fn law_removed_webview_takes_its_barriers(
    s: CoordinatorView,
    gone: u64,
    frame: u64,
    w: u64,
)
    ensures
        ({
            let after = s.without_webview(gone);
            &&& after.barriers.contains_key(frame) <==> s.barriers.contains_key(frame)
                && !s.barriers[frame].webview_ids.contains(gone)
            &&& after.barriers.contains_key(frame) ==> after.barriers[frame] == s.barriers[frame]
            &&& after.active.contains_key(w) <==> s.active.contains_key(w) && w != gone
            &&& after.active.contains_key(w) ==> after.active[w] == s.active[w]
            &&& after.keep == s.keep && after.injection == s.injection
        }),
{
}

/// Pruning removes the barriers that need not be kept, and only those.
pub proof fn law_pruning_keeps_what_is_retained(s: CoordinatorView, now: u64, frame: u64)
    ensures
        ({
            let after = s.pruned(now);
            &&& after.barriers.contains_key(frame) <==> s.barriers.contains_key(frame)
                && s.barriers[frame].retained(now)
            &&& after.barriers.contains_key(frame) ==> after.barriers[frame] == s.barriers[frame]
            &&& after.keep == s.keep && after.active == s.active && after.injection == s.injection
        }),
{
}

/// A newer frame ends what an older one left: a painter of it that keeps the frame before an older one does
/// so no longer, unless that ends with its next query. Each such end is counted, and told for the first
/// three and then for every hundred and twentieth.
pub proof fn law_newer_frame_counts_what_it_ends(
    s: CoordinatorView,
    frame: u64,
    painters: Seq<u64>,
    p: u64,
)
    ensures
        ({
            let before = s.expired_before(frame, painters);
            let after = s.expired_before(frame, painters.push(p));
            let ends = before.keep.contains_key(p) && !before.keep[p].remove_after_skip_query
                && before.keep[p].logical_frame_id < frame;
            let total = before.expired_count.wrapping_add(1);
            let told = s.expiry_reports(frame, painters);
            &&& ends ==> after.expired_count == total && after.keep == before.keep.remove(p)
            &&& !ends ==> after == before
            &&& ends && (total <= 3 || total % 120 == 0) ==> s.expiry_reports(
                frame,
                painters.push(p),
            ) == told.push((p, before.keep[p].logical_frame_id, total))
            &&& !(ends && (total <= 3 || total % 120 == 0)) ==> s.expiry_reports(
                frame,
                painters.push(p),
            ) == told
        }),
        s.expired_before(frame, Seq::empty()) == s,
        s.expiry_reports(frame, Seq::empty()).len() == 0,
{
    assert(painters.push(p).drop_last() =~= painters);
}

/// Two updates together hold the decisions of the first and, after them, those of the second; the web views
/// that the first releases come first, too.
pub proof fn law_updates_follow_one_another(a: UpdateView, b: UpdateView, i: int)
    ensures
        a.extended(b).decisions == a.decisions + b.decisions,
        a.extended(b).released.len() >= a.released.len(),
        0 <= i < a.released.len() ==> a.extended(b).released[i] == a.released[i],
{
    lemma_append_keeps(a.released, b.released);
}

/// Ids that are added come after those that are there.
proof fn lemma_append_keeps(a: Seq<u64>, b: Seq<u64>)
    ensures
        append_new(a, b).len() >= a.len(),
        append_new(a, b).take(a.len() as int) == a,
    decreases b.len(),
{
    if b.len() == 0 {
        assert(a.take(a.len() as int) =~= a);
    } else {
        lemma_append_keeps(a, b.drop_last());
        let rest = append_new(a, b.drop_last());
        assert(rest.push(b.last()).take(a.len() as int) =~= rest.take(a.len() as int));
    }
}

/// A setting that is missing or negative counts as one.
pub proof fn law_setting_is_one_unless_given(raw: Option<i64>)
    ensures
        raw is None ==> non_negative_or_one(raw) == 1,
        raw is Some && raw->0 < 0 ==> non_negative_or_one(raw) == 1,
        raw is Some && raw->0 >= 0 ==> non_negative_or_one(raw) == raw->0,
{
}

/// The first three are reported, and then every hundred and twentieth.
pub proof fn law_some_are_reported(total: u64)
    ensures
        reported(total) <==> total <= 3 || total % 120 == 0,
{
}

/// A sweep takes exactly the frames that are late and not decided, each once.
pub proof fn law_sweep_takes_the_late_frames(
    s: CoordinatorView,
    frames: Seq<u64>,
    now: u64,
    frame: u64,
)
    requires
        s.sweeps(frames, now),
    ensures
        frames.no_duplicates(),
        frames.contains(frame) <==> s.barriers.contains_key(frame) && !s.barriers[frame].decided
            && s.barriers[frame].first_ready_at is Some && now - s.barriers[frame].first_ready_at->0
            >= 16_000_000,
{
}

} // verus!
