//! Laws of the pacing of wall frames: whom a request asks, what holds it back, and what the frame
//! that comes of it changes.

use crate::frame_queue::since;
use crate::pacing::{RequestView, WallFramePacingBlockReason, WallFramePacingBlockTally, WallFramePacingMode};
use crate::paint::PaintView;
use crate::paint_pacing::{
    first_in, held_by, issued_by, max_pending, pending_of, released_by, remaining, sends,
    IssuedFrame, ReleasedFrame,
};
use crate::painter_images::ScriptFrame;
use crate::seqs::{lemma_filter_contains, lemma_last_has};
use crate::wall_frame::append_new;
use vstd::prelude::*;

verus! {

/// Ids that are added join those that are there, each once.
proof fn lemma_append_has(a: Seq<u64>, b: Seq<u64>)
    ensures
        forall|x: u64| #[trigger] append_new(a, b).contains(x) <==> a.contains(x) || b.contains(x),
        a.no_duplicates() ==> append_new(a, b).no_duplicates(),
    decreases b.len(),
{
    if b.len() > 0 {
        lemma_append_has(a, b.drop_last());
        lemma_last_has(b);
        let rest = append_new(a, b.drop_last());
        crate::seqs::lemma_push_has(rest, b.last());
        if a.no_duplicates() && !rest.contains(b.last()) {
            crate::seqs::lemma_push_distinct(rest, b.last());
        }
    }
}

/// A request asks exactly the painters that its sources reach, each once.
pub proof fn law_request_asks_every_target(v: PaintView, sources: Seq<u64>, p: u64)
    ensures
        v.request_for(sources).painters.contains(p) <==> exists|i: int|
            0 <= i < sources.len() && v.source_targets(#[trigger] sources[i]).contains(p),
        v.request_for(sources).painters.no_duplicates(),
    decreases sources.len(),
{
    if sources.len() > 0 {
        let front = sources.drop_last();
        let s = sources.last();
        law_request_asks_every_target(v, front, p);
        lemma_append_has(v.request_for(front).painters, v.source_targets(s));
        if v.request_for(sources).painters.contains(p) {
            if v.source_targets(s).contains(p) {
                assert(v.source_targets(sources[sources.len() - 1]).contains(p));
            } else {
                let i = choose|i: int|
                    0 <= i < front.len() && v.source_targets(#[trigger] front[i]).contains(p);
                assert(v.source_targets(sources[i]).contains(p));
            }
        }
        if exists|i: int|
            0 <= i < sources.len() && v.source_targets(#[trigger] sources[i]).contains(p) {
            let i = choose|i: int|
                0 <= i < sources.len() && v.source_targets(#[trigger] sources[i]).contains(p);
            if i < front.len() {
                assert(v.source_targets(front[i]).contains(p));
            }
        }
    }
}

/// The web views of a request are those that its sources show on more than one painter, each once.
pub proof fn law_request_is_for_shared_webviews(v: PaintView, sources: Seq<u64>, w: u64)
    ensures
        v.request_for(sources).webviews.contains(w) <==> exists|i: int|
            0 <= i < sources.len() && v.source_webview(#[trigger] sources[i]) == Some(w)
                && v.source_targets(sources[i]).len() > 1,
        v.request_for(sources).webviews.no_duplicates(),
    decreases sources.len(),
{
    if sources.len() > 0 {
        let front = sources.drop_last();
        let s = sources.last();
        law_request_is_for_shared_webviews(v, front, w);
        let before = v.request_for(front).webviews;
        if let Some(x) = v.source_webview(s) {
            lemma_append_has(before, seq![x]);
            assert(seq![x].contains(w) <==> w == x) by {
                assert(seq![x][0] == x);
            }
        }
        if v.request_for(sources).webviews.contains(w) {
            if before.contains(w) {
                let i = choose|i: int|
                    0 <= i < front.len() && v.source_webview(#[trigger] front[i]) == Some(w)
                        && v.source_targets(front[i]).len() > 1;
                assert(v.source_webview(sources[i]) == Some(w));
            } else {
                assert(v.source_webview(sources[sources.len() - 1]) == Some(w));
            }
        }
        if exists|i: int|
            0 <= i < sources.len() && v.source_webview(#[trigger] sources[i]) == Some(w)
                && v.source_targets(sources[i]).len() > 1 {
            let i = choose|i: int|
                0 <= i < sources.len() && v.source_webview(#[trigger] sources[i]) == Some(w)
                    && v.source_targets(sources[i]).len() > 1;
            if i < front.len() {
                assert(v.source_webview(front[i]) == Some(w) && v.source_targets(front[i]).len()
                    > 1);
            }
        }
    }
}

/// The first id that passes is in the list, passes, and has none before it that does.
proof fn lemma_first_passes(ids: Seq<u64>, test: spec_fn(u64) -> bool)
    ensures
        first_in(ids, test) is None ==> forall|x: u64| #[trigger] ids.contains(x) ==> !test(x),
        first_in(ids, test) is Some ==> ids.contains(first_in(ids, test)->0) && test(
            first_in(ids, test)->0,
        ) && exists|k: int|
            0 <= k < ids.len() && #[trigger] ids[k] == first_in(ids, test)->0 && forall|j: int|
                0 <= j < k ==> !test(#[trigger] ids[j]),
    decreases ids.len(),
{
    if ids.len() > 0 {
        let front = ids.drop_last();
        lemma_first_passes(front, test);
        lemma_last_has(ids);
        if let Some(x) = first_in(front, test) {
            let k = choose|k: int|
                0 <= k < front.len() && #[trigger] front[k] == x && forall|j: int|
                    0 <= j < k ==> !test(#[trigger] front[j]);
            assert(ids[k] == x);
            assert forall|j: int| 0 <= j < k implies !test(#[trigger] ids[j]) by {
                assert(front[j] == ids[j]);
            }
        } else if test(ids.last()) {
            assert forall|j: int| 0 <= j < ids.len() - 1 implies !test(#[trigger] ids[j]) by {
                assert(front[j] == ids[j]);
                assert(front.contains(ids[j]));
            }
            assert(ids[ids.len() - 1] == ids.last());
        }
    }
}

/// The longest queue among the painters is one of theirs, and none is longer.
pub proof fn law_longest_queue(v: PaintView, ids: Seq<u64>)
    ensures
        forall|i: int|
            0 <= i < ids.len() && v.painters.contains_key(ids[i])
                ==> v.painters[#[trigger] ids[i]].frames.frames.len() <= max_pending(
                v.painters,
                ids,
            ),
        max_pending(v.painters, ids) == 0 || exists|i: int|
            0 <= i < ids.len() && v.painters.contains_key(ids[i])
                && v.painters[#[trigger] ids[i]].frames.frames.len() == max_pending(
                v.painters,
                ids,
            ),
    decreases ids.len(),
{
    if ids.len() > 0 {
        let front = ids.drop_last();
        law_longest_queue(v, front);
        let rest = max_pending(v.painters, front);
        let n = max_pending(v.painters, ids);
        assert(n >= rest);
        assert forall|i: int| 0 <= i < ids.len() && v.painters.contains_key(ids[i]) implies v.painters[
        #[trigger] ids[i]].frames.frames.len() <= n by {
            if i < front.len() {
                assert(front[i] == ids[i]);
            }
        }
        if n > 0 {
            if n == rest {
                let i = choose|i: int|
                    0 <= i < front.len() && v.painters.contains_key(front[i])
                        && v.painters[#[trigger] front[i]].frames.frames.len() == rest;
                assert(ids[i] == front[i]);
            } else {
                assert(v.painters[ids[ids.len() - 1]].frames.frames.len() == n);
            }
        }
    }
}

/// Whether a request is held back, and by what: first by a web view of it that waits for a frame, then by a
/// painter of it with a full queue, then by a web view whose last frame is less than the interval ago;
/// of several web views, by the first.
pub proof fn law_request_is_held_back_by_what_is_under_way(
    v: PaintView,
    request: RequestView,
    now: u64,
)
    requires
        v.config.mode == WallFramePacingMode::Latest,
        request.painters.len() > 1,
        request.webviews.len() > 0,
    ensures
        ({
            let waits = exists|w: u64| #[trigger]
                request.webviews.contains(w) && v.coordinator.active.contains_key(w);
            let full = max_pending(v.painters, request.painters) >= v.config.max_pending;
            let soon = exists|w: u64| #[trigger]
                request.webviews.contains(w) && v.last_issue.contains_key(w) && since(
                    now,
                    v.last_issue[w],
                ) < v.config.min_interval_ns;
            let r = v.block_reason(request, now);
            &&& r is None <==> !waits && !full && !soon
            &&& r is Some && r->0 is Active <==> waits
            &&& r is Some && r->0 is Pending <==> !waits && full
            &&& r is Some && r->0 is TooSoon <==> !waits && !full && soon
            &&& waits ==> request.webviews.contains(r->0->Active_0)
                && v.coordinator.active.contains_key(r->0->Active_0) && exists|k: int|
                0 <= k < request.webviews.len() && #[trigger] request.webviews[k] == r->0->Active_0
                    && forall|j: int|
                    0 <= j < k ==> !v.coordinator.active.contains_key(
                        #[trigger] request.webviews[j],
                    )
            &&& !waits && full ==> r->0->Pending_0 == max_pending(
                v.painters,
                request.painters,
            ) as usize
            &&& !waits && !full && soon ==> request.webviews.contains(r->0->TooSoon_0)
                && v.last_issue.contains_key(r->0->TooSoon_0) && r->0->TooSoon_1 == since(
                now,
                v.last_issue[r->0->TooSoon_0],
            ) && r->0->TooSoon_1 < v.config.min_interval_ns
        }),
{
    let active = |w: u64| v.coordinator.active.contains_key(w);
    let soon = |w: u64| v.too_soon(w, now);
    lemma_first_passes(request.webviews, active);
    lemma_first_passes(request.webviews, soon);
    if let Some(w) = first_in(request.webviews, active) {
        let k = choose|k: int|
            0 <= k < request.webviews.len() && #[trigger] request.webviews[k] == w && forall|j: int|
                0 <= j < k ==> !active(#[trigger] request.webviews[j]);
        assert forall|j: int| 0 <= j < k implies !v.coordinator.active.contains_key(
            #[trigger] request.webviews[j],
        ) by {
            assert(!active(request.webviews[j]));
        }
    }
}

/// How long ago something was; nothing, where it lies ahead.
pub proof fn law_time_passed(now: u64, start: u64)
    ensures
        now >= start ==> start + since(now, start) == now,
        now < start ==> since(now, start) == 0,
{
}

/// What remains of an interval ends with it, and is nothing once it has passed.
pub proof fn law_rest_of_an_interval(interval: u64, elapsed: u64)
    ensures
        elapsed <= interval ==> elapsed + remaining(interval, elapsed) == interval,
        elapsed > interval ==> remaining(interval, elapsed) == 0,
{
}

/// A request that is held takes the place of the one before it for the same web view, and counts all that it
/// stands for. Where it came too soon the loop wakes when the interval has passed, or earlier. The
/// painters, their frames and what others hold stay as they are.
pub proof fn law_held_request_changes_nothing_else(
    v: PaintView,
    request: RequestView,
    reason: WallFramePacingBlockReason,
    now: u64,
    other: u64,
)
    requires
        request.webviews.len() > 0,
    ensures
        ({
            let key = request.webviews[0];
            let after = v.holding(request, reason, now);
            let n = pending_of(v, request, reason);
            &&& after.held.contains_key(key) && after.held[key].request == request
            &&& v.held.contains_key(key) ==> after.held[key].count
                == v.held[key].count.wrapping_add(1) && after.held[key].max_pending >= n
                && after.held[key].max_pending >= v.held[key].max_pending && (
            after.held[key].max_pending == n || after.held[key].max_pending
                == v.held[key].max_pending)
            &&& !v.held.contains_key(key) ==> after.held[key].count == 1
                && after.held[key].max_pending == n
            &&& other != key ==> (after.held.contains_key(other) <==> v.held.contains_key(other))
                && (v.held.contains_key(other) ==> after.held[other] == v.held[other])
            &&& after.held_count == v.held_count.wrapping_add(1)
            &&& !(reason is TooSoon) ==> after.next_wake == v.next_wake
            &&& reason is TooSoon && reason->TooSoon_1 <= v.config.min_interval_ns && now
                + v.config.min_interval_ns <= u64::MAX ==> after.next_wake is Some
                && after.next_wake->0 <= now + v.config.min_interval_ns - reason->TooSoon_1 && (
            v.next_wake is Some ==> after.next_wake->0 <= v.next_wake->0) && (after.next_wake
                == v.next_wake || after.next_wake->0 == now + v.config.min_interval_ns
                - reason->TooSoon_1)
            &&& after.painters == v.painters && after.order == v.order && after.targets
                == v.targets && after.coordinator == v.coordinator && after.last_frame
                == v.last_frame && after.last_issue == v.last_issue && after.released_count
                == v.released_count
        }),
{
}

/// What is told of a held request: for which web view, why, how long the longest queue is, and how many
/// requests it stands for.
pub proof fn law_held_request_is_told(
    v: PaintView,
    request: RequestView,
    reason: WallFramePacingBlockReason,
    now: u64,
)
    requires
        request.webviews.len() > 0,
    ensures
        ({
            let h = held_by(v, request, reason, now);
            let key = request.webviews[0];
            &&& h.webview_id == key && h.reason == reason
            &&& reason is Pending ==> h.pending_max == reason->Pending_0
            &&& !(reason is Pending) ==> h.pending_max == max_pending(
                v.painters,
                request.painters,
            ) as usize
            &&& v.held.contains_key(key) ==> h.coalesced_for_webview
                == v.held[key].count.wrapping_add(1)
            &&& !v.held.contains_key(key) ==> h.coalesced_for_webview == 1
            &&& h.total_coalesced == v.held_count.wrapping_add(1)
            &&& h.wake_after is Some ==> reason is TooSoon && h.wake_after->0 == remaining(
                v.config.min_interval_ns,
                reason->TooSoon_1,
            )
            &&& reason is TooSoon && v.next_wake is None ==> h.wake_after is Some
        }),
{
}

/// Each reason counts for itself.
pub proof fn law_reasons_are_counted_apart(
    t: WallFramePacingBlockTally,
    reason: WallFramePacingBlockReason,
)
    ensures
        t.recorded(reason).active == (if reason is Active {
            t.active.wrapping_add(1)
        } else {
            t.active
        }),
        t.recorded(reason).pending == (if reason is Pending {
            t.pending.wrapping_add(1)
        } else {
            t.pending
        }),
        t.recorded(reason).too_soon == (if reason is TooSoon {
            t.too_soon.wrapping_add(1)
        } else {
            t.too_soon
        }),
{
}

/// A frame that is issued has the next number. The painters of the request are asked for it, and only they
/// change. It waits for those that take part where they are more than one; then the web views of the
/// request were issued now. What is held stays held.
pub proof fn law_issued_frame_asks_its_painters(
    v: PaintView,
    request: RequestView,
    now: u64,
    p: u64,
    w: u64,
)
    ensures
        ({
            let after = v.issued(request, now);
            let frame = v.last_frame.wrapping_add(1);
            let part = v.participants(request.painters, frame, now);
            &&& after.last_frame == frame
            &&& after.painters.contains_key(p) <==> v.painters.contains_key(p)
            &&& v.painters.contains_key(p) && request.painters.contains(p) ==> after.painters[p]
                == v.painters[p].script_frame(frame, now, now).0
            &&& v.painters.contains_key(p) && !request.painters.contains(p) ==> after.painters[p]
                == v.painters[p]
            &&& part.contains(p) <==> request.painters.contains(p) && v.painters.contains_key(p)
                && v.painters[p].script_frame(frame, now, now).1
            &&& part.len() > 1 ==> after.coordinator.barriers.contains_key(frame)
                && after.coordinator.barriers[frame].expected == part
                && after.coordinator.barriers[frame].webview_ids == request.webviews
                && after.coordinator.barriers[frame].requested_at == now
            &&& part.len() > 1 && request.webviews.contains(w) ==> after.last_issue.contains_key(w)
                && after.last_issue[w] == now
            &&& part.len() <= 1 || !request.webviews.contains(w) ==> (after.last_issue.contains_key(
                w,
            ) <==> v.last_issue.contains_key(w)) && (v.last_issue.contains_key(w)
                ==> after.last_issue[w] == v.last_issue[w])
            &&& part.len() <= 1 ==> after.coordinator.barriers == v.coordinator.barriers
                && after.coordinator.active == v.coordinator.active
            &&& after.held == v.held && after.next_wake == v.next_wake && after.targets == v.targets
                && after.order == v.order && after.held_count == v.held_count
                && after.released_count == v.released_count
        }),
{
    let frame = v.last_frame.wrapping_add(1);
    lemma_filter_contains(request.painters, |q: u64| v.takes_part(q, frame, now), p);
    crate::wall_frame_laws::law_newer_frame_ends_keep_previous(
        v.coordinator,
        frame,
        request.painters,
    );
}

/// A held request is let go where nothing holds it back any more: it is not held then, its frame is issued,
/// and the release is counted.
pub proof fn law_released_request_is_issued(v: PaintView, webview: u64, other: u64, now: u64)
    requires
        v.held.contains_key(webview),
    ensures
        v.can_release(webview, now) <==> v.block_reason(v.held[webview].request, now) is None,
        ({
            let after = v.released_one(webview, now);
            &&& !after.held.contains_key(webview)
            &&& other != webview ==> (after.held.contains_key(other) <==> v.held.contains_key(other))
                && (v.held.contains_key(other) ==> after.held[other] == v.held[other])
            &&& after.released_count == v.released_count.wrapping_add(1)
            &&& after.last_frame == v.last_frame.wrapping_add(1)
            &&& after.painters == v.issued(v.held[webview].request, now).painters
            &&& after.coordinator == v.issued(v.held[webview].request, now).coordinator
            &&& after.last_issue == v.issued(v.held[webview].request, now).last_issue
        }),
{
    let request = v.held[webview].request;
    let frame = v.last_frame.wrapping_add(1);
    let mid = PaintView {
        held: v.held.remove(webview),
        released_count: v.released_count.wrapping_add(1),
        ..v
    };
    assert(mid.participants(request.painters, frame, now) =~= v.participants(
        request.painters,
        frame,
        now,
    )) by {
        lemma_same_filter(
            request.painters,
            |q: u64| mid.takes_part(q, frame, now),
            |q: u64| v.takes_part(q, frame, now),
        );
    }
    assert(mid.scripted(request.painters, frame, now) =~= v.scripted(
        request.painters,
        frame,
        now,
    ));
    assert(v.released_one(webview, now).last_issue =~= v.issued(request, now).last_issue);
}

/// Two tests that agree keep the same ids.
proof fn lemma_same_filter(ids: Seq<u64>, a: spec_fn(u64) -> bool, b: spec_fn(u64) -> bool)
    requires
        forall|x: u64| #[trigger] a(x) == b(x),
    ensures
        ids.filter(a) == ids.filter(b),
    decreases ids.len(),
{
    reveal(Seq::filter);
    if ids.len() > 0 {
        lemma_same_filter(ids.drop_last(), a, b);
        assert(a(ids.last()) == b(ids.last()));
    }
}

/// A wake that was scheduled is over once its time has come, and not before.
pub proof fn law_wake_is_over_when_its_time_has_come(v: PaintView, now: u64)
    ensures
        v.next_wake is Some && v.next_wake->0 <= now ==> v.woken(now).next_wake is None,
        v.next_wake is None || v.next_wake->0 > now ==> v.woken(now).next_wake == v.next_wake,
        v.woken(now) == (PaintView { next_wake: v.woken(now).next_wake, ..v }),
{
}

/// Held requests are let go one after the other, each where nothing holds it back after those before it.
pub proof fn law_requests_are_let_go_in_turn(v: PaintView, order: Seq<u64>, next: u64, now: u64)
    ensures
        v.released_in(order.push(next), now) == v.released_in(order, now).released_one(next, now),
        v.releasable_in(order.push(next), now) <==> v.releasable_in(order, now) && v.released_in(
            order,
            now,
        ).held.contains_key(next) && v.released_in(order, now).block_reason(
            v.released_in(order, now).held[next].request,
            now,
        ) is None,
        v.released_in(Seq::empty(), now) == v,
        v.releasable_in(Seq::empty(), now),
{
    assert(order.push(next).drop_last() =~= order);
}

/// What is sent for a frame: its number, and for each painter that takes part, in the order of the request, a
/// transaction that ends with the frame and the pipelines that it answers. The web views are
/// compared where the request asks more than one painter.
pub proof fn law_issued_frame_is_sent_to_its_painters(
    v: PaintView,
    request: RequestView,
    now: u64,
    r: IssuedFrame,
    i: int,
    w: u64,
)
    requires
        issued_by(v, request, now, r),
    ensures
        r.logical_frame_id == v.last_frame.wrapping_add(1),
        r.frames@.len() == v.participants(request.painters, r.logical_frame_id, now).len(),
        0 <= i < r.frames@.len() ==> {
            let f = r.frames@[i];
            &&& f.0 == v.participants(request.painters, r.logical_frame_id, now)[i]
            &&& f.1.transaction@.len() > 0 && f.1.transaction@.last() is GenerateFrame
            &&& f.1.acknowledged@.contains(w) <==> v.painters[f.0].delayer.waiting.contains(w)
        },
        request.painters.len() > 1 ==> r.compared@ == request.webviews,
        request.painters.len() <= 1 ==> r.compared@.len() == 0,
{
    let ids = r.frames@.map_values(|f: (u64, ScriptFrame)| f.0);
    let part = v.participants(request.painters, r.logical_frame_id, now);
    assert(ids.len() == r.frames@.len());
    if 0 <= i < r.frames@.len() {
        let f = r.frames@[i];
        assert(ids[i] == f.0);
        assert(sends(v.painters[f.0], f.1));
        let t = f.1.transaction@;
        assert(t.skip(0) =~= t);
        assert(f.1.acknowledged@.to_set().contains(w) <==> f.1.acknowledged@.contains(w));
    }
}

/// What is told of a request that was let go: its frame, how many requests it stood for, the longest queue it
/// met, and how many were let go.
pub proof fn law_released_request_is_told(v: PaintView, now: u64, f: ReleasedFrame)
    requires
        released_by(v, now, f),
    ensures
        f.issued.logical_frame_id == v.last_frame.wrapping_add(1),
        f.coalesced_count == v.held[f.webview_id].count,
        f.max_pending_seen == v.held[f.webview_id].max_pending,
        f.total_released == v.released_count.wrapping_add(1),
        issued_by(v, v.held[f.webview_id].request, now, f.issued),
{
}

} // verus!
