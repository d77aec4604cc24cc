//! Laws of one painter: when it sends a frame and what the frame carries, what it waits for, and
//! what a frame that is ready changes.

use crate::composite_latch::CompositeLatch;
use crate::frame_delayer::DelayerView;
use crate::frame_queue::{FrameQueueView, FrameReason};
use crate::paint_metrics::{PaintMetricState, PipelineMetrics};
use crate::painter::{
    extends_by_frame, tells, ImageUpdate, PainterView, TransactionOp, WebViewView,
};
use crate::painter_input::{fonts_removed, InputKind};
use crate::painter_webviews::{
    is_nought, paints_in_order, pipeline_or_fresh, scrolled, zoom_and_scroll, ScrollNode,
};
use crate::resize_rebuild::{ResizeRebuild, ResizeTick};
use vstd::prelude::*;

verus! {

/// The renderer has not answered the last composite, and has had less than two seconds for it.
pub open spec fn renderer_is_busy(g: CompositeLatch, now: u64) -> bool {
    g.in_flight && (g.since is None || now - g.since->0 < 2_000_000_000)
}

/// A composite closes the latch from the moment it is sent until it is answered, and for two seconds at
/// most; one that is sent while another is under way changes nothing.
pub proof fn law_latch_is_closed_while_a_composite_is_under_way(
    g: CompositeLatch,
    now: u64,
)
    ensures
        g.behind(now) <==> renderer_is_busy(g, now),
        g.in_flight ==> g.set_to(true, now) == g,
        !g.in_flight ==> g.set_to(true, now).in_flight && g.set_to(true, now).since == Some(now),
        !g.set_to(false, now).in_flight && g.set_to(false, now).since is None,
        g.in_flight && !renderer_is_busy(g, now) ==> !g.asked(now).in_flight && g.asked(
            now,
        ).since is None,
        !g.in_flight || renderer_is_busy(g, now) ==> g.asked(now) == g,
{
}

/// A frame that is requested is the last of the queue, with the next number and all that was said of it; it
/// overlaps where another is still under way.
pub proof fn law_requested_frame_is_the_last(
    q: FrameQueueView,
    wall: Option<u64>,
    wall_at: Option<u64>,
    now: u64,
    reason: FrameReason,
    i: int,
)
    ensures
        ({
            let after = q.requested(wall, wall_at, now, reason);
            let f = after.frames.last();
            &&& after.frames.len() == q.frames.len() + 1
            &&& 0 <= i < q.frames.len() ==> after.frames[i] == q.frames[i]
            &&& f.local_frame_id == q.last_id.wrapping_add(1) && after.last_id == f.local_frame_id
            &&& f.wall_logical_frame_id == wall && f.wall_requested_at == wall_at && f.requested_at
                == now && f.reason == reason
            &&& q.frames.len() > 0 ==> after.overlapping == q.overlapping.wrapping_add(1)
            &&& q.frames.len() == 0 ==> after.overlapping == q.overlapping
            &&& after.ready_local == q.ready_local && after.ready_wall == q.ready_wall
                && after.unexpected == q.unexpected
        }),
{
}

/// A frame that is ready is the one that was requested first; its wait is the time since then. One that
/// nobody asked for is counted as unexpected, and tells nothing.
pub proof fn law_ready_frame_is_the_first(
    q: FrameQueueView,
    painter_id: u64,
    now: u64,
    need_repaint: bool,
    i: int,
)
    ensures
        ({
            let (after, told) = q.ready(painter_id, now, need_repaint);
            &&& q.frames.len() == 0 ==> told is None && after.unexpected
                == q.unexpected.wrapping_add(1) && after.frames == q.frames && after.ready_local
                == q.ready_local && after.ready_wall == q.ready_wall
            &&& q.frames.len() > 0 ==> {
                let f = q.frames[0];
                &&& told is Some
                &&& told->0.painter_id == painter_id && told->0.local_frame_id == f.local_frame_id
                    && told->0.wall_logical_frame_id == f.wall_logical_frame_id && told->0.ready_at
                    == now && told->0.need_repaint == need_repaint
                &&& now >= f.requested_at ==> told->0.wait_ns == now - f.requested_at
                &&& now < f.requested_at ==> told->0.wait_ns == 0
                &&& after.frames.len() == q.frames.len() - 1
                &&& 0 <= i < after.frames.len() ==> after.frames[i] == q.frames[i + 1]
                &&& after.ready_local == Some(f.local_frame_id)
                &&& f.wall_logical_frame_id is Some ==> after.ready_wall == f.wall_logical_frame_id
                &&& f.wall_logical_frame_id is None ==> after.ready_wall == q.ready_wall
                &&& after.unexpected == q.unexpected
            }
            &&& after.last_id == q.last_id && after.overlapping == q.overlapping
        }),
{
}

/// A frame is due where one is pending and no image is waited for. An image is waited for until it has come
/// in the epoch that is needed, or a later one, or was deleted.
pub proof fn law_images_are_waited_for(
    d: DelayerView,
    key: u64,
    epoch: u64,
    pipeline: u64,
    keys: Seq<u64>,
    k: u64,
    p: u64,
)
    ensures
        d.needs_new_frame() <==> d.pending_frame && forall|i: u64|
            !#[trigger] d.pending.contains_key(i),
        ({
            let after = d.updated(key, epoch);
            &&& after.epochs.contains_key(key) && after.epochs[key] == epoch
            &&& k != key ==> (after.epochs.contains_key(k) <==> d.epochs.contains_key(k)) && (
            d.epochs.contains_key(k) ==> after.epochs[k] == d.epochs[k])
            &&& after.pending.contains_key(k) <==> d.pending.contains_key(k) && !(k == key
                && d.pending[k] <= epoch)
            &&& after.pending.contains_key(k) ==> after.pending[k] == d.pending[k]
            &&& after.waiting == d.waiting && after.pending_frame == d.pending_frame
        }),
        ({
            let after = d.delayed(pipeline, epoch, keys);
            let came = d.epochs.contains_key(k) && d.epochs[k] >= epoch;
            &&& keys.contains(k) && !came ==> after.pending.contains_key(k) && after.pending[k]
                == epoch
            &&& !keys.contains(k) || came ==> (after.pending.contains_key(k)
                <==> d.pending.contains_key(k)) && (d.pending.contains_key(k) ==> after.pending[k]
                == d.pending[k])
            &&& after.waiting.contains(p) <==> d.waiting.contains(p) || p == pipeline
            &&& after.epochs == d.epochs && after.pending_frame == d.pending_frame
        }),
        ({
            let after = d.deleted(key);
            &&& after.epochs.contains_key(k) <==> d.epochs.contains_key(k) && k != key
            &&& after.pending.contains_key(k) <==> d.pending.contains_key(k) && k != key
            &&& after.epochs.contains_key(k) ==> after.epochs[k] == d.epochs[k]
            &&& after.pending.contains_key(k) ==> after.pending[k] == d.pending[k]
            &&& after.waiting == d.waiting && after.pending_frame == d.pending_frame
        }),
        !d.told().waiting.contains(p),
        d.told().pending == d.pending && d.told().epochs == d.epochs && d.told().pending_frame
            == d.pending_frame,
        d.with_pending_frame(true).pending_frame && !d.with_pending_frame(false).pending_frame,
{
    if d.pending.is_empty() {
        assert(d.pending =~= Map::<u64, u64>::empty());
    } else {
        if forall|i: u64| !#[trigger] d.pending.contains_key(i) {
            assert(d.pending =~= Map::<u64, u64>::empty());
        }
    }
}

/// When a painter sends a frame for the script: where one is due, the renderer has answered the last one,
/// and no acknowledgement is withheld. A frame that is sent is queued with the wall frame it is for,
/// carries the pending video frames, acknowledges every waiting pipeline and closes the latch. One
/// that is not sent leaves all that for later.
pub proof fn law_frame_is_sent_when_it_can_be_shown(
    p: PainterView,
    wall: Option<u64>,
    wall_at: Option<u64>,
    now: u64,
)
    ensures
        ({
            let due = p.delayer.pending_frame && p.delayer.pending.is_empty();
            let withheld = p.skips_left > 0 && !p.delayer.waiting.is_empty();
            let (after, sent) = p.paced_composite(wall, wall_at, now);
            &&& sent <==> due && !renderer_is_busy(p.gate, now) && !withheld
            &&& sent ==> {
                &&& after.frames.frames.len() == p.frames.frames.len() + 1
                &&& after.frames.frames.last().wall_logical_frame_id == wall
                &&& after.frames.frames.last().wall_requested_at == wall_at
                &&& after.frames.frames.last().requested_at == now
                &&& after.frames.frames.last().reason == FrameReason::Scene
                &&& after.video.is_empty()
                &&& after.delayer.waiting.is_empty() && !after.delayer.pending_frame
                &&& after.gate.in_flight
                &&& after.skips_left == p.skips_left
            }
            &&& !sent ==> {
                &&& after.frames == p.frames && after.video == p.video && after.delayer == p.delayer
                &&& due && !renderer_is_busy(p.gate, now) && withheld ==> after.skips_left + 1
                    == p.skips_left
                &&& !due || renderer_is_busy(p.gate, now) || !withheld ==> after.skips_left
                    == p.skips_left
            }
            &&& after.webviews == p.webviews && after.cache == p.cache && after.needs_repaint
                == p.needs_repaint && after.last_video == p.last_video && after.video_owed
                == p.video_owed
        }),
        ({
            let (after, sent) = p.script_frame(wall->0, wall_at->0, now);
            sent <==> p.delayer.pending.is_empty() && !renderer_is_busy(p.gate, now) && !(
            p.skips_left > 0 && !p.delayer.waiting.is_empty())
        }),
{
    law_latch_is_closed_while_a_composite_is_under_way(p.gate, now);
}

/// What an image update does. A new picture is added, and kept where it is an animation that the renderer is
/// handed as it is; a deleted one is forgotten everywhere; one with an epoch is updated at once and
/// ends the wait for it; a video frame waits for the next frame; and an animation shows the kept
/// picture, where there is one.
pub proof fn law_image_update_does_what_it_says(p: PainterView, update: ImageUpdate)
    ensures
        ({
            let (after, ops, is_video) = p.stage_one(update);
            &&& is_video <==> update is UpdateImage && update->UpdateImage_epoch is None
            &&& update matches ImageUpdate::AddImage { key, data, raw, animated } ==> ops == seq![
                TransactionOp::AddImage { key, data },
            ] && (raw && animated ==> after.cache == p.cache.insert(key, data)) && (!raw || !animated
                ==> after.cache == p.cache) && after.video == p.video && after.delayer == p.delayer
            &&& update matches ImageUpdate::DeleteImage { key } ==> ops == seq![
                TransactionOp::DeleteImage { key },
            ] && !after.cache.contains_key(key) && !after.video.contains_key(key)
                && !after.delayer.pending.contains_key(key) && !after.delayer.epochs.contains_key(key)
                && after.cache == p.cache.remove(key) && after.video == p.video.remove(key)
            &&& update matches ImageUpdate::UpdateImage { key, data, epoch: Some(epoch) } ==> ops
                == seq![TransactionOp::UpdateImage { key, data }] && after.delayer.epochs
                == p.delayer.epochs.insert(key, epoch) && after.video == p.video && after.cache
                == p.cache
            &&& update matches ImageUpdate::UpdateImage { key, data, epoch: None } ==> ops.len() == 0
                && after.video == p.video.insert(key, data) && after.cache == p.cache && after.delayer
                == p.delayer
            &&& update matches ImageUpdate::UpdateImageForAnimation { key, desc } ==> after == p && (
            p.cache.contains_key(key) ==> ops == seq![
                TransactionOp::UpdateCachedImage { key, data: p.cache[key], desc },
            ]) && (!p.cache.contains_key(key) ==> ops.len() == 0)
            &&& after.frames == p.frames && after.gate == p.gate && after.webviews == p.webviews
        }),
{
}

/// Updates are carried out one after the other, in their order; a frame is owed where one of them was a
/// video frame.
pub proof fn law_updates_are_carried_out_in_order(
    p: PainterView,
    updates: Seq<ImageUpdate>,
    next: ImageUpdate,
)
    ensures
        ({
            let (mid, ops, video) = p.staged(updates);
            let (after, more, is_video) = mid.stage_one(next);
            let all = p.staged(updates.push(next));
            &&& all.0 == after
            &&& all.1 == ops + more
            &&& all.2 <==> video || is_video
        }),
        p.staged(Seq::empty()).0 == p && p.staged(Seq::empty()).1.len() == 0 && !p.staged(
            Seq::empty(),
        ).2,
{
    assert(updates.push(next).drop_last() =~= updates);
}

/// What a frame carries, after what the transaction held already: each pending video frame, once, and the
/// request for the frame last.
pub proof fn law_frame_carries_the_pending_video(
    before: Seq<TransactionOp>,
    after: Seq<TransactionOp>,
    video: Map<u64, u64>,
    reason: FrameReason,
    i: int,
    j: int,
    key: u64,
)
    requires
        extends_by_frame(before, after, video, reason),
    ensures
        after.len() > before.len(),
        0 <= i < before.len() ==> after[i] == before[i],
        after.last() == (TransactionOp::GenerateFrame { reason }),
        before.len() <= i < after.len() - 1 ==> after[i] is UpdateImage && video.contains_key(
            after[i]->UpdateImage_key,
        ) && video[after[i]->UpdateImage_key] == after[i]->UpdateImage_data,
        before.len() <= i < j < after.len() - 1 ==> after[i] != after[j],
        video.contains_key(key) ==> exists|k: int|
            before.len() <= k < after.len() - 1 && #[trigger] after[k]
                == (TransactionOp::UpdateImage { key, data: video[key] }),
{
    let rest = after.skip(before.len() as int);
    let ops = rest.drop_last();
    assert(rest.last() == after.last());
    if 0 <= i < before.len() {
        assert(after.take(before.len() as int)[i] == after[i]);
    }
    if before.len() <= i < after.len() - 1 {
        assert(ops[i - before.len()] == after[i]);
        if i < j < after.len() - 1 {
            assert(ops[j - before.len()] == after[j]);
        }
    }
    if video.contains_key(key) {
        let op = TransactionOp::UpdateImage { key, data: video[key] };
        assert(ops.contains(op));
        let k = choose|k: int| 0 <= k < ops.len() && ops[k] == op;
        assert(after[k + before.len()] == op);
    }
}

/// A video frame that arrives asks for a composite of its own once the period has passed since the last one.
/// The composite is made where the frame is not shown elsewhere, no other is under way, no script
/// makes one and the renderer is not busy; until then it is owed.
pub proof fn law_video_composite_is_owed_until_made(
    p: PainterView,
    arrived: bool,
    elsewhere: bool,
    enabled: bool,
    period: u64,
    now: u64,
)
    ensures
        ({
            let passed = p.last_video is None || now - p.last_video->0 >= period || period == 0;
            let owed = p.video_owed || (arrived && enabled && passed);
            let scripts = exists|w: u64| #[trigger]
                p.webviews.contains_key(w) && p.webviews[w].callbacks;
            let (after, made) = p.video_composite(arrived, elsewhere, enabled, period, now);
            &&& made <==> owed && !elsewhere && p.frames.frames.len() == 0 && !scripts
                && !renderer_is_busy(p.gate, now)
            &&& after.video_owed <==> owed && !made
            &&& made ==> after.last_video == Some(now) && after.frames.frames.len() == 1
                && after.frames.frames[0].reason == FrameReason::Scene
                && after.frames.frames[0].wall_logical_frame_id is None && after.video.is_empty()
                && after.gate.in_flight
            &&& !made ==> after.last_video == p.last_video && after.frames == p.frames
                && after.video == p.video
            &&& after.delayer == p.delayer && after.webviews == p.webviews
        }),
{
    law_latch_is_closed_while_a_composite_is_under_way(p.gate, now);
}

/// External pictures are presented every fourteen milliseconds at most.
pub proof fn law_external_presents_keep_their_interval(p: PainterView, fast: bool, now: u64)
    ensures
        ({
            let passed = p.last_external is None || now - p.last_external->0 >= 14_000_000;
            let after = p.external_presented(fast, now);
            &&& fast && passed ==> after.last_external == Some(now)
            &&& !fast || !passed ==> after == p
            &&& p.external_due(now) <==> passed
        }),
{
}

/// At the start of a render an owed acknowledgement is paid, where recovery is not switched off: exactly
/// where a pipeline waits, a frame is due and the renderer is not busy. Else nothing is sent.
pub proof fn law_owed_acknowledgement_is_paid(p: PainterView, disabled: bool, now: u64)
    ensures
        ({
            let owed = !p.delayer.waiting.is_empty() && p.delayer.pending_frame
                && p.delayer.pending.is_empty() && !renderer_is_busy(p.gate, now);
            let after = p.ack_flushed(disabled, now);
            &&& p.owes_ack(now) <==> owed
            &&& !disabled && owed ==> after.frames.frames.len() == p.frames.frames.len() + 1
                && after.delayer.waiting.is_empty() && !after.delayer.pending_frame
                && after.video.is_empty() && after.gate.in_flight
            &&& disabled || !owed ==> after.frames == p.frames && after.delayer == p.delayer
                && after.video == p.video && after.flush == p.flush
            &&& disabled ==> after == p
        }),
{
    law_latch_is_closed_while_a_composite_is_under_way(p.gate, now);
}

/// Paid acknowledgements are counted, and told once a second with the time they took.
pub proof fn law_paid_acknowledgements_are_told_every_second(p: PainterView, now: u64)
    ensures
        ({
            let (after, told) = p.flush_counted(now);
            let n = p.flush.count.wrapping_add(1);
            let start = if p.flush.window_start is Some {
                p.flush.window_start->0
            } else {
                now
            };
            &&& now - start >= 1_000_000_000 ==> told == Some((n, (now - start) as u64))
                && after.flush.count == 0 && after.flush.window_start == Some(now)
            &&& now - start < 1_000_000_000 ==> told is None && after.flush.count == n
                && after.flush.window_start == Some(start)
            &&& after == (PainterView { flush: after.flush, ..p })
        }),
{
}

/// A pipeline that waits for more than a second is told of, once a second; while none waits, nothing is.
pub proof fn law_long_waits_are_told_every_second(p: PainterView, now: u64)
    ensures
        ({
            let (after, told) = p.latch_checked(now);
            let waits = !p.delayer.waiting.is_empty();
            let since_start = p.latch.held_since is Some && now - p.latch.held_since->0
                >= 1_000_000_000;
            let since_last = p.latch.last_report is None || now - p.latch.last_report->0
                >= 1_000_000_000;
            &&& told is Some <==> waits && since_start && since_last
            &&& told is Some ==> told->0.held_ns == now - p.latch.held_since->0
                && told->0.pending_frame == p.delayer.pending_frame && told->0.pending_images
                == p.delayer.pending.len() as usize && (told->0.renderer_behind
                <==> renderer_is_busy(p.gate, now)) && after.latch.last_report == Some(now)
                && after.latch.held_since == p.latch.held_since
            &&& !waits ==> after.latch.held_since is None && after.latch.last_report is None
            &&& waits && p.latch.held_since is None ==> after.latch.held_since == Some(now)
            &&& waits && told is None && p.latch.held_since is Some ==> after.latch == p.latch
            &&& after.frames == p.frames && after.delayer == p.delayer && after.video == p.video
        }),
{
    law_latch_is_closed_while_a_composite_is_under_way(p.gate, now);
}

/// A reason to repaint is added to those that are there.
pub proof fn law_reasons_to_repaint_add_up(p: PainterView, reason: u8)
    ensures
        p.repaint_for(reason).needs_repaint & reason == reason,
        p.repaint_for(reason).needs_repaint & p.needs_repaint == p.needs_repaint,
        p.repaint_for(reason).needs_repaint & !(p.needs_repaint | reason) == 0,
        p.repaint_for(reason) == (PainterView {
            needs_repaint: p.repaint_for(reason).needs_repaint,
            ..p
        }),
        p.wants_repaint() <==> p.needs_repaint != 0 && (p.observers.len() == 0
            || !p.waiting_for_frame),
{
    let n = p.needs_repaint;
    assert((n | reason) & reason == reason) by (bit_vector);
    assert((n | reason) & n == n) by (bit_vector);
    assert((n | reason) & !(n | reason) == 0) by (bit_vector);
}

/// A frame that is ready is taken off the queue; one that needs no repaint is answered by that, and opens
/// the latch. While a resize settles the painter goes on repainting.
pub proof fn law_ready_frame_is_taken_off_the_queue(
    p: PainterView,
    need_repaint: bool,
    rebuild_disabled: bool,
    now: u64,
)
    ensures
        ({
            let (after, told) = p.frame_ready(need_repaint, rebuild_disabled, now);
            &&& p.frames.frames.len() > 0 ==> after.frames.frames.len() == p.frames.frames.len() - 1
                && told.diagnostic is Some && told.diagnostic->0.local_frame_id
                == p.frames.frames[0].local_frame_id && told.diagnostic->0.painter_id
                == p.painter_id && told.diagnostic->0.need_repaint == need_repaint
                && told.diagnostic->0.ready_at == now
            &&& p.frames.frames.len() == 0 ==> told.diagnostic is None
            &&& need_repaint ==> after.gate == p.gate
            &&& !need_repaint ==> !after.gate.in_flight
            &&& told.resize == ResizeTick::Waiting ==> after.needs_repaint & crate::painter::RESIZE
                == crate::painter::RESIZE
            &&& told.resize != ResizeTick::Waiting ==> after.needs_repaint == p.needs_repaint
            &&& after.delayer == p.delayer && after.video == p.video && after.webviews == p.webviews
        }),
{
    let n = p.needs_repaint;
    let r = crate::painter::RESIZE;
    assert((n | r) & r == r) by (bit_vector);
}

/// A painter is repainted where its frame needs it or a script of it runs; else it stays as it is.
pub proof fn law_released_frame_is_shown(p: PainterView, needed: bool)
    ensures
        ({
            let scripts = exists|w: u64| #[trigger]
                p.webviews.contains_key(w) && p.webviews[w].callbacks;
            &&& needed || scripts ==> p.released(needed).needs_repaint == p.needs_repaint | 4
            &&& !needed && !scripts ==> p.released(needed) == p
            &&& p.released(needed) == (PainterView {
                needs_repaint: p.released(needed).needs_repaint,
                ..p
            })
        }),
{
}

/// Renders are counted; a render that ended leaves nothing to repaint and opens the latch, and changes
/// nothing else.
pub proof fn law_render_is_counted_and_ends(p: PainterView, disabled: bool, now: u64)
    ensures
        p.render_started(disabled, now).render_count == p.render_count.wrapping_add(1),
        p.render_started(disabled, now).needs_repaint == p.needs_repaint,
        p.render_ended(now).needs_repaint == 0,
        !p.render_ended(now).gate.in_flight && p.render_ended(now).gate.since is None,
        p.render_ended(now) == (PainterView {
            needs_repaint: 0,
            gate: p.render_ended(now).gate,
            ..p
        }),
{
}

/// The mouse is where it was last seen over a web view that is there; touch does not move it, and once it has
/// left it is nowhere. The cursor is that of the topmost pipeline under it.
pub proof fn law_mouse_is_where_it_was_last_seen(
    p: PainterView,
    webview: u64,
    event: InputKind,
    hits: Seq<u64>,
)
    ensures
        ({
            let after = p.input_noted(webview, event);
            &&& !p.webviews.contains_key(webview) ==> after == p
            &&& p.webviews.contains_key(webview) && event is MouseMove && !event->for_touch
                ==> after.mouse == Some(event->point)
            &&& event is MouseMove && event->for_touch ==> after == p
            &&& p.webviews.contains_key(webview) && event is MouseLeftViewport ==> after.mouse is None
            &&& event is Other ==> after == p
            &&& after == (PainterView { mouse: after.mouse, ..p })
        }),
        p.cursor_pipeline(hits) is Some <==> p.mouse is Some && hits.len() > 0,
        p.cursor_pipeline(hits) is Some ==> p.cursor_pipeline(hits)->0 == hits[0],
{
}

/// Fonts are removed after the instances that are made of them; each is removed once for each time it is
/// named.
pub proof fn law_instances_go_before_their_fonts(keys: Seq<u64>, instances: Seq<u64>, i: int)
    ensures
        fonts_removed(keys, instances).len() == keys.len() + instances.len(),
        0 <= i < instances.len() ==> fonts_removed(keys, instances)[i]
            == (TransactionOp::DeleteFontInstance { key: instances[i] }),
        instances.len() <= i < keys.len() + instances.len() ==> fonts_removed(keys, instances)[i]
            == (TransactionOp::DeleteFont { key: keys[i - instances.len()] }),
{
}

/// A zoom rebuilds the root first; then every scroll offset is set, in its order.
pub proof fn law_zoom_comes_before_scrolling(zoom: bool, offsets: Seq<u64>, i: int)
    ensures
        zoom ==> zoom_and_scroll(zoom, offsets).len() == offsets.len() + 1 && zoom_and_scroll(
            zoom,
            offsets,
        )[0] == TransactionOp::RootDisplayList,
        zoom && 0 <= i < offsets.len() ==> zoom_and_scroll(zoom, offsets)[i + 1]
            == (TransactionOp::ScrollOffset { offset: offsets[i] }),
        !zoom ==> zoom_and_scroll(zoom, offsets).len() == offsets.len(),
        !zoom && 0 <= i < offsets.len() ==> zoom_and_scroll(zoom, offsets)[i]
            == (TransactionOp::ScrollOffset { offset: offsets[i] }),
{
}

/// A node is listed as scrolled where it has an id and an offset that is not nought in both directions,
/// whatever the sign of the nought; they are listed in the order of the nodes.
pub proof fn law_scrolled_nodes_are_listed(nodes: Seq<ScrollNode>, n: ScrollNode)
    ensures
        ({
            let moved = n.external_id is Some && n.offset is Some && !(((n.offset->0).0 == 0
                || (n.offset->0).0 == 0x8000_0000) && ((n.offset->0).1 == 0 || (n.offset->0).1
                == 0x8000_0000));
            &&& moved ==> scrolled(nodes.push(n)) == scrolled(nodes).push(
                (n.external_id->0, n.offset->0),
            )
            &&& !moved ==> scrolled(nodes.push(n)) == scrolled(nodes)
        }),
        scrolled(Seq::empty()).len() == 0,
        is_nought(0) && is_nought(0x8000_0000) && !is_nought(0x3f80_0000),
{
    assert(nodes.push(n).drop_last() =~= nodes);
}

/// Only the named web view changes: it is there then, or gone, or hidden as asked, and all the others are as
/// they were.
pub proof fn law_webviews_change_alone(
    p: PainterView,
    id: u64,
    w: WebViewView,
    hidden: bool,
    other: u64,
)
    ensures
        p.with_webview(id, w).webviews.contains_key(id) && p.with_webview(id, w).webviews[id] == w,
        !p.without_webview(id).webviews.contains_key(id),
        p.hidden_set(id, hidden).webviews[id].hidden == hidden,
        p.hidden_set(id, hidden).webviews[id].root_pipeline_id == p.webviews[id].root_pipeline_id,
        p.hidden_set(id, hidden).webviews[id].pipelines == p.webviews[id].pipelines,
        other != id ==> (p.with_webview(id, w).webviews.contains_key(other)
            <==> p.webviews.contains_key(other)) && (p.without_webview(id).webviews.contains_key(
            other,
        ) <==> p.webviews.contains_key(other)) && (p.hidden_set(id, hidden).webviews.contains_key(
            other,
        ) <==> p.webviews.contains_key(other)),
        other != id && p.webviews.contains_key(other) ==> p.with_webview(id, w).webviews[other]
            == p.webviews[other] && p.without_webview(id).webviews[other] == p.webviews[other]
            && p.hidden_set(id, hidden).webviews[other] == p.webviews[other],
        p.without_webview(id).frames == p.frames && p.without_webview(id).delayer == p.delayer,
{
}

/// Animations of a web view that start are ticked from then on: the painter observes the frames, once, and
/// asks for the next one where nobody else does. Where nothing changed, or nothing animates,
/// nothing is asked for; a web view that is not there changes nothing.
pub proof fn law_animations_are_ticked_from_their_start(
    p: PainterView,
    id: u64,
    changed: bool,
    animating: bool,
    callbacks: bool,
)
    ensures
        ({
            let (after, told) = p.animations_changed(id, changed, animating, callbacks);
            let there = p.webviews.contains_key(id);
            let starts = there && changed && animating;
            &&& !there ==> after == p
            &&& there ==> after.webviews[id].animating == animating && after.webviews[id].callbacks
                == callbacks && after.webviews[id].hidden == p.webviews[id].hidden
            &&& told.tick <==> starts
            &&& told.ask_next_frame <==> starts && !p.animating && p.observers.len() == 0
            &&& after.animating <==> p.animating || starts
            &&& starts && !p.animating ==> after.observers.len() == p.observers.len() + 1
                && after.observers.last() == crate::painter_webviews::ANIMATION_OBSERVER
                && after.observers.drop_last() == p.observers
            &&& !starts || p.animating ==> after.observers == p.observers
            &&& after.waiting_for_frame <==> p.waiting_for_frame || told.ask_next_frame
        }),
{
    let s = p.observers.push(crate::painter_webviews::ANIMATION_OBSERVER);
    assert(s.drop_last() =~= p.observers);
}

/// A first paint is seen with the first display list that paints, and stays with it; a first contentful paint
/// with the first that also has content.
pub proof fn law_first_paints_are_seen_once(
    m: PipelineMetrics,
    epoch: u32,
    first_reflow: bool,
    paintable: bool,
    contentful: bool,
)
    ensures
        ({
            let after = m.displayed(epoch, first_reflow, paintable, contentful);
            let seen = PaintMetricState::Seen(epoch, first_reflow);
            &&& m.first_paint_metric is Waiting && paintable ==> after.first_paint_metric == seen
            &&& !(m.first_paint_metric is Waiting) || !paintable ==> after.first_paint_metric
                == m.first_paint_metric
            &&& m.first_contentful_paint_metric is Waiting && paintable && contentful
                ==> after.first_contentful_paint_metric == seen
            &&& !(m.first_contentful_paint_metric is Waiting) || !paintable || !contentful
                ==> after.first_contentful_paint_metric == m.first_contentful_paint_metric
            &&& after.largest_contentful_paint_metric == m.largest_contentful_paint_metric
                && after.display_list_epoch == m.display_list_epoch
        }),
{
}

/// A paint that was seen is reported by the first render of its epoch or a later one, and counts as sent
/// from then on. The largest contentful paint is told like the others.
pub proof fn law_seen_paints_are_reported(m: PipelineMetrics, rendered: u32)
    ensures
        ({
            let r = m.reports(rendered);
            let after = m.composited(rendered);
            let a = m.first_paint_metric;
            let b = m.first_contentful_paint_metric;
            let c = m.largest_contentful_paint_metric;
            &&& r.first_paint is Some <==> a is Seen && a->Seen_0 <= rendered
            &&& r.first_paint is Some ==> r.first_paint->0 == a->Seen_1 && after.first_paint_metric
                is Sent
            &&& r.first_paint is None ==> after.first_paint_metric == a
            &&& r.first_contentful_paint is Some <==> b is Seen && b->Seen_0 <= rendered
            &&& r.first_contentful_paint is Some ==> r.first_contentful_paint->0 == b->Seen_1
                && after.first_contentful_paint_metric is Sent
            &&& r.first_contentful_paint is None ==> after.first_contentful_paint_metric == b
            &&& r.largest_contentful_paint <==> c is Seen && c->Seen_0 <= rendered
            &&& r.largest_contentful_paint ==> after.largest_contentful_paint_metric is Sent
            &&& !r.largest_contentful_paint ==> after.largest_contentful_paint_metric == c
            &&& after.display_list_epoch == m.display_list_epoch
        }),
{
}

/// A resize of the window starts one rebuild at most; ten frames without another end it.
pub proof fn law_resize_ends_after_ten_quiet_frames(r: ResizeRebuild, disabled: bool, no_virtual: bool)
    requires
        r.stable_frames < 10,
    ensures
        ({
            let (after, start) = r.resized(disabled, no_virtual);
            &&& !r.native_active ==> after == r && start is None
            &&& r.native_active ==> after.pending && after.stable_frames == 0
            &&& start is Some <==> r.native_active && !r.pending && !disabled
            &&& start is Some ==> start->0.set_resize_active == !no_virtual && start->0.tile_size
                == r.alternate
        }),
        ({
            let (after, tick) = r.ticked(disabled);
            let settles = r.native_active && r.pending && !disabled;
            &&& !settles ==> after == r && tick is Nothing
            &&& settles && r.stable_frames < 9 ==> tick is Waiting && after.pending
                && after.stable_frames == r.stable_frames + 1
            &&& settles && r.stable_frames == 9 ==> tick == (ResizeTick::Settled {
                tile_size: r.steady,
            }) && !after.pending && after.stable_frames == 0
        }),
{
}

/// What is painted: each web view that is there, is not hidden and has a root, once, as its root pipeline,
/// in the order of the ids.
pub proof fn law_visible_webviews_are_painted(
    list: Seq<(u64, u64)>,
    webviews: Map<u64, WebViewView>,
    w: u64,
    k: int,
    l: int,
)
    requires
        paints_in_order(list, webviews),
    ensures
        (exists|i: int| 0 <= i < list.len() && (#[trigger] list[i]).0 == w)
            <==> webviews.contains_key(w) && !webviews[w].hidden && webviews[w].root_pipeline_id
            is Some,
        0 <= k < list.len() ==> webviews[list[k].0].root_pipeline_id == Some(list[k].1),
        0 <= k < l < list.len() ==> list[k].0 < list[l].0,
{
    if 0 <= k < list.len() {
        assert(webviews.contains_key(list[k].0));
    }
    if 0 <= k < l < list.len() {
        assert(webviews.contains_key(list[l].0));
    }
    if exists|i: int| 0 <= i < list.len() && (#[trigger] list[i]).0 == w {
        let i = choose|i: int| 0 <= i < list.len() && (#[trigger] list[i]).0 == w;
        assert(webviews.contains_key(list[i].0));
    }
}

/// A render reports the paints of each pipeline that is known, in its order, and remembers that it did; a
/// pipeline that is not known is passed over.
pub proof fn law_rendered_pipelines_are_reported(
    p: PainterView,
    rendered: Seq<(u64, u64, u32)>,
    w: u64,
    pipeline: u64,
    epoch: u32,
)
    ensures
        ({
            let (before, told) = p.all_metrics_reported(rendered);
            let (after, more) = p.all_metrics_reported(rendered.push((w, pipeline, epoch)));
            let known = before.webviews.contains_key(w)
                && before.webviews[w].pipelines.contains_key(pipeline);
            let m = before.webviews[w].pipelines[pipeline];
            &&& known ==> more == told.push((pipeline, m.reports(epoch)))
                && after.webviews[w].pipelines[pipeline] == m.composited(epoch)
            &&& !known ==> more == told && after == before
            &&& after.frames == before.frames && after.needs_repaint == before.needs_repaint
        }),
        p.all_metrics_reported(Seq::empty()).0 == p,
        p.all_metrics_reported(Seq::empty()).1.len() == 0,
{
    assert(rendered.push((w, pipeline, epoch)).drop_last() =~= rendered);
}

/// Only the named pipeline of the named web view changes.
pub proof fn law_pipelines_change_alone(
    p: PainterView,
    w: u64,
    pipeline: u64,
    m: PipelineMetrics,
    other_view: u64,
    other: u64,
)
    requires
        p.webviews.contains_key(w),
    ensures
        p.metrics_set(w, pipeline, m).webviews[w].pipelines[pipeline] == m,
        p.with_pipeline(w, pipeline, m).webviews[w].pipelines[pipeline] == m,
        p.knows(w, pipeline) <==> p.webviews[w].pipelines.contains_key(pipeline),
        !p.without_pipeline(w, pipeline).webviews[w].pipelines.contains_key(pipeline),
        p.knows(other_view, other) && (other_view != w || other != pipeline) ==> {
            let x = p.webviews[other_view].pipelines[other];
            &&& p.metrics_set(w, pipeline, m).webviews[other_view].pipelines[other] == x
            &&& p.with_pipeline(w, pipeline, m).webviews[other_view].pipelines[other] == x
            &&& p.without_pipeline(w, pipeline).webviews[other_view].pipelines[other] == x
        },
        p.metrics_set(w, pipeline, m).webviews[w].hidden == p.webviews[w].hidden,
        p.metrics_set(w, pipeline, m).webviews[w].root_pipeline_id
            == p.webviews[w].root_pipeline_id,
        p.webviews[w].pipelines.contains_key(pipeline) ==> pipeline_or_fresh(
            p.webviews[w],
            pipeline,
        ) == p.webviews[w].pipelines[pipeline],
        !p.webviews[w].pipelines.contains_key(pipeline) ==> {
            let f = pipeline_or_fresh(p.webviews[w], pipeline);
            f.display_list_epoch is None && f.first_paint_metric is Waiting
                && f.first_contentful_paint_metric is Waiting
                && f.largest_contentful_paint_metric is Waiting
        },
{
}

/// A new painter shows nothing, has asked for nothing and waits for nothing; so does a new web view.
pub proof fn law_new_painter_has_done_nothing(
    id: u64,
    context: u64,
    native: bool,
    steady: Option<crate::geometry::DeviceIntSize>,
    skips: u64,
    k: u64,
)
    ensures
        ({
            let p = PainterView::fresh(id, context, native, steady, skips);
            &&& p.painter_id == id && p.context == context && p.skips_left == skips
            &&& !p.webviews.contains_key(k) && !p.cache.contains_key(k) && !p.video.contains_key(k)
            &&& p.needs_repaint == 0 && p.render_count == 0 && !p.gate.in_flight && p.gate.since
                is None
            &&& p.frames.frames.len() == 0 && p.frames.last_id == 0 && p.frames.overlapping == 0
                && p.frames.unexpected == 0 && p.frames.ready_local is None && p.frames.ready_wall
                is None
            &&& p.last_video is None && !p.video_owed && p.last_external is None && p.mouse is None
            &&& !p.delayer.pending_frame && !p.delayer.pending.contains_key(k)
                && !p.delayer.epochs.contains_key(k) && !p.delayer.waiting.contains(k)
            &&& p.latch.held_since is None && p.latch.last_report is None && p.flush.count == 0
                && p.flush.window_start is None
            &&& p.resize.native_active == native && !p.resize.pending && p.resize.stable_frames == 0
                && p.resize.steady == steady
            &&& p.observers.len() == 0 && !p.waiting_for_frame && !p.animating
        }),
        ({
            let w = WebViewView::fresh();
            !w.hidden && w.root_pipeline_id is None && !w.animating && !w.callbacks
                && !w.pipelines.contains_key(k)
        }),
{
}

/// Every waiting pipeline is told, each once, and no other.
pub proof fn law_waiting_pipelines_are_told_once(told: Seq<u64>, waiting: Set<u64>, p: u64)
    requires
        tells(told, waiting),
    ensures
        told.contains(p) <==> waiting.contains(p),
        told.no_duplicates(),
{
    assert(told.to_set().contains(p) <==> told.contains(p));
}

} // verus!
