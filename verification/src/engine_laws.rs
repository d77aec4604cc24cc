//! Laws of the engine as a whole: what a web view that comes, goes or hides changes, what frames
//! that are ready lead to, and what is lent to the renderer.

use crate::frame_queue::FrameReason;
use crate::paint::{painter_of, PaintView};
use crate::paint_embedder::{
    resized_to, sends_resize, sends_viewport, starts_render, viewport_moved, ResizeRequest,
};
use crate::paint_messages::{
    coordinated, counted, recorded, repaints, settles, SettledFrames,
};
use crate::paint_pacing::ReleasedFrame;
use crate::paint_webviews::{hiding, repaints_of};
use crate::painter::{ImageUpdate, PainterView, TransactionOp};
use crate::painter_laws::{law_latch_is_closed_while_a_composite_is_under_way, renderer_is_busy};
use crate::painter_render::{FrameReleased, RenderStart};
use crate::painter_webviews::ResizePlan;
use crate::wall_frame::{CoordinatorView, FrameReadyDiagnostic};
use crate::webrender_external_images::{
    busy_count, lent_of, lock_ended, marked, unlocked, unmarked, LockOutcome,
};
use vstd::prelude::*;

verus! {

/// The number of a web view's own painter is the upper half of its id.
pub proof fn law_webview_id_names_its_painter(painter: u32, n: u32)
    ensures
        painter_of((painter as int * 0x1_0000_0000 + n) as u64) == painter,
{
    assert(0 <= painter as int * 0x1_0000_0000 + n <= u64::MAX);
}

/// A web view has the painters that were registered for it; where none was, its own. The first is the
/// primary one.
pub proof fn law_targets_of_a_webview(v: PaintView, w: u64)
    ensures
        v.targets.contains_key(w) ==> v.targets_of(w) == v.targets[w],
        !v.targets.contains_key(w) ==> v.targets_of(w).len() == 1 && v.targets_of(w)[0] == w
            / 0x1_0000_0000,
        v.targets.contains_key(w) && v.targets[w].len() > 0 ==> v.primary_of(w) == v.targets[w][0],
        !v.targets.contains_key(w) || v.targets[w].len() == 0 ==> v.primary_of(w) == w
            / 0x1_0000_0000,
{
}

/// A painter that comes is last in the order, one that is replaced keeps its place, and one that goes leaves
/// the others as they are.
pub proof fn law_painters_come_and_go_alone(v: PaintView, id: u64, p: PainterView, other: u64)
    ensures
        v.with_painter(id, p).painters.contains_key(id) && v.with_painter(id, p).painters[id] == p,
        v.painters.contains_key(id) ==> v.with_painter(id, p).order == v.order,
        !v.painters.contains_key(id) ==> v.with_painter(id, p).order == v.order.push(id),
        !v.without_painter(id).painters.contains_key(id),
        other != id ==> (v.with_painter(id, p).painters.contains_key(other)
            <==> v.painters.contains_key(other)) && (v.without_painter(id).painters.contains_key(
            other,
        ) <==> v.painters.contains_key(other)),
        other != id && v.painters.contains_key(other) ==> v.with_painter(id, p).painters[other]
            == v.painters[other] && v.without_painter(id).painters[other] == v.painters[other],
        v.with_painter(id, p).targets == v.targets && v.without_painter(id).targets == v.targets,
        v.context_known(p.context) <==> exists|q: u64|
            #![trigger v.painters.contains_key(q)]
            v.painters.contains_key(q) && v.painters[q].context == p.context,
{
    if v.context_known(p.context) {
        let q = choose|q: u64| #[trigger] v.context_found(p.context, q);
        assert(v.painters.contains_key(q));
    }
    if exists|q: u64|
        #![trigger v.painters.contains_key(q)]
        v.painters.contains_key(q) && v.painters[q].context == p.context {
        let q = choose|q: u64|
            #![trigger v.painters.contains_key(q)]
            v.painters.contains_key(q) && v.painters[q].context == p.context;
        assert(v.context_found(p.context, q));
    }
}

/// A web view that is removed goes from each of its painters, which then draws a new scene; a painter that
/// shows nothing else goes with it. Every other painter stays as it is.
pub proof fn law_removed_webview_leaves_its_painters(v: PaintView, w: u64, now: u64, p: u64)
    ensures
        ({
            let after = v.without_webview(w, now);
            let target = if v.targets.contains_key(w) {
                v.targets[w].contains(p)
            } else {
                p == w / 0x1_0000_0000
            };
            let alone = v.painters[p].webviews.remove(w).is_empty();
            &&& v.painters.contains_key(p) && !target ==> after.painters.contains_key(p)
                && after.painters[p] == v.painters[p]
            &&& v.painters.contains_key(p) && target && v.painters[p].webviews.contains_key(w)
                && !alone ==> after.painters.contains_key(p) && after.painters[p].webviews
                == v.painters[p].webviews.remove(w) && after.painters[p].frames.frames.len()
                == v.painters[p].frames.frames.len() + 1
                && after.painters[p].frames.frames.last().reason == FrameReason::Scene
            &&& v.painters.contains_key(p) && target && alone && v.painters[p].webviews.contains_key(
                w,
            ) ==> !after.painters.contains_key(p)
            &&& v.painters.contains_key(p) && target && !v.painters[p].webviews.contains_key(w)
                && !v.painters[p].webviews.is_empty() ==> after.painters.contains_key(p)
                && after.painters[p] == v.painters[p]
            &&& !v.painters.contains_key(p) ==> !after.painters.contains_key(p)
            &&& p != w && v.held.contains_key(p) ==> after.held.contains_key(p) && after.held[p]
                == v.held[p]
            &&& p != w && v.targets.contains_key(p) ==> after.targets.contains_key(p)
                && after.targets[p] == v.targets[p]
            &&& p != w && v.last_issue.contains_key(p) ==> after.last_issue.contains_key(p)
                && after.last_issue[p] == v.last_issue[p]
        }),
{
    let t = v.targets_of(w);
    if !v.targets.contains_key(w) {
        assert(t[0] == w / 0x1_0000_0000);
        assert(t.contains(p) <==> p == w / 0x1_0000_0000);
    }
}

/// A web view that is hidden or shown is so on each of its painters up to the first that does not know it;
/// a painter on which that changes draws a new scene, and is named, once; the others stay as they are.
pub proof fn law_hiding_reaches_the_painters_in_order(
    v: PaintView,
    targets: Seq<u64>,
    w: u64,
    hidden: bool,
    now: u64,
    p: u64,
)
    ensures
        ({
            let h = hiding(v.painters, targets, w, hidden, now);
            let more = hiding(v.painters, targets.push(p), w, hidden, now);
            let there = h.painters.contains_key(p);
            let knows = h.painters[p].webviews.contains_key(w);
            let changes = there && !h.failed && knows && h.painters[p].webviews[w].hidden != hidden;
            &&& changes ==> more.changed == h.changed.push(p)
                && more.painters[p].webviews[w].hidden == hidden
                && more.painters[p].frames.frames.len() == h.painters[p].frames.frames.len() + 1
            &&& !changes ==> more.changed == h.changed && more.painters == h.painters
            &&& more.seen <==> h.seen || there
            &&& more.failed <==> h.failed || (there && !knows)
            &&& forall|q: u64|
                q != p && #[trigger] h.painters.contains_key(q) ==> more.painters.contains_key(q)
                    && more.painters[q] == h.painters[q]
        }),
        hiding(v.painters, Seq::empty(), w, hidden, now).painters == v.painters,
        !hiding(v.painters, Seq::empty(), w, hidden, now).seen && !hiding(
            v.painters,
            Seq::empty(),
            w,
            hidden,
            now,
        ).failed && hiding(v.painters, Seq::empty(), w, hidden, now).changed.len() == 0,
{
    assert(targets.push(p).drop_last() =~= targets);
}

/// The painters that want to repaint a web view are those that want to repaint and show it.
pub proof fn law_repaints_are_counted(v: PaintView, ids: Seq<u64>, id: u64, w: u64)
    ensures
        repaints_of(v.painters, ids.push(id), w) == repaints_of(v.painters, ids, w) + (if v.painters[id].needs_repaint
            != 0 && (v.painters[id].observers.len() == 0 || !v.painters[id].waiting_for_frame)
            && v.painters[id].webviews.contains_key(w) {
            1int
        } else {
            0
        }),
        repaints_of(v.painters, Seq::empty(), w) == 0,
{
    assert(ids.push(id).drop_last() =~= ids);
}

/// New frames of a web view wait for their images on each of its painters, and on no other; the epoch of a
/// pipeline moves on each painter that shows the web view, and on no other.
pub proof fn law_pipelines_wait_on_their_painters(
    v: PaintView,
    w: u64,
    pipeline: u64,
    epoch: u64,
    keys: Seq<u64>,
    list_epoch: u32,
    p: u64,
)
    requires
        v.painters.contains_key(p),
    ensures
        ({
            let target = if v.targets.contains_key(w) {
                v.targets[w].contains(p)
            } else {
                p == w / 0x1_0000_0000
            };
            let delayed = v.delayed(w, pipeline, epoch, keys).painters;
            let moved = v.epoch_updated(w, pipeline, list_epoch).painters;
            &&& delayed.contains_key(p) && moved.contains_key(p)
            &&& target ==> delayed[p].delayer.waiting.contains(pipeline)
            &&& !target ==> delayed[p] == v.painters[p] && moved[p] == v.painters[p]
            &&& delayed[p].frames == v.painters[p].frames && delayed[p].webviews
                == v.painters[p].webviews
            &&& target && v.painters[p].webviews.contains_key(w) ==> moved[p].knows(w, pipeline)
                && moved[p].webviews[w].pipelines[pipeline].display_list_epoch == Some(list_epoch)
            &&& target && !v.painters[p].webviews.contains_key(w) ==> moved[p] == v.painters[p]
        }),
{
    let t = v.targets_of(w);
    if !v.targets.contains_key(w) {
        assert(t[0] == w / 0x1_0000_0000);
        assert(t.contains(p) <==> p == w / 0x1_0000_0000);
    }
}

/// A window whose size changes draws a new scene and repaints; its document gets the new size. One whose
/// size is the same does nothing.
pub proof fn law_new_size_draws_a_new_scene(
    p: PainterView,
    r: ResizeRequest,
    plan: Option<ResizePlan>,
    now: u64,
)
    requires
        sends_resize(p, r, plan),
    ensures
        r.size == r.new_size ==> resized_to(p, r, now) == p && plan is None,
        r.size != r.new_size ==> {
            let after = resized_to(p, r, now);
            &&& after.frames.frames.len() == p.frames.frames.len() + 1
            &&& after.needs_repaint & crate::painter::RESIZE == crate::painter::RESIZE
            &&& plan is Some
            &&& plan->0.view@.len() == 1
            &&& plan->0.view@[0] == (TransactionOp::DocumentView {
                width: r.new_size.0,
                height: r.new_size.1,
            })
            &&& plan->0.root@.len() > 1
            &&& plan->0.root@[0] == TransactionOp::RootDisplayList
            &&& plan->0.root@.last() is GenerateFrame
            &&& p.resize.native_active ==> after.resize.pending && after.resize.stable_frames == 0
        },
{
    let n = p.needs_repaint;
    let x = crate::painter::RESIZE;
    assert((n | x) & x == x) by (bit_vector);
    if r.size != r.new_size {
        let root = plan->0.root@;
        assert(root.take(1)[0] == TransactionOp::RootDisplayList);
        assert(root.take(1)[0] == root[0]);
        assert(root.skip(1).last() == root.last());
    }
}

/// A viewport that moves draws a new scene on a painter that shows the web view; else nothing happens.
pub proof fn law_moved_viewport_draws_a_new_scene(p: PainterView, w: u64, changed: bool, now: u64)
    ensures
        changed && p.webviews.contains_key(w) ==> {
            let after = viewport_moved(p, w, changed, now);
            &&& after.frames.frames.len() == p.frames.frames.len() + 1
            &&& after.needs_repaint & crate::painter::RESIZE == crate::painter::RESIZE
            &&& after.webviews == p.webviews
        },
        !changed || !p.webviews.contains_key(w) ==> viewport_moved(p, w, changed, now) == p,
{
    let n = p.needs_repaint;
    let x = crate::painter::RESIZE;
    assert((n | x) & x == x) by (bit_vector);
}

/// The viewport of a web view moves on each of its painters in turn, and those that draw it anew are named.
pub proof fn law_viewports_move_in_turn(
    v: PaintView,
    painters: Seq<u64>,
    changed: Seq<bool>,
    w: u64,
    now: u64,
    p: u64,
    moves: bool,
)
    requires
        painters.len() == changed.len(),
    ensures
        ({
            let before = v.viewports_moved(painters, changed, w, now);
            let after = v.viewports_moved(painters.push(p), changed.push(moves), w, now);
            let named = v.sent_among(painters, changed, w);
            let more = v.sent_among(painters.push(p), changed.push(moves), w);
            &&& before.painters.contains_key(p) ==> after.painters.contains_key(p)
                && after.painters[p] == viewport_moved(before.painters[p], w, moves, now)
            &&& !before.painters.contains_key(p) ==> after == before
            &&& forall|q: u64|
                q != p && #[trigger] before.painters.contains_key(q) ==> after.painters.contains_key(
                    q,
                ) && after.painters[q] == before.painters[q]
            &&& moves && v.painters.contains_key(p) && v.painters[p].webviews.contains_key(w) ==> more
                == named.push(p)
            &&& !moves || !v.painters.contains_key(p) || !v.painters[p].webviews.contains_key(w)
                ==> more == named
        }),
        v.viewports_moved(Seq::empty(), Seq::empty(), w, now) == v,
        v.sent_among(Seq::empty(), Seq::empty(), w).len() == 0,
{
    assert(painters.push(p).drop_last() =~= painters);
    assert(changed.push(moves).drop_last() =~= changed);
}

/// A debug flag that is toggled asks the painters that have flags for a frame, and no other.
pub proof fn law_toggled_flags_ask_for_a_frame(
    v: PaintView,
    flags: Map<u64, u64>,
    now: u64,
    p: u64,
)
    requires
        v.painters.contains_key(p),
    ensures
        v.debug_toggled(flags, now).painters.contains_key(p),
        flags.contains_key(p) ==> v.debug_toggled(flags, now).painters[p].frames.frames.len()
            == v.painters[p].frames.frames.len() + 1 && v.debug_toggled(
            flags,
            now,
        ).painters[p].frames.frames.last().reason == FrameReason::Testing,
        !flags.contains_key(p) ==> v.debug_toggled(flags, now).painters[p] == v.painters[p],
{
}

/// Image updates are counted by what they are.
pub proof fn law_image_updates_are_counted(updates: Seq<ImageUpdate>, next: ImageUpdate)
    ensures
        ({
            let a = counted(updates);
            let b = counted(updates.push(next));
            &&& next is AddImage ==> b.adds == (a.adds + 1) as usize
            &&& !(next is AddImage) ==> b.adds == a.adds
            &&& next is UpdateImage ==> b.updates == (a.updates + 1) as usize
            &&& !(next is UpdateImage) ==> b.updates == a.updates
            &&& next is DeleteImage ==> b.deletes == (a.deletes + 1) as usize
            &&& !(next is DeleteImage) ==> b.deletes == a.deletes
            &&& next is UpdateImageForAnimation ==> b.animation_updates == (a.animation_updates
                + 1) as usize
            &&& !(next is UpdateImageForAnimation) ==> b.animation_updates == a.animation_updates
        }),
        counted(Seq::empty()).adds == 0 && counted(Seq::empty()).updates == 0,
        counted(Seq::empty()).deletes == 0 && counted(Seq::empty()).animation_updates == 0,
{
    assert(updates.push(next).drop_last() =~= updates);
}

/// A painter that is ready needs a repaint where any of its frames does.
pub proof fn law_repaints_are_remembered(
    ready: Map<u64, bool>,
    painter: u64,
    repaint: bool,
    other: u64,
)
    ensures
        recorded(ready, painter, repaint).contains_key(painter),
        recorded(ready, painter, repaint)[painter] <==> repaint || (ready.contains_key(painter)
            && ready[painter]),
        other != painter ==> (recorded(ready, painter, repaint).contains_key(other)
            <==> ready.contains_key(other)) && (ready.contains_key(other) ==> recorded(
            ready,
            painter,
            repaint,
        )[other] == ready[other]),
{
}

/// Frames that are ready go through the coordinator one after the other. A painter whose frame belongs to no
/// wall frame is ready at once; one of a wall frame is ready when its frame is decided.
pub proof fn law_ready_frames_pass_the_coordinator(
    c: CoordinatorView,
    ready: Map<u64, bool>,
    diagnostics: Seq<FrameReadyDiagnostic>,
    d: FrameReadyDiagnostic,
    p: u64,
)
    ensures
        ({
            let (mid, needs) = coordinated(c, ready, diagnostics);
            let (after, more) = coordinated(c, ready, diagnostics.push(d));
            let told = mid.noted(d).1;
            &&& after == mid.noted(d).0
            &&& told is None ==> more.contains_key(d.painter_id) && (more[d.painter_id]
                <==> d.need_repaint || (needs.contains_key(d.painter_id) && needs[d.painter_id]))
            &&& told is None && p != d.painter_id ==> (more.contains_key(p)
                <==> needs.contains_key(p))
            &&& told is Some ==> (more.contains_key(p) <==> needs.contains_key(p) || exists|i: int|
                0 <= i < told->0.decisions.len() && (#[trigger] told->0.decisions[i]).painter_id
                    == p)
        }),
        coordinated(c, ready, Seq::empty()) == (c, ready),
{
    assert(diagnostics.push(d).drop_last() =~= diagnostics);
    let (mid, needs) = coordinated(c, ready, diagnostics);
    if let Some(u) = mid.noted(d).1 {
        crate::paint_messages::law_repaint_is_needed_if_any_frame_needs_it(needs, u.decisions, p);
    }
}

/// Each frame that is ready is noted by its painter; a painter that is gone is passed over.
pub proof fn law_ready_frames_are_noted_by_their_painters(
    v: PaintView,
    frames: Seq<(u64, bool)>,
    painter: u64,
    need: bool,
    disabled: bool,
    now: u64,
)
    ensures
        ({
            let before = v.frames_noted(frames, disabled, now);
            let after = v.frames_noted(frames.push((painter, need)), disabled, now);
            let there = before.paint.painters.contains_key(painter);
            let (p, told) = before.paint.painters[painter].frame_ready(need, disabled, now);
            &&& !there ==> after == before
            &&& there ==> after.paint.painters == before.paint.painters.insert(painter, p)
                && after.resize == before.resize.push((painter, told.resize))
            &&& there && told.diagnostic is Some ==> after.diagnostics == before.diagnostics.push(
                told.diagnostic->0,
            ) && after.ready == before.ready
            &&& there && told.diagnostic is None ==> after.diagnostics == before.diagnostics
                && after.ready.contains_key(painter) && (after.ready[painter] <==> need || (
            before.ready.contains_key(painter) && before.ready[painter]))
        }),
        v.frames_noted(Seq::empty(), disabled, now).paint == v,
        v.frames_noted(Seq::empty(), disabled, now).diagnostics.len() == 0,
        v.frames_noted(Seq::empty(), disabled, now).resize.len() == 0,
        v.frames_noted(Seq::empty(), disabled, now).ready.is_empty(),
{
    assert(frames.push((painter, need)).drop_last() =~= frames);
}

/// Only painters that are ready are repainted, each as it needs.
pub proof fn law_only_ready_painters_are_repainted(v: PaintView, ready: Map<u64, bool>, p: u64)
    requires
        v.painters.contains_key(p),
    ensures
        v.repainted(ready).painters.contains_key(p),
        !ready.contains_key(p) ==> v.repainted(ready).painters[p] == v.painters[p],
        ready.contains_key(p) ==> v.repainted(ready).painters[p] == v.painters[p].released(ready[p]),
        v.repainted(ready).coordinator == v.coordinator && v.repainted(ready).held == v.held
            && v.repainted(ready).targets == v.targets && v.repainted(ready).order == v.order,
{
}

/// A context is busy from the lock on; a lock that gives a texture lends it and leaves the context busy, one
/// that fails ends that at once, and lends nothing.
pub proof fn law_lock_marks_its_context(
    textures: Map<u64, Seq<u64>>,
    counts: Map<u64, u64>,
    context: u64,
    outcome: LockOutcome,
    c: u64,
)
    requires
        busy_count(counts, context) < u64::MAX,
    ensures
        counts.contains_key(c) ==> busy_count(counts, c) == counts[c],
        !counts.contains_key(c) ==> busy_count(counts, c) == 0,
        marked(counts, context)[context] == busy_count(counts, context) + 1,
        c != context ==> busy_count(marked(counts, context), c) == busy_count(counts, c),
        busy_count(unmarked(counts, context), context) == (if busy_count(counts, context) > 0 {
            busy_count(counts, context) - 1
        } else {
            0
        }),
        c != context ==> busy_count(unmarked(counts, context), c) == busy_count(counts, c),
        textures.contains_key(c) ==> lent_of(textures, c) == textures[c],
        !textures.contains_key(c) ==> lent_of(textures, c).len() == 0,
        ({
            let (lent, after) = lock_ended(textures, counts, context, outcome);
            &&& outcome is Texture ==> after == counts && lent.contains_key(context) && lent[context]
                == lent_of(textures, context).push(outcome->texture)
            &&& !(outcome is Texture) ==> lent == textures && busy_count(after, context) == (
            if busy_count(counts, context) > 0 {
                busy_count(counts, context) - 1
            } else {
                0
            })
            &&& c != context ==> busy_count(after, c) == busy_count(counts, c) && lent_of(lent, c)
                == lent_of(textures, c)
        }),
{
}

/// An unlock gives back the texture that was lent last, and ends one mark; without one it does nothing.
pub proof fn law_unlock_gives_back_the_last_texture(
    textures: Map<u64, Seq<u64>>,
    counts: Map<u64, u64>,
    context: u64,
    c: u64,
)
    requires
        textures.contains_key(context) ==> textures[context].len() > 0,
    ensures
        ({
            let (rest, after, back) = unlocked(textures, counts, context);
            &&& textures.contains_key(context) ==> back == Some(textures[context].last()) && lent_of(
                rest,
                context,
            ) == textures[context].drop_last() && busy_count(after, context) == (if busy_count(
                counts,
                context,
            ) > 0 {
                busy_count(counts, context) - 1
            } else {
                0
            })
            &&& !textures.contains_key(context) ==> back is None && rest == textures && after
                == counts
            &&& rest.contains_key(context) ==> rest[context].len() > 0
            &&& c != context ==> lent_of(rest, c) == lent_of(textures, c) && busy_count(after, c)
                == busy_count(counts, c)
        }),
{
    if textures.contains_key(context) && textures[context].len() == 1 {
        assert(textures[context].drop_last() =~= Seq::<u64>::empty());
    }
}

/// A repaint that is listed is one of a painter that is there and ready, and each such painter is listed
/// once: it looks at its cursor where it is repainted, and at its screenshots where not.
pub proof fn law_ready_painters_are_listed_once(
    v: PaintView,
    ready: Map<u64, bool>,
    list: Seq<(u64, FrameReleased)>,
    p: u64,
    k: int,
    l: int,
)
    requires
        repaints(v, ready, list),
    ensures
        (exists|i: int| 0 <= i < list.len() && (#[trigger] list[i]).0 == p)
            <==> v.painters.contains_key(p) && ready.contains_key(p),
        0 <= k < list.len() ==> list[k].1.refresh_cursor == ready[list[k].0]
            && list[k].1.maybe_trigger_screenshot == !ready[list[k].0],
        0 <= k < l < list.len() ==> list[k].0 != list[l].0,
{
    if exists|i: int| 0 <= i < list.len() && (#[trigger] list[i]).0 == p {
        let i = choose|i: int| 0 <= i < list.len() && (#[trigger] list[i]).0 == p;
        assert(v.painters.contains_key(list[i].0) && ready.contains_key(list[i].0));
    }
    if 0 <= k < list.len() {
        assert(v.painters.contains_key(list[k].0));
    }
}

/// Letting requests go brings no painter and removes none.
proof fn lemma_releases_keep_painters(v: PaintView, order: Seq<u64>, now: u64, p: u64)
    ensures
        v.released_in(order, now).painters.contains_key(p) <==> v.painters.contains_key(p),
    decreases order.len(),
{
    if order.len() > 0 {
        lemma_releases_keep_painters(v, order.drop_last(), now, p);
    }
}

/// What is ready stays ready, and what needs a repaint goes on needing it.
proof fn lemma_needs_are_kept(
    c: CoordinatorView,
    ready: Map<u64, bool>,
    diagnostics: Seq<FrameReadyDiagnostic>,
    p: u64,
)
    requires
        ready.contains_key(p),
    ensures
        coordinated(c, ready, diagnostics).1.contains_key(p),
        ready[p] ==> coordinated(c, ready, diagnostics).1[p],
    decreases diagnostics.len(),
{
    if diagnostics.len() > 0 {
        let front = diagnostics.drop_last();
        lemma_needs_are_kept(c, ready, front, p);
        let (mid, needs) = coordinated(c, ready, front);
        if let Some(u) = mid.noted(diagnostics.last()).1 {
            crate::paint_messages::law_repaint_is_needed_if_any_frame_needs_it(
                needs,
                u.decisions,
                p,
            );
        }
    }
}

/// When frames have settled, every painter that was ready and needed a repaint is marked for one and listed,
/// and every frame whose time had run out was decided.
pub proof fn law_settled_frames_are_shown(
    v: PaintView,
    ready: Map<u64, bool>,
    diagnostics: Seq<FrameReadyDiagnostic>,
    now: u64,
    r: SettledFrames,
    after: PaintView,
    p: u64,
)
    requires
        settles(v, ready, diagnostics, now, r, after),
        v.painters.contains_key(p),
        ready.contains_key(p),
        ready[p],
    ensures
        after.painters.contains_key(p),
        after.painters[p].needs_repaint & 4 == 4,
        exists|i: int| 0 <= i < r.repainted@.len() && (#[trigger] r.repainted@[i]).0 == p,
{
    let (noted, needs) = coordinated(v.coordinator, ready, diagnostics);
    let (missed, update) = noted.missed_all(r.swept@);
    let all = crate::paint_messages::all_recorded(needs, update.decisions);
    lemma_needs_are_kept(v.coordinator, ready, diagnostics, p);
    crate::paint_messages::law_repaint_is_needed_if_any_frame_needs_it(needs, update.decisions, p);
    let swept = PaintView { coordinator: missed.pruned(now), ..v }.woken(now);
    let order = r.released@.map_values(|f: ReleasedFrame| f.webview_id);
    lemma_releases_keep_painters(swept, order, now, p);
    let issued = swept.released_in(order, now);
    assert(issued.painters.contains_key(p));
    law_only_ready_painters_are_repainted(issued, all, p);
    let n = issued.painters[p].needs_repaint;
    assert((n | 4u8) & 4u8 == 4u8) by (bit_vector);
    law_ready_painters_are_listed_once(issued, all, r.repainted@, p, 0, 0);
}

/// What the start of a render tells: an owed acknowledgement is paid exactly where it can be, to every
/// waiting pipeline and with a frame; renders are numbered; and the frame that is shown is the last
/// that was ready.
pub proof fn law_render_start_pays_what_is_owed(
    p: PainterView,
    disabled: bool,
    now: u64,
    r: RenderStart,
    pipeline: u64,
)
    requires
        starts_render(p, disabled, now, r),
    ensures
        r.owed_ack is Some <==> !disabled && !p.delayer.waiting.is_empty() && p.delayer.pending_frame
            && p.delayer.pending.is_empty() && !renderer_is_busy(p.gate, now),
        r.owed_ack is Some ==> (r.owed_ack->0.acknowledged@.contains(pipeline)
            <==> p.delayer.waiting.contains(pipeline)) && r.owed_ack->0.transaction@.len() > 0
            && r.owed_ack->0.transaction@.last() is GenerateFrame,
        r.render_count == p.render_count.wrapping_add(1),
        r.local_frame_id == p.frames.ready_local,
        r.wall_logical_frame_id == p.frames.ready_wall,
{
    law_latch_is_closed_while_a_composite_is_under_way(p.gate, now);
    if let Some(a) = r.owed_ack {
        assert(a.acknowledged@.to_set().contains(pipeline) <==> a.acknowledged@.contains(pipeline));
        assert(a.transaction@.skip(0) =~= a.transaction@);
    }
}

/// A viewport that moved is sent with the root and a frame; one that did not is not sent.
pub proof fn law_moved_viewport_is_sent(
    p: PainterView,
    w: u64,
    changed: bool,
    transaction: Option<Vec<TransactionOp>>,
)
    requires
        sends_viewport(p, w, changed, transaction),
    ensures
        transaction is Some <==> changed && p.webviews.contains_key(w),
        transaction is Some ==> transaction->0@.len() > 1 && transaction->0@[0]
            == TransactionOp::RootDisplayList && transaction->0@.last() is GenerateFrame,
{
    if let Some(t) = transaction {
        assert(t@.take(1)[0] == TransactionOp::RootDisplayList);
        assert(t@.take(1)[0] == t@[0]);
        assert(t@.skip(1).last() == t@.last());
    }
}

/// The viewport of a web view is set on its own painters and no other.
pub proof fn law_viewport_is_set_on_its_painters(
    v: PaintView,
    w: u64,
    changed: Seq<bool>,
    now: u64,
)
    ensures
        v.targets.contains_key(w) ==> v.viewports_set(w, changed, now) == v.viewports_moved(
            v.targets[w],
            changed,
            w,
            now,
        ) && v.viewports_sent(w, changed) == v.sent_among(v.targets[w], changed, w),
        !v.targets.contains_key(w) ==> v.viewports_set(w, changed, now) == v.viewports_moved(
            seq![(w / 0x1_0000_0000) as u64],
            changed,
            w,
            now,
        ) && v.viewports_sent(w, changed) == v.sent_among(
            seq![(w / 0x1_0000_0000) as u64],
            changed,
            w,
        ),
{
}

} // verus!
