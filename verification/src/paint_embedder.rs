//! What the embedder asks of the engine.
use crate::debug_options::{option_bits, toggled_debug_flags, WebRenderDebugOption};
use crate::frame_queue::FrameReason;
use crate::paint::{Paint, PaintView};
use crate::painter::{extends_by_frame, tells, PainterView, TransactionOp, RESIZE};
use crate::painter_render::RenderStart;
use crate::painter_webviews::ResizePlan;
use crate::seqs::{
    lemma_kept_first, lemma_kept_has, lemma_kept_remove, lemma_push_distinct, lemma_push_has,
    lemma_take_has,
};
use std::collections::HashMap;
use vstd::prelude::*;

verus! {

broadcast use vstd::std_specs::hash::group_hash_axioms;

/// A change of size as the rendering context knows it, and the switches of the rebuild.
#[derive(Clone, Copy, Debug)]
pub struct ResizeRequest {
    pub size: (u32, u32),
    pub new_size: (u32, u32),
    pub rebuild_disabled: bool,
    pub virtual_disabled: bool,
}

/// The painter after it got another size.
pub open spec fn resized_to(p: PainterView, r: ResizeRequest, now: u64) -> PainterView {
    if r.size == r.new_size {
        p
    } else {
        let resize = p.resize.resized(r.rebuild_disabled, r.virtual_disabled).0;
        PainterView { resize, ..p }.scene_requested(now).repaint_for(RESIZE)
    }
}

/// What a painter sends when it got another size.
pub open spec fn sends_resize(p: PainterView, r: ResizeRequest, plan: Option<ResizePlan>) -> bool {
    &&& plan is Some <==> r.size != r.new_size
    &&& plan matches Some(plan) ==> plan.start == p.resize.resized(
        r.rebuild_disabled,
        r.virtual_disabled,
    ).1 && plan.view@ == seq![
        TransactionOp::DocumentView { width: r.new_size.0, height: r.new_size.1 },
    ] && extends_by_frame(
        seq![TransactionOp::RootDisplayList],
        plan.root@,
        p.video,
        FrameReason::Scene,
    )
}

/// The painter after the viewport of a web view was set.
pub open spec fn viewport_moved(
    p: PainterView,
    webview: u64,
    changed: bool,
    now: u64,
) -> PainterView {
    if changed && p.webviews.contains_key(webview) {
        p.scene_requested(now).repaint_for(RESIZE)
    } else {
        p
    }
}

/// What a painter sends when the viewport of a web view was set.
pub open spec fn sends_viewport(
    p: PainterView,
    webview: u64,
    changed: bool,
    transaction: Option<Vec<TransactionOp>>,
) -> bool {
    &&& transaction is Some <==> changed && p.webviews.contains_key(webview)
    &&& transaction matches Some(t) ==> extends_by_frame(
        seq![TransactionOp::RootDisplayList],
        t@,
        p.video,
        FrameReason::Scene,
    )
}

impl Paint {
    /// The first painter that was made and is still there. There has to be one.
    pub fn painter_id(&self) -> (id: u64)
        requires
            self.wf(),
            !self@.painters.is_empty(),
        ensures
            self@.order.len() > 0,
            id == self@.order[0],
            self@.painters.contains_key(id),
    {
        proof {
            if self.painters.entries@.len() == 0 {
                assert(self@.painters.dom() =~= Set::<u64>::empty());
            }
            assert(self@.order[0] == self.painters.entries@[0].0);
            crate::idmap::lemma_entry(self.painters.entries@, 0);
        }
        self.painters.entries[0].0
    }

    /// The scale of a web view was set in its primary painter. `None` once the engine shuts down,
    /// where nothing is done; the painter has to be there before that.
    pub fn set_hidpi_scale_factor(&mut self, webview_id: u64, changed: bool, now: u64) -> (r: Option<
        (u64, Option<Vec<TransactionOp>>),
    >)
        requires
            old(self).wf(),
            old(self)@.running() ==> old(self)@.painters.contains_key(
                old(self)@.primary_of(webview_id),
            ),
        ensures
            final(self).wf(),
            r is Some <==> old(self)@.running(),
            r is None ==> final(self)@ == old(self)@,
            r matches Some((p, t)) ==> p == old(self)@.primary_of(webview_id) && final(self)@
                == old(self)@.with_painter(
                p,
                viewport_moved(old(self)@.painters[p], webview_id, changed, now),
            ) && sends_viewport(old(self)@.painters[p], webview_id, changed, t),
    {
        if !self.is_running() {
            return None;
        }
        let painter_id: u64 = self.primary_painter_id_for_webview(webview_id);
        match self.maybe_painter_mut(painter_id) {
            Some(painter) => {
                let transaction = painter.viewport_set(webview_id, changed, now);
                Some((painter_id, transaction))
            },
            None => None,
        }
    }

    /// The viewport of a web view was set in each of its painters; `changed` says of each, in
    /// order, whether that changed anything.
    pub fn set_viewport_details(&mut self, webview_id: u64, changed: &[bool], now: u64) -> (out: Vec<
        (u64, Vec<TransactionOp>),
    >)
        requires
            old(self).wf(),
            changed@.len() == old(self)@.targets_of(webview_id).len(),
        ensures
            final(self).wf(),
            !old(self)@.running() ==> final(self)@ == old(self)@ && out@.len() == 0,
            old(self)@.running() ==> final(self)@ == old(self)@.viewports_set(
                webview_id,
                changed@,
                now,
            ),
            forall|k: int|
                0 <= k < out@.len() ==> old(self)@.painters.contains_key((#[trigger] out@[k]).0)
                    && extends_by_frame(
                    seq![TransactionOp::RootDisplayList],
                    out@[k].1@,
                    old(self)@.painters[out@[k].0].video,
                    FrameReason::Scene,
                ),
            old(self)@.running() ==> out@.map_values(|f: (u64, Vec<TransactionOp>)| f.0)
                == old(self)@.viewports_sent(webview_id, changed@),
    {
        let mut out: Vec<(u64, Vec<TransactionOp>)> = Vec::new();
        if !self.is_running() {
            return out;
        }
        let painter_ids = self.painter_targets_for_webview(webview_id);
        let ghost v0 = self@;
        let ghost ids = |f: (u64, Vec<TransactionOp>)| f.0;
        let mut i: usize = 0;
        proof {
            assert(out@.map_values(ids) =~= Seq::<u64>::empty());
            assert(painter_ids@.take(0) =~= Seq::<u64>::empty());
            assert(v0 =~= v0.viewports_moved(
                painter_ids@.take(0),
                changed@.take(0),
                webview_id,
                now,
            ));
        }
        while i < painter_ids.len()
            invariant
                i <= painter_ids@.len() == changed@.len(),
                painter_ids@.no_duplicates(),
                painter_ids@ == v0.targets_of(webview_id),
                v0 == old(self)@,
                self.wf(),
                ids == (|f: (u64, Vec<TransactionOp>)| f.0),
                self@ == v0.viewports_moved(
                    painter_ids@.take(i as int),
                    changed@.take(i as int),
                    webview_id,
                    now,
                ),
                self@.painters.dom() == v0.painters.dom(),
                forall|k: int|
                    i <= k < painter_ids@.len() && v0.painters.contains_key(painter_ids@[k])
                        ==> self@.painters[#[trigger] painter_ids@[k]]
                        == v0.painters[painter_ids@[k]],
                forall|k: int|
                    0 <= k < out@.len() ==> v0.painters.contains_key((#[trigger] out@[k]).0)
                        && extends_by_frame(
                        seq![TransactionOp::RootDisplayList],
                        out@[k].1@,
                        v0.painters[out@[k].0].video,
                        FrameReason::Scene,
                    ),
                out@.map_values(ids) == v0.sent_among(
                    painter_ids@.take(i as int),
                    changed@.take(i as int),
                    webview_id,
                ),
            decreases painter_ids@.len() - i,
        {
            let painter_id: u64 = painter_ids[i];
            let ghost before = self@;
            let ghost sofar = out@;
            proof {
                assert(painter_ids@.take(i + 1).drop_last() =~= painter_ids@.take(i as int));
                assert(changed@.take(i + 1).drop_last() =~= changed@.take(i as int));
            }
            match self.maybe_painter_mut(painter_id) {
                Some(painter) => {
                    if let Some(transaction) = painter.viewport_set(webview_id, changed[i], now) {
                        out.push((painter_id, transaction));
                        proof {
                            assert(out@.map_values(ids) =~= sofar.map_values(ids).push(
                                painter_id,
                            ));
                        }
                    }
                },
                None => {},
            }
            i = i + 1;
            proof {
                assert(self@ =~= v0.viewports_moved(
                    painter_ids@.take(i as int),
                    changed@.take(i as int),
                    webview_id,
                    now,
                ));
                assert(self@.painters.dom() =~= v0.painters.dom());
            }
        }
        proof {
            assert(painter_ids@.take(i as int) =~= painter_ids@);
            assert(changed@.take(i as int) =~= changed@);
            assert(out@.map_values(|f: (u64, Vec<TransactionOp>)| f.0) =~= out@.map_values(ids));
        }
        out
    }

    /// The window of a web view's primary painter gets another size. `None` once the engine shuts
    /// down, where nothing is done; the painter has to be there before that.
    pub fn resize_rendering_context(
        &mut self,
        webview_id: u64,
        request: ResizeRequest,
        now: u64,
    ) -> (r: Option<(u64, Option<ResizePlan>)>)
        requires
            old(self).wf(),
            old(self)@.running() ==> old(self)@.painters.contains_key(
                old(self)@.primary_of(webview_id),
            ),
        ensures
            final(self).wf(),
            r is Some <==> old(self)@.running(),
            r is None ==> final(self)@ == old(self)@,
            r matches Some((p, plan)) ==> p == old(self)@.primary_of(webview_id) && final(self)@
                == old(self)@.with_painter(
                p,
                resized_to(old(self)@.painters[p], request, now),
            ) && sends_resize(old(self)@.painters[p], request, plan),
    {
        if !self.is_running() {
            return None;
        }
        let painter_id: u64 = self.primary_painter_id_for_webview(webview_id);
        match self.maybe_painter_mut(painter_id) {
            Some(painter) => {
                let plan = painter.resize_rendering_context(
                    request.size,
                    request.new_size,
                    request.rebuild_disabled,
                    request.virtual_disabled,
                    now,
                );
                Some((painter_id, plan))
            },
            None => None,
        }
    }

    /// One painter of a web view gets another size and another part of the web view. `None` where
    /// nothing is done: once the engine shuts down, and for a painter that is not one of the web
    /// view's. One that is has to be there.
    pub fn update_webview_paint_target(
        &mut self,
        webview_id: u64,
        painter_id: u64,
        request: ResizeRequest,
        viewport_changed: bool,
        now: u64,
    ) -> (r: Option<(Option<ResizePlan>, Option<Vec<TransactionOp>>)>)
        requires
            old(self).wf(),
            old(self)@.targets_of(webview_id).contains(painter_id) ==> old(
                self,
            )@.painters.contains_key(painter_id),
        ensures
            final(self).wf(),
            r is Some <==> old(self)@.running() && old(self)@.targets_of(webview_id).contains(
                painter_id,
            ),
            r is None ==> final(self)@ == old(self)@,
            r matches Some((plan, t)) ==> ({
                let p = old(self)@.painters[painter_id];
                let mid = resized_to(p, request, now);
                &&& final(self)@ == old(self)@.with_painter(
                    painter_id,
                    viewport_moved(mid, webview_id, viewport_changed, now),
                )
                &&& sends_resize(p, request, plan)
                &&& sends_viewport(mid, webview_id, viewport_changed, t)
            }),
    {
        if !self.accepts_target_update(webview_id, painter_id) {
            return None;
        }
        match self.maybe_painter_mut(painter_id) {
            Some(painter) => {
                let plan = painter.resize_rendering_context(
                    request.size,
                    request.new_size,
                    request.rebuild_disabled,
                    request.virtual_disabled,
                    now,
                );
                let transaction = painter.viewport_set(webview_id, viewport_changed, now);
                Some((plan, transaction))
            },
            None => None,
        }
    }

    /// The primary painter of a web view renders. It has to be there.
    pub fn render(&mut self, webview_id: u64, recovery_disabled: bool, now: u64) -> (r: RenderStart)
        requires
            old(self).wf(),
            old(self)@.painters.contains_key(old(self)@.primary_of(webview_id)),
        ensures
            final(self).wf(),
            ({
                let id = old(self)@.primary_of(webview_id);
                let p = old(self)@.painters[id];
                &&& final(self)@ == old(self)@.with_painter(
                    id,
                    p.render_started(recovery_disabled, now),
                )
                &&& starts_render(p, recovery_disabled, now, r)
            }),
    {
        let painter_id: u64 = self.primary_painter_id_for_webview(webview_id);
        match self.maybe_painter_mut(painter_id) {
            Some(painter) => painter.begin_render(recovery_disabled, now),
            None => RenderStart {
                owed_ack: None,
                latch: None,
                render_count: 0,
                local_frame_id: None,
                wall_logical_frame_id: None,
            },
        }
    }

    /// One painter of a web view renders. `None` where it is not one of the web view's painters, or
    /// is not there.
    pub fn render_paint_target(
        &mut self,
        webview_id: u64,
        painter_id: u64,
        recovery_disabled: bool,
        now: u64,
    ) -> (r: Option<RenderStart>)
        requires
            old(self).wf(),
        ensures
            final(self).wf(),
            r is Some <==> old(self)@.targets_of(webview_id).contains(painter_id) && old(
                self,
            )@.painters.contains_key(painter_id),
            r is None ==> final(self)@ == old(self)@,
            r matches Some(start) ==> final(self)@ == old(self)@.with_painter(
                painter_id,
                old(self)@.painters[painter_id].render_started(recovery_disabled, now),
            ) && starts_render(old(self)@.painters[painter_id], recovery_disabled, now, start),
    {
        if !self.webview_has_painter_target(webview_id, painter_id) {
            return None;
        }
        match self.maybe_painter_mut(painter_id) {
            Some(painter) => Some(painter.begin_render(recovery_disabled, now)),
            None => None,
        }
    }

    /// The painter that handles an input event. `None` once the engine shuts down: the event is not
    /// handled then.
    pub fn notify_input_event(&self, webview_id: u64, contains: &[bool]) -> (r: Option<u64>)
        requires
            self.wf(),
            contains@.len() <= self@.targets_of(webview_id).len(),
        ensures
            r is Some <==> self@.running(),
            r matches Some(p) ==> ({
                let targets = self@.targets_of(webview_id);
                ||| exists|i: int|
                    0 <= i < contains@.len() && contains@[i] && p == targets[i] && forall|j: int|
                        0 <= j < i ==> !contains@[j]
                ||| p == self@.primary_of(webview_id) && forall|j: int|
                    0 <= j < contains@.len() ==> !contains@[j]
            }),
    {
        if !self.is_running() {
            return None;
        }
        Some(self.input_painter(webview_id, contains))
    }

    /// The painter that handles a scroll or pinch of a web view: its primary one, until the engine
    /// shuts down.
    pub fn notify_scroll_event(&self, webview_id: u64) -> (r: Option<u64>)
        requires
            self.wf(),
        ensures
            r == (if self@.running() {
                Some(self@.primary_of(webview_id))
            } else {
                None
            }),
    {
        if !self.is_running() {
            return None;
        }
        Some(self.primary_painter_id_for_webview(webview_id))
    }

    /// The painter that hears how an input event was handled: the primary one of the web view, where
    /// it is there.
    pub fn notify_input_event_handled(&self, webview_id: u64) -> (r: Option<u64>)
        requires
            self.wf(),
        ensures
            r == (if self@.painters.contains_key(self@.primary_of(webview_id)) {
                Some(self@.primary_of(webview_id))
            } else {
                None
            }),
    {
        let painter_id: u64 = self.primary_painter_id_for_webview(webview_id);
        if self.maybe_painter(painter_id).is_some() {
            Some(painter_id)
        } else {
            None
        }
    }

    /// A screenshot of a web view is asked for: the painter that takes it. `None` where the primary
    /// painter, which has to be there, does not know the web view.
    pub fn request_screenshot(&self, webview_id: u64) -> (r: Option<u64>)
        requires
            self.wf(),
            self@.painters.contains_key(self@.primary_of(webview_id)),
        ensures
            ({
                let p = self@.primary_of(webview_id);
                r == (if self@.painters[p].webviews.contains_key(webview_id) {
                    Some(p)
                } else {
                    None
                })
            }),
    {
        let painter_id: u64 = self.primary_painter_id_for_webview(webview_id);
        match self.maybe_painter(painter_id) {
            Some(painter) => if painter.knows_webview(webview_id) {
                Some(painter_id)
            } else {
                None
            },
            None => None,
        }
    }

    /// Switches a debug display of every painter that has a renderer, by the flags that are set
    /// there. Handed back are the new flags and a transaction that requests a frame, by painter,
    /// each painter once.
    pub fn toggle_webrender_debug(
        &mut self,
        option: WebRenderDebugOption,
        flags: &HashMap<u64, u64>,
        now: u64,
    ) -> (out: Vec<(u64, u64, Vec<TransactionOp>)>)
        requires
            old(self).wf(),
        ensures
            final(self).wf(),
            final(self)@ == old(self)@.debug_toggled(flags@, now),
            forall|k: int|
                0 <= k < out@.len() ==> old(self)@.painters.contains_key((#[trigger] out@[k]).0)
                    && flags@.contains_key(out@[k].0) && out@[k].1 == flags@[out@[k].0]
                    ^ option_bits(option) && extends_by_frame(
                    Seq::empty(),
                    out@[k].2@,
                    old(self)@.painters[out@[k].0].video,
                    FrameReason::Testing,
                ),
            forall|p: u64| #[trigger]
                old(self)@.painters.contains_key(p) && flags@.contains_key(p) ==> exists|k: int|
                    0 <= k < out@.len() && (#[trigger] out@[k]).0 == p,
            forall|j: int, k: int|
                0 <= j < k < out@.len() ==> (#[trigger] out@[j]).0 != (#[trigger] out@[k]).0,
    {
        let ids = self.painters.ids();
        let ghost v0 = self@;
        let mut out: Vec<(u64, u64, Vec<TransactionOp>)> = Vec::new();
        let mut i: usize = 0;
        proof {
            assert(v0.painters.dom() =~= self.painters@.dom());
        }
        while i < ids.len()
            invariant
                i <= ids@.len(),
                ids@.no_duplicates(),
                ids@.to_set() == v0.painters.dom(),
                v0 == old(self)@,
                self.wf(),
                self@ == (PaintView { painters: self@.painters, ..v0 }),
                self@.painters =~= Map::new(
                    |p: u64| v0.painters.contains_key(p),
                    |p: u64|
                        if ids@.take(i as int).contains(p) && flags@.contains_key(p) {
                            v0.painters[p].frame_requested(FrameReason::Testing, None, None, now)
                        } else {
                            v0.painters[p]
                        },
                ),
                forall|k: int|
                    0 <= k < out@.len() ==> v0.painters.contains_key((#[trigger] out@[k]).0)
                        && flags@.contains_key(out@[k].0) && out@[k].1 == flags@[out@[k].0]
                        ^ option_bits(option) && extends_by_frame(
                        Seq::empty(),
                        out@[k].2@,
                        v0.painters[out@[k].0].video,
                        FrameReason::Testing,
                    ),
                forall|k: int|
                    0 <= k < out@.len() ==> ids@.take(i as int).contains((#[trigger] out@[k]).0),
                forall|j: int, k: int|
                    0 <= j < k < out@.len() ==> (#[trigger] out@[j]).0 != (#[trigger] out@[k]).0,
                forall|p: u64| #[trigger]
                    ids@.take(i as int).contains(p) && flags@.contains_key(p) ==> exists|k: int|
                        0 <= k < out@.len() && (#[trigger] out@[k]).0 == p,
            decreases ids@.len() - i,
        {
            let painter_id: u64 = ids[i];
            let ghost before = out@;
            proof {
                lemma_take_has(ids@, i as int);
                assert(!ids@.take(i as int).contains(painter_id));
                assert(ids@.contains(painter_id));
                assert(ids@.to_set().contains(painter_id));
            }
            if let Some(set) = flags.get(&painter_id) {
                let bits: u64 = toggled_debug_flags(*set, option);
                match self.maybe_painter_mut(painter_id) {
                    Some(painter) => {
                        let transaction = painter.request_frame(FrameReason::Testing, now);
                        out.push((painter_id, bits, transaction));
                        proof {
                            assert(out@[before.len() as int].0 == painter_id);
                            assert forall|k: int| 0 <= k < out@.len() implies ids@.take(
                                i + 1,
                            ).contains((#[trigger] out@[k]).0) by {
                                if k < before.len() {
                                    assert(ids@.take(i as int).contains(before[k].0));
                                }
                            }
                            assert forall|j: int, k: int|
                                0 <= j < k < out@.len() implies (#[trigger] out@[j]).0 != (
                            #[trigger] out@[k]).0 by {
                                assert(ids@.take(i as int).contains(before[j].0));
                                if k < before.len() {
                                    assert(before[j].0 != before[k].0);
                                }
                            }
                            assert forall|p: u64| #[trigger]
                                ids@.take(i + 1).contains(p) && flags@.contains_key(
                                    p,
                                ) implies exists|k: int|
                                0 <= k < out@.len() && (#[trigger] out@[k]).0 == p by {
                                if p != painter_id {
                                    let k = choose|k: int|
                                        0 <= k < before.len() && (#[trigger] before[k]).0 == p;
                                    assert(out@[k].0 == p);
                                }
                            }
                        }
                    },
                    None => {},
                }
            }
            i = i + 1;
        }
        proof {
            assert(ids@.take(i as int) =~= ids@);
            assert forall|p: u64| ids@.contains(p) <==> v0.painters.contains_key(p) by {
                assert(ids@.to_set().contains(p) <==> v0.painters.dom().contains(p));
            }
            assert(self@ =~= v0.debug_toggled(flags@, now));
        }
        out
    }
}

impl PaintView {
    /// The engine after the viewport of a web view was set on these painters, one after the other.
    pub open spec fn viewports_moved(
        self,
        painters: Seq<u64>,
        changed: Seq<bool>,
        webview: u64,
        now: u64,
    ) -> PaintView
        decreases painters.len(),
    {
        if painters.len() == 0 {
            self
        } else {
            let s = self.viewports_moved(painters.drop_last(), changed.drop_last(), webview, now);
            let p = painters.last();
            if s.painters.contains_key(p) {
                s.with_painter(p, viewport_moved(s.painters[p], webview, changed.last(), now))
            } else {
                s
            }
        }
    }

    pub open spec fn viewports_set(self, webview: u64, changed: Seq<bool>, now: u64) -> PaintView {
        self.viewports_moved(self.targets_of(webview), changed, webview, now)
    }

    /// Those of the painters that send the web views anew.
    pub open spec fn sent_among(
        self,
        painters: Seq<u64>,
        changed: Seq<bool>,
        webview: u64,
    ) -> Seq<u64>
        decreases painters.len(),
    {
        if painters.len() == 0 {
            Seq::empty()
        } else {
            let rest = self.sent_among(painters.drop_last(), changed.drop_last(), webview);
            let p = painters.last();
            if changed.last() && self.painters.contains_key(p)
                && self.painters[p].webviews.contains_key(webview) {
                rest.push(p)
            } else {
                rest
            }
        }
    }

    pub open spec fn viewports_sent(self, webview: u64, changed: Seq<bool>) -> Seq<u64> {
        self.sent_among(self.targets_of(webview), changed, webview)
    }

    /// The engine after a debug display was switched on the painters that have flags.
    pub open spec fn debug_toggled(self, flags: Map<u64, u64>, now: u64) -> PaintView {
        PaintView {
            painters: Map::new(
                |p: u64| self.painters.contains_key(p),
                |p: u64|
                    if flags.contains_key(p) {
                        self.painters[p].frame_requested(FrameReason::Testing, None, None, now)
                    } else {
                        self.painters[p]
                    },
            ),
            ..self
        }
    }
}

/// What the start of a render pass says of itself.
pub open spec fn starts_render(
    p: PainterView,
    recovery_disabled: bool,
    now: u64,
    r: RenderStart,
) -> bool {
    &&& r.owed_ack is Some <==> !recovery_disabled && p.owes_ack(now)
    &&& r.owed_ack matches Some(a) ==> tells(a.acknowledged@, p.delayer.waiting)
        && extends_by_frame(Seq::empty(), a.transaction@, p.video, FrameReason::Scene)
        && a.report == p.flush_counted(now).1
    &&& r.latch == p.ack_flushed(recovery_disabled, now).latch_checked(now).1
    &&& r.render_count == p.render_started(recovery_disabled, now).render_count
    &&& r.local_frame_id == p.frames.ready_local
    &&& r.wall_logical_frame_id == p.frames.ready_wall
}

/// The first painter that was made stays the first one while it is there: a further painter goes
/// to the end, and where another one goes, or a web view, the rest keep their order. Where the first
/// one goes, the next one is first.
pub proof fn law_first_painter_stays_first(
    v: PaintView,
    id: u64,
    p: PainterView,
    webview: u64,
    now: u64,
)
    requires
        v.ordered(),
        v.order.len() > 0,
    ensures
        v.with_painter(id, p).order[0] == v.order[0],
        !v.painters.contains_key(id) ==> v.with_painter(id, p).order.last() == id,
        id != v.order[0] ==> v.without_painter(id).order.len() > 0 && v.without_painter(id).order[0]
            == v.order[0],
        id == v.order[0] ==> v.without_painter(id).order == v.order.drop_first(),
        v.without_webview(webview, now).painters.contains_key(v.order[0]) ==> v.without_webview(
            webview,
            now,
        ).order.len() > 0 && v.without_webview(webview, now).order[0] == v.order[0],
{
    let first = v.order[0];
    assert(v.order.contains(first));
    if id != first {
        lemma_kept_first(v.order, v.painters.remove(id).dom());
    } else {
        let live = v.painters.remove(id).dom();
        assert forall|i: int| 0 <= i < v.order.len() && i != 0 implies live.contains(
            #[trigger] v.order[i],
        ) by {
            assert(v.order.contains(v.order[i]));
        }
        lemma_kept_remove(v.order, 0, live);
        assert(v.order.remove(0) =~= v.order.drop_first());
    }
    if v.without_webview(webview, now).painters.contains_key(first) {
        lemma_kept_first(v.order, v.without_webview(webview, now).painters.dom());
    }
}

/// The painters that are listed are those that are there, whatever is made or goes.
pub proof fn law_order_lists_the_painters(
    v: PaintView,
    id: u64,
    p: PainterView,
    webview: u64,
    now: u64,
)
    requires
        v.ordered(),
    ensures
        v.with_painter(id, p).ordered(),
        v.without_painter(id).ordered(),
        v.without_webview(webview, now).ordered(),
{
    if !v.painters.contains_key(id) {
        lemma_push_has(v.order, id);
        lemma_push_distinct(v.order, id);
    }
    lemma_kept_has(v.order, v.painters.remove(id).dom());
    lemma_kept_has(v.order, v.without_webview(webview, now).painters.dom());
}

} // verus!
