//! Frames that become ready, and the render passes that show them.
use crate::frame_queue::FrameReason;
use crate::fx::{fx_get, fx_insert, fx_remove};
use crate::paint_metrics::{MetricReports, PipelineMetrics};
use crate::painter::{
    extends_by_frame, webview_views, Painter, PainterView, TransactionOp, WebViewView,
    NEW_WEBRENDER_FRAME, RESIZE,
};
use crate::painter_images::{LatchReport, OwedAck};
use crate::resize_rebuild::ResizeTick;
use crate::table::table_get_mut;
use crate::wall_frame::FrameReadyDiagnostic;
use vstd::prelude::*;

verus! {

broadcast use vstd::std_specs::hash::group_hash_axioms;

/// What the host does when the renderer has a frame ready.
#[derive(Clone, Copy, Debug, PartialEq, Eq, Structural)]
pub struct FrameReadyOutcome {
    /// What became of a drag: where it settled, the tile size goes back and flip chains are
    /// allowed again.
    pub resize: ResizeTick,
    pub diagnostic: Option<FrameReadyDiagnostic>,
}

/// What the host does once a ready frame is released for painting.
#[derive(Clone, Copy, Debug, PartialEq, Eq, Structural)]
pub struct FrameReleased {
    /// What lies under the mouse may have changed.
    pub refresh_cursor: bool,
    /// A screenshot may be due though nothing is repainted.
    pub maybe_trigger_screenshot: bool,
}

/// What a render pass starts with.
#[derive(Debug)]
pub struct RenderStart {
    pub owed_ack: Option<OwedAck>,
    pub latch: Option<LatchReport>,
    pub render_count: u64,
    pub local_frame_id: Option<u64>,
    pub wall_logical_frame_id: Option<u64>,
}

impl PainterView {
    /// The painter after the renderer had a frame ready.
    pub open spec fn frame_ready(
        self,
        need_repaint: bool,
        rebuild_disabled: bool,
        now: u64,
    ) -> (PainterView, FrameReadyOutcome) {
        let (resize, tick) = self.resize.ticked(rebuild_disabled);
        let gate = if need_repaint {
            self.gate
        } else {
            self.gate.set_to(false, now)
        };
        let (frames, diagnostic) = self.frames.ready(self.painter_id, now, need_repaint);
        let s = PainterView { resize, gate, frames, ..self };
        (
            if tick == ResizeTick::Waiting {
                s.repaint_for(RESIZE)
            } else {
                s
            },
            FrameReadyOutcome { resize: tick, diagnostic },
        )
    }

    /// The painter after a ready frame was released for painting.
    pub open spec fn released(self, repaint_needed: bool) -> PainterView {
        if repaint_needed || self.callbacks_running() {
            self.repaint_for(NEW_WEBRENDER_FRAME)
        } else {
            self
        }
    }

    /// The painter as a render pass starts: what is owed is paid first, then what is still held is
    /// looked at.
    pub open spec fn render_started(self, recovery_disabled: bool, now: u64) -> PainterView {
        let s = self.ack_flushed(recovery_disabled, now).latch_checked(now).0;
        PainterView { render_count: s.render_count.wrapping_add(1), ..s }
    }

    /// The painter after a render pass: everything that was there is painted, and no composite is
    /// under way.
    pub open spec fn render_ended(self, now: u64) -> PainterView {
        PainterView { needs_repaint: 0, gate: self.gate.set_to(false, now), ..self }
    }

    /// The pipeline of the web view is known.
    pub open spec fn knows(self, webview: u64, pipeline: u64) -> bool {
        self.webviews.contains_key(webview) && self.webviews[webview].pipelines.contains_key(
            pipeline,
        )
    }

    pub open spec fn with_pipeline(
        self,
        webview: u64,
        pipeline: u64,
        metrics: PipelineMetrics,
    ) -> PainterView {
        let w = self.webviews[webview];
        PainterView {
            webviews: self.webviews.insert(
                webview,
                WebViewView { pipelines: w.pipelines.insert(pipeline, metrics), ..w },
            ),
            ..self
        }
    }

    /// The painter after a composite that shows the pipeline at an epoch, and what it reports.
    pub open spec fn metrics_reported(self, webview: u64, pipeline: u64, epoch: u32) -> (
        PainterView,
        Option<MetricReports>,
    ) {
        if self.knows(webview, pipeline) {
            let m = self.webviews[webview].pipelines[pipeline];
            (
                self.with_pipeline(webview, pipeline, m.composited(epoch)),
                Some(m.reports(epoch)),
            )
        } else {
            (self, None)
        }
    }

    /// The same for several pipelines, one after the other.
    pub open spec fn all_metrics_reported(self, rendered: Seq<(u64, u64, u32)>) -> (
        PainterView,
        Seq<(u64, MetricReports)>,
    )
        decreases rendered.len(),
    {
        if rendered.len() == 0 {
            (self, Seq::empty())
        } else {
            let (s, out) = self.all_metrics_reported(rendered.drop_last());
            let (w, p, e) = rendered.last();
            let (next, report) = s.metrics_reported(w, p, e);
            (
                next,
                match report {
                    Some(r) => out.push((p, r)),
                    None => out,
                },
            )
        }
    }
}

/// Putting a web view in the table puts its value among the values.
pub(crate) proof fn lemma_webview_insert(
    m: Map<u64, crate::painter::WebViewState>,
    k: u64,
    w: crate::painter::WebViewState,
)
    ensures
        webview_views(m.insert(k, w)) == webview_views(m).insert(k, w@),
        webview_views(m.remove(k).insert(k, w)) == webview_views(m).insert(k, w@),
        webview_views(m.remove(k)) == webview_views(m).remove(k),
{
    assert(webview_views(m.insert(k, w)) =~= webview_views(m).insert(k, w@));
    assert(webview_views(m.remove(k).insert(k, w)) =~= webview_views(m).insert(k, w@));
    assert(webview_views(m.remove(k)) =~= webview_views(m).remove(k));
}

impl Painter {
    /// The renderer has a frame ready. A frame that brings no repaint ends the composite that is
    /// under way, since no render pass will.
    pub fn note_webrender_frame_ready(
        &mut self,
        need_repaint: bool,
        rebuild_disabled: bool,
        now: u64,
    ) -> (r: FrameReadyOutcome)
        requires
            old(self).wf(),
        ensures
            final(self).wf(),
            (final(self)@, r) == old(self)@.frame_ready(need_repaint, rebuild_disabled, now),
    {
        let resize: ResizeTick = self.resize.tick(rebuild_disabled);
        if resize == ResizeTick::Waiting {
            self.set_needs_repaint(RESIZE);
        }
        if !need_repaint {
            self.gate.set(false, now);
        }
        let diagnostic = self.frames.note_ready(self.painter_id, now, need_repaint);
        FrameReadyOutcome { resize, diagnostic }
    }

    /// A ready frame is released for painting.
    pub fn handle_new_webrender_frame_ready(&mut self, repaint_needed: bool) -> (r: FrameReleased)
        requires
            old(self).wf(),
        ensures
            final(self).wf(),
            final(self)@ == old(self)@.released(repaint_needed),
            r == (FrameReleased {
                refresh_cursor: repaint_needed,
                maybe_trigger_screenshot: !repaint_needed,
            }),
    {
        if repaint_needed || self.animation_callbacks_running() {
            self.set_needs_repaint(NEW_WEBRENDER_FRAME);
        }
        FrameReleased {
            refresh_cursor: repaint_needed,
            maybe_trigger_screenshot: !repaint_needed,
        }
    }

    /// A render pass starts.
    pub fn begin_render(&mut self, recovery_disabled: bool, now: u64) -> (r: RenderStart)
        requires
            old(self).wf(),
        ensures
            final(self).wf(),
            final(self)@ == old(self)@.render_started(recovery_disabled, now),
            r.owed_ack is Some <==> !recovery_disabled && old(self)@.owes_ack(now),
            r.owed_ack matches Some(a) ==> crate::painter::tells(
                a.acknowledged@,
                old(self)@.delayer.waiting,
            ) && extends_by_frame(
                Seq::empty(),
                a.transaction@,
                old(self)@.video,
                FrameReason::Scene,
            ) && a.report == old(self)@.flush_counted(now).1,
            r.latch == old(self)@.ack_flushed(recovery_disabled, now).latch_checked(now).1,
            r.render_count == final(self)@.render_count,
            r.local_frame_id == old(self)@.frames.ready_local,
            r.wall_logical_frame_id == old(self)@.frames.ready_wall,
    {
        let owed_ack = self.flush_owed_canvas_ack(recovery_disabled, now);
        let latch = self.check_canvas_ack_latch(now);
        self.render_count = self.render_count.wrapping_add(1);
        RenderStart {
            owed_ack,
            latch,
            render_count: self.render_count,
            local_frame_id: self.frames.last_ready_local_frame_id,
            wall_logical_frame_id: self.frames.last_ready_wall_logical_frame_id,
        }
    }

    /// The renderer has drawn everything that was published.
    pub fn end_render(&mut self, now: u64)
        requires
            old(self).wf(),
        ensures
            final(self).wf(),
            final(self)@ == old(self)@.render_ended(now),
    {
        self.needs_repaint = 0;
        self.gate.set(false, now);
    }

    /// Whether the window is made current again after the renderer has drawn: a native compositor
    /// leaves the surface of a tile current.
    pub fn restores_window(&self) -> (b: bool)
        ensures
            b == self@.resize.native_active,
    {
        self.resize.native_active
    }

    /// A composite shows a pipeline of a web view at an epoch: the metrics that are due are handed
    /// out, once. `None` where the pipeline is not known.
    pub fn report_pipeline_metrics(&mut self, webview_id: u64, pipeline_id: u64, epoch: u32) -> (r:
        Option<MetricReports>)
        requires
            old(self).wf(),
        ensures
            final(self).wf(),
            (final(self)@, r) == old(self)@.metrics_reported(webview_id, pipeline_id, epoch),
    {
        let ghost table = self.webview_renderers@;
        let known: bool = match fx_get(&self.webview_renderers, webview_id) {
            Some(webview) => webview.pipelines.contains_key(&pipeline_id),
            None => false,
        };
        if !known {
            return None;
        }
        match fx_remove(&mut self.webview_renderers, webview_id) {
            None => None,
            Some(mut webview) => {
                let ghost pipelines = webview.pipelines@;
                let report: Option<MetricReports> = match table_get_mut(
                    &mut webview.pipelines,
                    pipeline_id,
                ) {
                    Some(metrics) => Some(metrics.after_composite(epoch)),
                    None => None,
                };
                proof {
                    lemma_webview_insert(table, webview_id, webview);
                }
                let _ = fx_insert(&mut self.webview_renderers, webview_id, webview);
                proof {
                    assert(self@ =~= old(self)@.metrics_reported(
                        webview_id,
                        pipeline_id,
                        epoch,
                    ).0);
                }
                report
            },
        }
    }

    /// A composite shows these pipelines, each with its web view and epoch. What is due of each is
    /// handed out.
    pub fn report_paint_metrics(&mut self, rendered: &[(u64, u64, u32)]) -> (out: Vec<
        (u64, MetricReports),
    >)
        requires
            old(self).wf(),
        ensures
            final(self).wf(),
            (final(self)@, out@) == old(self)@.all_metrics_reported(rendered@),
    {
        let mut out: Vec<(u64, MetricReports)> = Vec::new();
        let mut i: usize = 0;
        assert(rendered@.take(0) =~= Seq::<(u64, u64, u32)>::empty());
        while i < rendered.len()
            invariant
                i <= rendered@.len(),
                self.wf(),
                (self@, out@) == old(self)@.all_metrics_reported(rendered@.take(i as int)),
            decreases rendered@.len() - i,
        {
            proof {
                assert(rendered@.take(i + 1).drop_last() =~= rendered@.take(i as int));
            }
            let (webview_id, pipeline_id, epoch) = rendered[i];
            if let Some(report) = self.report_pipeline_metrics(webview_id, pipeline_id, epoch) {
                out.push((pipeline_id, report));
            }
            i = i + 1;
        }
        assert(rendered@.take(i as int) =~= rendered@);
        out
    }

    /// A transaction that only requests a frame.
    pub fn request_frame(&mut self, reason: FrameReason, now: u64) -> (transaction: Vec<
        TransactionOp,
    >)
        requires
            old(self).wf(),
        ensures
            final(self).wf(),
            final(self)@ == old(self)@.frame_requested(reason, None, None, now),
            extends_by_frame(Seq::empty(), transaction@, old(self)@.video, reason),
    {
        let mut transaction: Vec<TransactionOp> = Vec::new();
        self.generate_frame(&mut transaction, reason, None, None, now);
        transaction
    }
}

/// A render pass makes room for the next composite, and leaves nothing to repaint.
pub proof fn law_render_clears_the_painter(p: PainterView, now: u64, later: u64)
    ensures
        !p.render_ended(now).wants_repaint(),
        !p.render_ended(now).gate.behind(later),
{
}

/// A frame that brings no repaint does not block the painter: no render pass follows it, so it
/// ends the composite that is under way.
pub proof fn law_silent_frame_ends_the_composite(
    p: PainterView,
    rebuild_disabled: bool,
    now: u64,
    later: u64,
)
    ensures
        !p.frame_ready(false, rebuild_disabled, now).0.gate.behind(later),
        p.frame_ready(true, rebuild_disabled, now).0.gate == p.gate,
{
}

} // verus!
