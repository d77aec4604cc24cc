//! The web views of a painter.
use crate::frame_queue::FrameReason;
use crate::fx::{fx_get, fx_insert, fx_keys, fx_remove};
use crate::idmap::{ascending, sorted_ids};
use crate::paint_metrics::PipelineMetrics;
use crate::painter::{
    extends_by_frame, webview_views, Painter, PainterView, TransactionOp, WebViewState,
    WebViewView, RESIZE,
};
use crate::painter_render::lemma_webview_insert;
use crate::resize_rebuild::ResizeStart;
use crate::seqs::{lemma_push_distinct, lemma_push_has, lemma_take_has};
use std::collections::HashMap;
use vstd::prelude::*;

verus! {

broadcast use vstd::std_specs::hash::group_hash_axioms;

/// The id under which a painter's animation observer stands in its refresh driver.
pub const ANIMATION_OBSERVER: u64 = 0;

/// A web view that no painter knows.
#[derive(Clone, Copy, Debug, PartialEq, Eq, Structural)]
pub struct UnknownWebView(pub u64);

/// What a change of a web view's animations asks the host for.
#[derive(Clone, Copy, Debug, PartialEq, Eq, Structural)]
pub struct AnimationOutcome {
    /// The web view ticks its animations now.
    pub tick: bool,
    /// The next frame start is asked for.
    pub ask_next_frame: bool,
}

/// What the host does when a window changes its size: the new size goes to the rendering context,
/// and the two transactions to the renderer.
#[derive(Debug)]
pub struct ResizePlan {
    pub start: Option<ResizeStart>,
    pub view: Vec<TransactionOp>,
    pub root: Vec<TransactionOp>,
}

/// What a display list says of itself.
#[derive(Clone, Copy, Debug, PartialEq, Eq, Structural)]
pub struct DisplayListInfo {
    pub pipeline: u64,
    pub epoch: u32,
    pub first_reflow: bool,
    pub is_paintable: bool,
    pub is_contentful: bool,
    /// The list changed the scale of the page.
    pub scale_changed: bool,
}

/// The web view is painted, with this pipeline at its root.
pub open spec fn painted(w: WebViewView, pipeline: u64) -> bool {
    !w.hidden && w.root_pipeline_id == Some(pipeline)
}

/// The metrics of a pipeline, or fresh ones.
pub open spec fn pipeline_or_fresh(w: WebViewView, pipeline: u64) -> PipelineMetrics {
    if w.pipelines.contains_key(pipeline) {
        w.pipelines[pipeline]
    } else {
        PipelineMetrics::fresh()
    }
}

impl PainterView {
    pub open spec fn with_webview(self, id: u64, w: WebViewView) -> PainterView {
        PainterView { webviews: self.webviews.insert(id, w), ..self }
    }

    /// A frame of the scene is requested.
    pub open spec fn scene_requested(self, now: u64) -> PainterView {
        self.frame_requested(FrameReason::Scene, None, None, now)
    }

    pub open spec fn without_webview(self, id: u64) -> PainterView {
        PainterView { webviews: self.webviews.remove(id), ..self }
    }

    pub open spec fn hidden_set(self, id: u64, hidden: bool) -> PainterView {
        self.with_webview(id, (WebViewView { hidden, ..self.webviews[id] }))
    }

    /// The painter after the animations of a web view changed, and what that asks for.
    pub open spec fn animations_changed(
        self,
        id: u64,
        changed: bool,
        animating: bool,
        callbacks: bool,
    ) -> (PainterView, AnimationOutcome) {
        let nothing = AnimationOutcome { tick: false, ask_next_frame: false };
        if !self.webviews.contains_key(id) {
            (self, nothing)
        } else {
            let s = self.with_webview(
                id,
                (WebViewView { animating, callbacks, ..self.webviews[id] }),
            );
            if !changed || !animating {
                (s, nothing)
            } else if s.animating {
                (s, AnimationOutcome { tick: true, ask_next_frame: false })
            } else {
                let ask = s.observers.len() == 0;
                (
                    PainterView {
                        animating: true,
                        observers: s.observers.push(ANIMATION_OBSERVER),
                        waiting_for_frame: s.waiting_for_frame || ask,
                        ..s
                    },
                    AnimationOutcome { tick: true, ask_next_frame: ask },
                )
            }
        }
    }

    /// The painter after the metrics of a pipeline were set.
    pub open spec fn metrics_set(
        self,
        webview: u64,
        pipeline: u64,
        metrics: PipelineMetrics,
    ) -> PainterView {
        let w = self.webviews[webview];
        self.with_webview(
            webview,
            (WebViewView { pipelines: w.pipelines.insert(pipeline, metrics), ..w }),
        )
    }

    /// The painter after it forgot a pipeline of a web view that it knows.
    pub open spec fn without_pipeline(self, webview: u64, pipeline: u64) -> PainterView {
        let w = self.webviews[webview];
        self.with_webview(
            webview,
            (WebViewView { pipelines: w.pipelines.remove(pipeline), ..w }),
        )
    }
}

impl WebViewState {
    pub fn new() -> (w: WebViewState)
        ensures
            w@ == WebViewView::fresh(),
    {
        WebViewState {
            hidden: false,
            root_pipeline_id: None,
            animating: false,
            animation_callbacks_running: false,
            pipelines: HashMap::new(),
        }
    }
}

impl Painter {
    /// Adds a web view; one that is known stays as it is.
    pub fn add_webview(&mut self, webview_id: u64)
        requires
            old(self).wf(),
        ensures
            final(self).wf(),
            final(self)@ == (if old(self)@.webviews.contains_key(webview_id) {
                old(self)@
            } else {
                old(self)@.with_webview(webview_id, WebViewView::fresh())
            }),
    {
        if fx_get(&self.webview_renderers, webview_id).is_some() {
            return ;
        }
        let webview = WebViewState::new();
        proof {
            lemma_webview_insert(self.webview_renderers@, webview_id, webview);
        }
        let _ = fx_insert(&mut self.webview_renderers, webview_id, webview);
    }

    /// The transaction that sends the web views anew and requests a frame.
    pub fn send_root_pipeline_display_list(&mut self, now: u64) -> (transaction: Vec<TransactionOp>)
        requires
            old(self).wf(),
        ensures
            final(self).wf(),
            final(self)@ == old(self)@.scene_requested(now),
            extends_by_frame(
                seq![TransactionOp::RootDisplayList],
                transaction@,
                old(self)@.video,
                FrameReason::Scene,
            ),
    {
        let mut transaction: Vec<TransactionOp> = Vec::new();
        transaction.push(TransactionOp::RootDisplayList);
        assert(transaction@ =~= seq![TransactionOp::RootDisplayList]);
        self.generate_frame(&mut transaction, FrameReason::Scene, None, None, now);
        transaction
    }

    /// Removes a web view. `None` where it is not known.
    pub fn remove_webview(&mut self, webview_id: u64, now: u64) -> (r: Option<Vec<TransactionOp>>)
        requires
            old(self).wf(),
        ensures
            final(self).wf(),
            r is Some <==> old(self)@.webviews.contains_key(webview_id),
            final(self)@ == (if r is Some {
                old(self)@.without_webview(webview_id).scene_requested(now)
            } else {
                old(self)@
            }),
            r matches Some(t) ==> extends_by_frame(
                seq![TransactionOp::RootDisplayList],
                t@,
                old(self)@.video,
                FrameReason::Scene,
            ),
    {
        let ghost table = self.webview_renderers@;
        match fx_remove(&mut self.webview_renderers, webview_id) {
            None => {
                proof {
                    assert(table.remove(webview_id) =~= table);
                }
                None
            },
            Some(webview) => {
                proof {
                    lemma_webview_insert(table, webview_id, webview);
                }
                Some(self.send_root_pipeline_display_list(now))
            },
        }
    }

    pub fn is_empty(&self) -> (b: bool)
        ensures
            b == self@.webviews.is_empty(),
    {
        proof {
            assert(self@.webviews.dom() =~= self.webview_renderers@.dom());
        }
        self.webview_renderers.is_empty()
    }

    pub fn knows_webview(&self, webview_id: u64) -> (b: bool)
        ensures
            b == self@.webviews.contains_key(webview_id),
    {
        fx_get(&self.webview_renderers, webview_id).is_some()
    }

    /// Hides or shows a web view. The scene is sent anew where that changes anything.
    pub fn set_webview_hidden(&mut self, webview_id: u64, hidden: bool, now: u64) -> (r: Result<
        Option<Vec<TransactionOp>>,
        UnknownWebView,
    >)
        requires
            old(self).wf(),
        ensures
            final(self).wf(),
            match r {
                Err(e) => e == UnknownWebView(webview_id) && !old(self)@.webviews.contains_key(
                    webview_id,
                ) && final(self)@ == old(self)@,
                Ok(None) => old(self)@.webviews.contains_key(webview_id)
                    && old(self)@.webviews[webview_id].hidden == hidden && final(self)@ == old(
                    self,
                )@,
                Ok(Some(t)) => old(self)@.webviews.contains_key(webview_id)
                    && old(self)@.webviews[webview_id].hidden != hidden && final(self)@ == old(
                    self,
                )@.hidden_set(webview_id, hidden).scene_requested(now) && extends_by_frame(
                    seq![TransactionOp::RootDisplayList],
                    t@,
                    old(self)@.video,
                    FrameReason::Scene,
                ),
            },
    {
        let ghost table = self.webview_renderers@;
        match fx_remove(&mut self.webview_renderers, webview_id) {
            None => {
                proof {
                    assert(table.remove(webview_id) =~= table);
                }
                Err(UnknownWebView(webview_id))
            },
            Some(mut webview) => {
                let changed: bool = webview.hidden != hidden;
                webview.hidden = hidden;
                proof {
                    lemma_webview_insert(table, webview_id, webview);
                    if !changed {
                        assert(webview_views(table).insert(webview_id, webview@)
                            =~= webview_views(table));
                    }
                }
                let _ = fx_insert(&mut self.webview_renderers, webview_id, webview);
                proof {
                    assert(self@ =~= old(self)@.hidden_set(webview_id, hidden));
                }
                if !changed {
                    return Ok(None);
                }
                Ok(Some(self.send_root_pipeline_display_list(now)))
            },
        }
    }

    /// The frame tree of a web view changes: another pipeline stands at its root. `None` where
    /// the web view is not known.
    pub fn set_frame_tree_for_webview(
        &mut self,
        webview_id: u64,
        root_pipeline_id: Option<u64>,
        now: u64,
    ) -> (r: Option<Vec<TransactionOp>>)
        requires
            old(self).wf(),
        ensures
            final(self).wf(),
            r is Some <==> old(self)@.webviews.contains_key(webview_id),
            final(self)@ == (if r is Some {
                old(self)@.with_webview(
                    webview_id,
                    (WebViewView { root_pipeline_id, ..old(self)@.webviews[webview_id] }),
                ).scene_requested(now)
            } else {
                old(self)@
            }),
            r matches Some(t) ==> extends_by_frame(
                seq![TransactionOp::RootDisplayList],
                t@,
                old(self)@.video,
                FrameReason::Scene,
            ),
    {
        let ghost table = self.webview_renderers@;
        match fx_remove(&mut self.webview_renderers, webview_id) {
            None => {
                proof {
                    assert(table.remove(webview_id) =~= table);
                }
                None
            },
            Some(mut webview) => {
                webview.root_pipeline_id = root_pipeline_id;
                proof {
                    lemma_webview_insert(table, webview_id, webview);
                }
                let _ = fx_insert(&mut self.webview_renderers, webview_id, webview);
                Some(self.send_root_pipeline_display_list(now))
            },
        }
    }

    /// The viewport of a web view, its place or its scale was set. Where that changed anything, the
    /// scene is sent anew and the painter repaints.
    pub fn viewport_set(&mut self, webview_id: u64, changed: bool, now: u64) -> (r: Option<
        Vec<TransactionOp>,
    >)
        requires
            old(self).wf(),
        ensures
            final(self).wf(),
            r is Some <==> changed && old(self)@.webviews.contains_key(webview_id),
            final(self)@ == (if r is Some {
                old(self)@.scene_requested(now).repaint_for(RESIZE)
            } else {
                old(self)@
            }),
            r matches Some(t) ==> extends_by_frame(
                seq![TransactionOp::RootDisplayList],
                t@,
                old(self)@.video,
                FrameReason::Scene,
            ),
    {
        if !self.knows_webview(webview_id) {
            return None;
        }
        if !changed {
            return None;
        }
        let transaction = self.send_root_pipeline_display_list(now);
        self.set_needs_repaint(RESIZE);
        Some(transaction)
    }

    /// The window gets another size. Nothing happens where it has that size.
    pub fn resize_rendering_context(
        &mut self,
        size: (u32, u32),
        new_size: (u32, u32),
        rebuild_disabled: bool,
        virtual_disabled: bool,
        now: u64,
    ) -> (r: Option<ResizePlan>)
        requires
            old(self).wf(),
        ensures
            final(self).wf(),
            r is Some <==> size != new_size,
            ({
                let (resize, start) = old(self)@.resize.resized(rebuild_disabled, virtual_disabled);
                &&& final(self)@ == (if r is Some {
                    PainterView { resize, ..old(self)@ }.scene_requested(now).repaint_for(RESIZE)
                } else {
                    old(self)@
                })
                &&& r matches Some(plan) ==> plan.start == start && plan.view@ == seq![
                    TransactionOp::DocumentView { width: new_size.0, height: new_size.1 },
                ] && extends_by_frame(
                    seq![TransactionOp::RootDisplayList],
                    plan.root@,
                    old(self)@.video,
                    FrameReason::Scene,
                )
            }),
    {
        if size.0 == new_size.0 && size.1 == new_size.1 {
            return None;
        }
        let start = self.resize.size_changed(rebuild_disabled, virtual_disabled);
        let mut view: Vec<TransactionOp> = Vec::new();
        view.push(TransactionOp::DocumentView { width: new_size.0, height: new_size.1 });
        assert(view@ =~= seq![
            TransactionOp::DocumentView { width: new_size.0, height: new_size.1 },
        ]);
        let root = self.send_root_pipeline_display_list(now);
        self.set_needs_repaint(RESIZE);
        Some(ResizePlan { start, view, root })
    }

    /// The animations of a web view started, stopped or were throttled. `changed` says whether
    /// that changed whether it animates.
    pub fn change_running_animations_state(
        &mut self,
        webview_id: u64,
        changed: bool,
        animating: bool,
        callbacks_running: bool,
    ) -> (r: AnimationOutcome)
        requires
            old(self).wf(),
        ensures
            final(self).wf(),
            (final(self)@, r) == old(self)@.animations_changed(
                webview_id,
                changed,
                animating,
                callbacks_running,
            ),
    {
        let ghost table = self.webview_renderers@;
        match fx_remove(&mut self.webview_renderers, webview_id) {
            None => {
                proof {
                    assert(table.remove(webview_id) =~= table);
                }
                return AnimationOutcome { tick: false, ask_next_frame: false };
            },
            Some(mut webview) => {
                webview.animating = animating;
                webview.animation_callbacks_running = callbacks_running;
                proof {
                    lemma_webview_insert(table, webview_id, webview);
                }
                let _ = fx_insert(&mut self.webview_renderers, webview_id, webview);
            },
        }
        if !changed {
            return AnimationOutcome { tick: false, ask_next_frame: false };
        }
        let notice = self.animation_observer.notify_animation_state_changed(animating);
        let mut ask_next_frame: bool = false;
        if notice.observe {
            ask_next_frame = self.refresh_driver.add_observer(ANIMATION_OBSERVER);
        }
        AnimationOutcome { tick: notice.tick, ask_next_frame }
    }

    /// The metrics of a pipeline, which is made known where it was not.
    fn pipeline_metrics(&self, webview_id: u64, pipeline_id: u64) -> (r: Option<PipelineMetrics>)
        requires
            self.wf(),
        ensures
            r == (if self@.webviews.contains_key(webview_id) {
                Some(pipeline_or_fresh(self@.webviews[webview_id], pipeline_id))
            } else {
                None
            }),
    {
        match fx_get(&self.webview_renderers, webview_id) {
            None => None,
            Some(webview) => match webview.pipelines.get(&pipeline_id) {
                Some(metrics) => Some(*metrics),
                None => Some(PipelineMetrics::new()),
            },
        }
    }

    fn set_pipeline_metrics(
        &mut self,
        webview_id: u64,
        pipeline_id: u64,
        metrics: PipelineMetrics,
    )
        requires
            old(self).wf(),
            old(self)@.webviews.contains_key(webview_id),
        ensures
            final(self).wf(),
            final(self)@ == old(self)@.metrics_set(webview_id, pipeline_id, metrics),
    {
        let ghost table = self.webview_renderers@;
        if let Some(mut webview) = fx_remove(&mut self.webview_renderers, webview_id) {
            let _ = webview.pipelines.insert(pipeline_id, metrics);
            proof {
                lemma_webview_insert(table, webview_id, webview);
            }
            let _ = fx_insert(&mut self.webview_renderers, webview_id, webview);
        }
    }

    /// A pipeline is made known to the renderer, with an empty display list. `None` where the web
    /// view is not known.
    pub fn send_initial_pipeline_transaction(
        &mut self,
        webview_id: u64,
        pipeline_id: u64,
        now: u64,
    ) -> (r: Option<Vec<TransactionOp>>)
        requires
            old(self).wf(),
        ensures
            final(self).wf(),
            r is Some <==> old(self)@.webviews.contains_key(webview_id),
            final(self)@ == (if r is Some {
                old(self)@.metrics_set(
                    webview_id,
                    pipeline_id,
                    (PipelineMetrics {
                        display_list_epoch: Some(0),
                        ..pipeline_or_fresh(old(self)@.webviews[webview_id], pipeline_id)
                    }),
                ).scene_requested(now)
            } else {
                old(self)@
            }),
            r matches Some(t) ==> extends_by_frame(
                seq![TransactionOp::InitialDisplayList { pipeline: pipeline_id }],
                t@,
                old(self)@.video,
                FrameReason::Scene,
            ),
    {
        match self.pipeline_metrics(webview_id, pipeline_id) {
            None => None,
            Some(mut metrics) => {
                metrics.display_list_epoch = Some(0);
                self.set_pipeline_metrics(webview_id, pipeline_id, metrics);
                let mut transaction: Vec<TransactionOp> = Vec::new();
                transaction.push(TransactionOp::InitialDisplayList { pipeline: pipeline_id });
                assert(transaction@ =~= seq![
                    TransactionOp::InitialDisplayList { pipeline: pipeline_id },
                ]);
                self.generate_frame(&mut transaction, FrameReason::Scene, None, None, now);
                Some(transaction)
            },
        }
    }

    /// The epoch of a pipeline's display list moves on. The answer says whether the web view is
    /// known.
    pub fn update_epoch(&mut self, webview_id: u64, pipeline_id: u64, epoch: u32) -> (known: bool)
        requires
            old(self).wf(),
        ensures
            final(self).wf(),
            known == old(self)@.webviews.contains_key(webview_id),
            final(self)@ == (if known {
                old(self)@.metrics_set(
                    webview_id,
                    pipeline_id,
                    (PipelineMetrics {
                        display_list_epoch: Some(epoch),
                        ..pipeline_or_fresh(old(self)@.webviews[webview_id], pipeline_id)
                    }),
                )
            } else {
                old(self)@
            }),
    {
        match self.pipeline_metrics(webview_id, pipeline_id) {
            None => false,
            Some(mut metrics) => {
                metrics.display_list_epoch = Some(epoch);
                self.set_pipeline_metrics(webview_id, pipeline_id, metrics);
                true
            },
        }
    }

    /// A display list of a web view comes. The web views are sent anew where it changes the scale
    /// of the root; a frame is not requested. `None` where the web view is not known.
    pub fn handle_new_display_list(&mut self, webview_id: u64, info: DisplayListInfo) -> (r: Option<
        Vec<TransactionOp>,
    >)
        requires
            old(self).wf(),
        ensures
            final(self).wf(),
            r is Some <==> old(self)@.webviews.contains_key(webview_id),
            final(self)@ == (if r is Some {
                old(self)@.metrics_set(
                    webview_id,
                    info.pipeline,
                    pipeline_or_fresh(old(self)@.webviews[webview_id], info.pipeline).displayed(
                        info.epoch,
                        info.first_reflow,
                        info.is_paintable,
                        info.is_contentful,
                    ),
                )
            } else {
                old(self)@
            }),
            r matches Some(t) ==> ({
                let lists = seq![
                    TransactionOp::DisplayList { pipeline: info.pipeline, epoch: info.epoch },
                    TransactionOp::AllScrollOffsets,
                ];
                t@ == (if old(self)@.webviews[webview_id].root_pipeline_id == Some(info.pipeline)
                    && info.scale_changed {
                    seq![TransactionOp::RootDisplayList] + lists
                } else {
                    lists
                })
            }),
    {
        let root: Option<u64> = match fx_get(&self.webview_renderers, webview_id) {
            None => {
                return None;
            },
            Some(webview) => webview.root_pipeline_id,
        };
        if let Some(mut metrics) = self.pipeline_metrics(webview_id, info.pipeline) {
            metrics.handle_display_list(
                info.epoch,
                info.first_reflow,
                info.is_paintable,
                info.is_contentful,
            );
            self.set_pipeline_metrics(webview_id, info.pipeline, metrics);
        }
        let is_root: bool = match root {
            Some(pipeline) => pipeline == info.pipeline,
            None => false,
        };
        let mut transaction: Vec<TransactionOp> = Vec::new();
        if is_root && info.scale_changed {
            transaction.push(TransactionOp::RootDisplayList);
        }
        transaction.push(
            TransactionOp::DisplayList { pipeline: info.pipeline, epoch: info.epoch },
        );
        transaction.push(TransactionOp::AllScrollOffsets);
        proof {
            let lists = seq![
                TransactionOp::DisplayList { pipeline: info.pipeline, epoch: info.epoch },
                TransactionOp::AllScrollOffsets,
            ];
            if is_root && info.scale_changed {
                assert(transaction@ =~= seq![TransactionOp::RootDisplayList] + lists);
            } else {
                assert(transaction@ =~= lists);
            }
        }
        Some(transaction)
    }

    /// A candidate for the largest paint comes. It counts where the web view still collects them.
    pub fn append_lcp_candidate(
        &mut self,
        enabled: bool,
        webview_id: u64,
        pipeline_id: u64,
        epoch: u32,
    )
        requires
            old(self).wf(),
        ensures
            final(self).wf(),
            final(self)@ == (if enabled && old(self)@.webviews.contains_key(webview_id) {
                old(self)@.metrics_set(
                    webview_id,
                    pipeline_id,
                    (PipelineMetrics {
                        largest_contentful_paint_metric: crate::paint_metrics::PaintMetricState::Seen(
                            epoch,
                            false,
                        ),
                        ..pipeline_or_fresh(old(self)@.webviews[webview_id], pipeline_id)
                    }),
                )
            } else {
                old(self)@
            }),
    {
        if !enabled {
            return ;
        }
        if let Some(mut metrics) = self.pipeline_metrics(webview_id, pipeline_id) {
            metrics.note_largest_candidate(epoch);
            self.set_pipeline_metrics(webview_id, pipeline_id, metrics);
        }
    }

    /// Whether the web view and this pipeline of it are known.
    pub fn knows_pipeline(&self, webview_id: u64, pipeline_id: u64) -> (b: bool)
        requires
            self.wf(),
        ensures
            b == self@.knows(webview_id, pipeline_id),
    {
        match fx_get(&self.webview_renderers, webview_id) {
            Some(webview) => webview.pipelines.contains_key(&pipeline_id),
            None => false,
        }
    }

    /// A pipeline of a web view exits. It is forgotten once all of its parts are gone.
    pub fn notify_pipeline_exited(&mut self, webview_id: u64, pipeline_id: u64, gone: bool)
        requires
            old(self).wf(),
        ensures
            final(self).wf(),
            final(self)@ == (if gone && old(self)@.webviews.contains_key(webview_id) {
                old(self)@.without_pipeline(webview_id, pipeline_id)
            } else {
                old(self)@
            }),
    {
        if !gone {
            return ;
        }
        let ghost table = self.webview_renderers@;
        match fx_remove(&mut self.webview_renderers, webview_id) {
            None => {
                assert(table.remove(webview_id) =~= table);
            },
            Some(mut webview) => {
                let _ = webview.pipelines.remove(&pipeline_id);
                proof {
                    lemma_webview_insert(table, webview_id, webview);
                }
                let _ = fx_insert(&mut self.webview_renderers, webview_id, webview);
            },
        }
    }

    /// Script scrolls a node of a pipeline; `offset` is where it came to, `None` where it cannot
    /// be scrolled. The offset is sent and a frame is requested. Nothing is done where the web
    /// view or the pipeline is not known, or the node cannot be scrolled.
    pub fn scroll_node_by_delta(
        &mut self,
        webview_id: u64,
        pipeline_id: u64,
        offset: Option<u64>,
        now: u64,
    ) -> (r: Option<Vec<TransactionOp>>)
        requires
            old(self).wf(),
        ensures
            final(self).wf(),
            r is Some <==> old(self)@.knows(webview_id, pipeline_id) && offset is Some,
            final(self)@ == (if r is Some {
                old(self)@.frame_requested(FrameReason::Apz, None, None, now)
            } else {
                old(self)@
            }),
            r matches Some(t) ==> extends_by_frame(
                seq![TransactionOp::ScrollOffset { offset: offset->0 }],
                t@,
                old(self)@.video,
                FrameReason::Apz,
            ),
    {
        if !self.knows_pipeline(webview_id, pipeline_id) {
            return None;
        }
        let offset: u64 = match offset {
            Some(offset) => offset,
            None => {
                return None;
            },
        };
        let mut transaction: Vec<TransactionOp> = Vec::new();
        transaction.push(TransactionOp::ScrollOffset { offset });
        assert(transaction@ =~= seq![TransactionOp::ScrollOffset { offset }]);
        self.generate_frame(&mut transaction, FrameReason::Apz, None, None, now);
        Some(transaction)
    }

    /// Zooming and scrolling: the web views are sent anew where a zoom changed, the scroll offsets
    /// follow, and a frame is requested. `None` where nothing changed.
    pub fn send_zoom_and_scroll_offset_updates(
        &mut self,
        need_zoom: bool,
        offsets: &[u64],
        now: u64,
    ) -> (r: Option<Vec<TransactionOp>>)
        requires
            old(self).wf(),
        ensures
            final(self).wf(),
            r is Some <==> need_zoom || offsets@.len() > 0,
            final(self)@ == (if r is Some {
                old(self)@.frame_requested(FrameReason::Apz, None, None, now)
            } else {
                old(self)@
            }),
            r matches Some(t) ==> extends_by_frame(
                zoom_and_scroll(need_zoom, offsets@),
                t@,
                old(self)@.video,
                FrameReason::Apz,
            ),
    {
        if !need_zoom && offsets.len() == 0 {
            return None;
        }
        let mut transaction: Vec<TransactionOp> = Vec::new();
        if need_zoom {
            transaction.push(TransactionOp::RootDisplayList);
        }
        let mut i: usize = 0;
        assert(transaction@ =~= zoom_and_scroll(need_zoom, offsets@.take(0)));
        while i < offsets.len()
            invariant
                i <= offsets@.len(),
                transaction@ == zoom_and_scroll(need_zoom, offsets@.take(i as int)),
            decreases offsets@.len() - i,
        {
            transaction.push(TransactionOp::ScrollOffset { offset: offsets[i] });
            i = i + 1;
            assert(transaction@ =~= zoom_and_scroll(need_zoom, offsets@.take(i as int)));
        }
        assert(offsets@.take(i as int) =~= offsets@);
        self.generate_frame(&mut transaction, FrameReason::Apz, None, None, now);
        Some(transaction)
    }

    /// The carets blink: their colors are sent and a frame is requested.
    pub fn send_caret_colors(&mut self, now: u64) -> (transaction: Vec<TransactionOp>)
        requires
            old(self).wf(),
        ensures
            final(self).wf(),
            final(self)@ == old(self)@.frame_requested(
                FrameReason::AnimatedProperty,
                None,
                None,
                now,
            ),
            extends_by_frame(
                seq![TransactionOp::CaretColors],
                transaction@,
                old(self)@.video,
                FrameReason::AnimatedProperty,
            ),
    {
        let mut transaction: Vec<TransactionOp> = Vec::new();
        transaction.push(TransactionOp::CaretColors);
        assert(transaction@ =~= seq![TransactionOp::CaretColors]);
        self.generate_frame(&mut transaction, FrameReason::AnimatedProperty, None, None, now);
        transaction
    }

    /// The web views whose animations run, in an order that is left open.
    pub fn animating_webviews(&self) -> (out: Vec<u64>)
        ensures
            out@.no_duplicates(),
            forall|w: u64| #[trigger]
                out@.contains(w) <==> self@.webviews.contains_key(w) && self@.webviews[w].animating,
    {
        let keys = fx_keys(&self.webview_renderers);
        let mut out: Vec<u64> = Vec::new();
        let mut i: usize = 0;
        while i < keys.len()
            invariant
                i <= keys@.len(),
                keys@.to_set() == self.webview_renderers@.dom(),
                keys@.no_duplicates(),
                out@.no_duplicates(),
                forall|w: u64| #[trigger]
                    out@.contains(w) <==> keys@.take(i as int).contains(w)
                        && self.webview_renderers@[w].animating,
            decreases keys@.len() - i,
        {
            let key: u64 = keys[i];
            let ghost before = out@;
            proof {
                assert(keys@.to_set().contains(key)) by {
                    assert(keys@.contains(key));
                }
                assert(!keys@.take(i as int).contains(key));
                lemma_take_has(keys@, i as int);
            }
            if let Some(webview) = fx_get(&self.webview_renderers, key) {
                if webview.animating {
                    out.push(key);
                    proof {
                        lemma_push_has(before, key);
                        assert(!before.contains(key));
                        lemma_push_distinct(before, key);
                    }
                }
            }
            i = i + 1;
        }
        proof {
            assert(keys@.take(i as int) =~= keys@);
            assert forall|w: u64| keys@.contains(w) <==> self@.webviews.contains_key(w) by {
                assert(keys@.to_set().contains(w) <==> self.webview_renderers@.dom().contains(w));
            }
        }
        out
    }

    /// The web views to repaint: all of them, in an order that is left open, where the painter
    /// wants a repaint, and none else.
    pub fn webviews_needing_repaint(&self) -> (out: Vec<u64>)
        ensures
            out@.no_duplicates(),
            out@.to_set() == (if self@.wants_repaint() {
                self@.webviews.dom()
            } else {
                Set::empty()
            }),
    {
        if self.needs_repaint() {
            proof {
                assert(self@.webviews.dom() =~= self.webview_renderers@.dom());
            }
            fx_keys(&self.webview_renderers)
        } else {
            let out: Vec<u64> = Vec::new();
            assert(out@.to_set() =~= Set::<u64>::empty());
            out
        }
    }

    /// The web views that are painted, bottom first, each with its root pipeline: those that are
    /// not hidden and have one, in the order in which they were created.
    pub fn paint_order(&self) -> (out: Vec<(u64, u64)>)
        ensures
            paints_in_order(out@, self@.webviews),
    {
        let keys = fx_keys(&self.webview_renderers);
        let ids = sorted_ids(&keys);
        let mut out: Vec<(u64, u64)> = Vec::new();
        let mut i: usize = 0;
        while i < ids.len()
            invariant
                i <= ids@.len(),
                ascending(ids@),
                forall|k: int| #![trigger out@[k]]
                    0 <= k < out@.len() ==> self.webview_renderers@.contains_key(out@[k].0)
                        && painted(self.webview_renderers@[out@[k].0]@, out@[k].1) && exists|a: int|
                        0 <= a < i && ids@[a] == out@[k].0,
                forall|k: int, l: int| 0 <= k < l < out@.len() ==> out@[k].0 < out@[l].0,
                forall|a: int|
                    0 <= a < i && self.webview_renderers@.contains_key(#[trigger] ids@[a])
                        && !self.webview_renderers@[ids@[a]].hidden
                        && self.webview_renderers@[ids@[a]].root_pipeline_id is Some ==> exists|
                        k: int,
                    |
                        0 <= k < out@.len() && (#[trigger] out@[k]).0 == ids@[a],
            decreases ids@.len() - i,
        {
            let id: u64 = ids[i];
            let ghost before = out@;
            if let Some(webview) = fx_get(&self.webview_renderers, id) {
                if !webview.hidden {
                    if let Some(pipeline) = webview.root_pipeline_id {
                        out.push((id, pipeline));
                        proof {
                            assert(out@[before.len() as int] == (id, pipeline));
                            assert forall|a: int|
                                0 <= a < i + 1 && self.webview_renderers@.contains_key(
                                    #[trigger] ids@[a],
                                ) && !self.webview_renderers@[ids@[a]].hidden
                                    && self.webview_renderers@[ids@[a]].root_pipeline_id is Some implies exists|
                                k: int,
                            |
                                0 <= k < out@.len() && (#[trigger] out@[k]).0 == ids@[a] by {
                                if a < i {
                                    let k = choose|k: int|
                                        0 <= k < before.len() && (#[trigger] before[k]).0 == ids@[a];
                                    assert(out@[k].0 == ids@[a]);
                                }
                            }
                        }
                    }
                }
            }
            i = i + 1;
        }
        proof {
            assert forall|w: u64| #[trigger]
                self@.webviews.contains_key(w) && !self@.webviews[w].hidden
                    && self@.webviews[w].root_pipeline_id is Some implies exists|k: int|
                0 <= k < out@.len() && (#[trigger] out@[k]).0 == w by {
                assert(keys@.to_set().contains(w));
                assert(keys@.contains(w));
                assert(ids@.contains(w));
                let a = choose|a: int| 0 <= a < ids@.len() && ids@[a] == w;
                assert(self.webview_renderers@.contains_key(ids@[a]));
            }
        }
        out
    }

    /// A paint is about to happen: every observer of frame starts was told, in order, and answered
    /// whether it goes on. The answer says whether the next frame start is asked for.
    pub fn notify_will_paint(&mut self, keep: &[bool]) -> (ask: bool)
        requires
            old(self).wf(),
            keep@.len() == old(self)@.observers.len(),
        ensures
            final(self).wf(),
            final(self)@ == (PainterView {
                observers: crate::refresh_driver::kept(old(self)@.observers, keep@),
                waiting_for_frame: old(self)@.waiting_for_frame || ask,
                ..old(self)@
            }),
            ask == (final(self)@.observers.len() > 0),
    {
        self.refresh_driver.notify_will_paint(keep)
    }

    /// The next frame starts: painting no longer waits.
    pub fn frame_started(&mut self)
        requires
            old(self).wf(),
        ensures
            final(self).wf(),
            final(self)@ == (PainterView { waiting_for_frame: false, ..old(self)@ }),
    {
        self.refresh_driver.frame_started();
    }

    /// The animation observer is told of a frame start: the web views that tick, if any.
    pub fn animation_frame_started(&mut self) -> (ticks: Vec<u64>)
        requires
            old(self).wf(),
        ensures
            final(self).wf(),
            ticks@.no_duplicates(),
            forall|w: u64| #[trigger]
                ticks@.contains(w) <==> old(self)@.webviews.contains_key(w)
                    && old(self)@.webviews[w].animating,
            final(self)@ == (PainterView {
                animating: old(self)@.animating && ticks@.len() > 0,
                ..old(self)@
            }),
    {
        let ticks = self.animating_webviews();
        let _ = self.animation_observer.frame_started(ticks.len());
        ticks
    }

    /// The ticks were sent, or could not be: whether the observer goes on.
    pub fn animation_ticks_sent(&mut self, sent: bool) -> (keep: bool)
        requires
            old(self).wf(),
        ensures
            final(self).wf(),
            keep == sent,
            final(self)@ == (PainterView {
                animating: old(self)@.animating || sent,
                ..old(self)@
            }),
    {
        self.animation_observer.ticks_sent(sent)
    }
}

/// The steps of zooming and scrolling.
pub open spec fn zoom_and_scroll(need_zoom: bool, offsets: Seq<u64>) -> Seq<TransactionOp> {
    (if need_zoom {
        seq![TransactionOp::RootDisplayList]
    } else {
        Seq::empty()
    }) + offsets.map_values(|o: u64| TransactionOp::ScrollOffset { offset: o })
}

/// A node of a scroll tree: the number under which the renderer knows it, if it does, and where it
/// is scrolled to, if it scrolls, as the bits of two 32-bit floating-point numbers.
#[derive(Clone, Copy, Debug, PartialEq, Eq)]
pub struct ScrollNode {
    pub external_id: Option<u64>,
    pub offset: Option<(u32, u32)>,
}

/// The bits are those of nought, of either sign.
pub open spec fn is_nought(bits: u32) -> bool {
    bits == 0 || bits == 0x8000_0000
}

/// The offsets of the nodes that are scrolled away from where they start, which is what the
/// renderer assumes of the others.
pub open spec fn scrolled(nodes: Seq<ScrollNode>) -> Seq<(u64, (u32, u32))>
    decreases nodes.len(),
{
    if nodes.len() == 0 {
        Seq::empty()
    } else {
        let head = scrolled(nodes.drop_last());
        match (nodes.last().external_id, nodes.last().offset) {
            (Some(id), Some(offset)) if !(is_nought(offset.0) && is_nought(offset.1)) => head.push(
                (id, offset),
            ),
            _ => head,
        }
    }
}

/// The scroll offsets that go with a new root display list.
pub fn scroll_offsets_to_send(nodes: &[ScrollNode]) -> (out: Vec<(u64, (u32, u32))>)
    ensures
        out@ == scrolled(nodes@),
{
    let mut out: Vec<(u64, (u32, u32))> = Vec::new();
    let mut i: usize = 0;
    assert(nodes@.take(0) =~= Seq::<ScrollNode>::empty());
    while i < nodes.len()
        invariant
            i <= nodes@.len(),
            out@ == scrolled(nodes@.take(i as int)),
        decreases nodes@.len() - i,
    {
        proof {
            assert(nodes@.take(i + 1).drop_last() =~= nodes@.take(i as int));
        }
        let node = nodes[i];
        if let Some(id) = node.external_id {
            if let Some(offset) = node.offset {
                let x: u32 = offset.0;
                let y: u32 = offset.1;
                let at_start: bool = (x == 0 || x == 0x8000_0000) && (y == 0 || y == 0x8000_0000);
                if !at_start {
                    out.push((id, offset));
                }
            }
        }
        i = i + 1;
    }
    assert(nodes@.take(i as int) =~= nodes@);
    out
}

/// The list holds exactly the web views that are painted, with their root pipelines, in ascending
/// order.
pub open spec fn paints_in_order(list: Seq<(u64, u64)>, webviews: Map<u64, WebViewView>) -> bool {
    &&& forall|k: int, l: int| 0 <= k < l < list.len() ==> list[k].0 < list[l].0
    &&& forall|k: int|
        0 <= k < list.len() ==> webviews.contains_key((#[trigger] list[k]).0) && painted(
            webviews[list[k].0],
            list[k].1,
        )
    &&& forall|w: u64| #[trigger]
        webviews.contains_key(w) && !webviews[w].hidden && webviews[w].root_pipeline_id is Some
            ==> exists|k: int| 0 <= k < list.len() && (#[trigger] list[k]).0 == w
}

/// The paint order depends on the web views alone: two lists that paint the same web views in
/// order are the same list.
pub proof fn law_paint_order_is_determined(
    a: Seq<(u64, u64)>,
    b: Seq<(u64, u64)>,
    webviews: Map<u64, WebViewView>,
)
    requires
        paints_in_order(a, webviews),
        paints_in_order(b, webviews),
    ensures
        a == b,
    decreases a.len(),
{
    lemma_order_prefix(a, b, webviews, a.len() as int);
    lemma_order_prefix(b, a, webviews, b.len() as int);
    assert(a =~= b);
}

/// The first entries of two such lists agree.
proof fn lemma_order_prefix(
    a: Seq<(u64, u64)>,
    b: Seq<(u64, u64)>,
    webviews: Map<u64, WebViewView>,
    n: int,
)
    requires
        paints_in_order(a, webviews),
        paints_in_order(b, webviews),
        0 <= n <= a.len(),
    ensures
        n <= b.len(),
        forall|k: int| 0 <= k < n ==> a[k] == b[k],
    decreases n,
{
    if n > 0 {
        lemma_order_prefix(a, b, webviews, n - 1);
        let w = a[n - 1].0;
        assert(webviews.contains_key(w));
        let k = choose|k: int| 0 <= k < b.len() && (#[trigger] b[k]).0 == w;
        if k < n - 1 {
            assert(a[k] == b[k]);
            assert(false);
        }
        if k > n - 1 {
            let v = b[n - 1].0;
            assert(webviews.contains_key(v));
            let l = choose|l: int| 0 <= l < a.len() && (#[trigger] a[l]).0 == v;
            assert(v < w);
            if l < n - 1 {
                assert(a[l] == b[l]);
                assert(false);
            }
            assert(l >= n - 1);
            assert(false);
        }
        assert(b[n - 1].0 == w);
    }
}

/// A web view that is created later is painted over those that were created before it.
pub proof fn law_later_webview_paints_on_top(
    list: Seq<(u64, u64)>,
    webviews: Map<u64, WebViewView>,
    k: int,
    l: int,
)
    requires
        paints_in_order(list, webviews),
        0 <= k < list.len(),
        0 <= l < list.len(),
        list[k].0 < list[l].0,
    ensures
        k < l,
{
}

/// A pipeline that exited is not known any more, until it is heard of again; the others are.
pub proof fn law_exited_pipeline_is_forgotten(
    p: PainterView,
    webview: u64,
    pipeline: u64,
    w: u64,
    other: u64,
)
    requires
        p.webviews.contains_key(webview),
    ensures
        ({
            let after = p.without_pipeline(webview, pipeline);
            &&& !after.knows(webview, pipeline)
            &&& (w, other) != (webview, pipeline) ==> after.knows(w, other) == p.knows(w, other)
            &&& after.webviews.dom() == p.webviews.dom()
        }),
{
    assert(p.without_pipeline(webview, pipeline).webviews.dom() =~= p.webviews.dom());
}

} // verus!
