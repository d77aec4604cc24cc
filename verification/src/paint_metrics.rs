//! When a pipeline was first painted.
use vstd::prelude::*;

verus! {

/// How far a metric of a pipeline is.
#[derive(Clone, Copy, Debug, PartialEq, Eq, Structural)]
pub enum PaintMetricState {
    /// No display list that triggers it has come.
    Waiting,
    /// Such a display list came; the metric is due once its epoch is rendered.
    Seen(u32, bool),
    /// The metric was reported.
    Sent,
}

/// The metrics of one pipeline.
#[derive(Clone, Copy, Debug, PartialEq, Eq, Structural)]
pub struct PipelineMetrics {
    pub display_list_epoch: Option<u32>,
    pub first_paint_metric: PaintMetricState,
    pub first_contentful_paint_metric: PaintMetricState,
    pub largest_contentful_paint_metric: PaintMetricState,
}

/// The metrics that are due after a composite. The first two carry whether the display list came
/// from the first reflow; the largest paint is worked out by the host where it is due.
#[derive(Clone, Copy, Debug, PartialEq, Eq, Structural)]
pub struct MetricReports {
    pub first_paint: Option<bool>,
    pub first_contentful_paint: Option<bool>,
    pub largest_contentful_paint: bool,
}

/// A metric is due where its epoch is rendered.
pub open spec fn due(state: PaintMetricState, rendered: u32) -> bool {
    state matches PaintMetricState::Seen(epoch, _) && epoch <= rendered
}

pub open spec fn reported_state(state: PaintMetricState, rendered: u32) -> PaintMetricState {
    if due(state, rendered) {
        PaintMetricState::Sent
    } else {
        state
    }
}

/// What a due metric says of the first reflow.
pub open spec fn report(state: PaintMetricState, rendered: u32) -> Option<bool> {
    match state {
        PaintMetricState::Seen(epoch, first_reflow) => if epoch <= rendered {
            Some(first_reflow)
        } else {
            None
        },
        _ => None,
    }
}

impl PipelineMetrics {
    pub open spec fn fresh() -> PipelineMetrics {
        PipelineMetrics {
            display_list_epoch: None,
            first_paint_metric: PaintMetricState::Waiting,
            first_contentful_paint_metric: PaintMetricState::Waiting,
            largest_contentful_paint_metric: PaintMetricState::Waiting,
        }
    }

    pub open spec fn displayed(
        self,
        epoch: u32,
        first_reflow: bool,
        is_paintable: bool,
        is_contentful: bool,
    ) -> PipelineMetrics {
        let seen = PaintMetricState::Seen(epoch, first_reflow);
        PipelineMetrics {
            first_paint_metric: if self.first_paint_metric == PaintMetricState::Waiting
                && is_paintable {
                seen
            } else {
                self.first_paint_metric
            },
            first_contentful_paint_metric: if self.first_contentful_paint_metric
                == PaintMetricState::Waiting && is_paintable && is_contentful {
                seen
            } else {
                self.first_contentful_paint_metric
            },
            ..self
        }
    }

    pub open spec fn composited(self, rendered: u32) -> PipelineMetrics {
        PipelineMetrics {
            first_paint_metric: reported_state(self.first_paint_metric, rendered),
            first_contentful_paint_metric: reported_state(
                self.first_contentful_paint_metric,
                rendered,
            ),
            largest_contentful_paint_metric: reported_state(
                self.largest_contentful_paint_metric,
                rendered,
            ),
            ..self
        }
    }

    pub open spec fn reports(self, rendered: u32) -> MetricReports {
        MetricReports {
            first_paint: report(self.first_paint_metric, rendered),
            first_contentful_paint: report(self.first_contentful_paint_metric, rendered),
            largest_contentful_paint: due(self.largest_contentful_paint_metric, rendered),
        }
    }

    pub fn new() -> (m: PipelineMetrics)
        ensures
            m == PipelineMetrics::fresh(),
    {
        PipelineMetrics {
            display_list_epoch: None,
            first_paint_metric: PaintMetricState::Waiting,
            first_contentful_paint_metric: PaintMetricState::Waiting,
            largest_contentful_paint_metric: PaintMetricState::Waiting,
        }
    }

    /// A display list comes. The first paint waits for the first one that can be painted, the
    /// first contentful paint for the first one that can be painted and has content.
    pub fn handle_display_list(
        &mut self,
        epoch: u32,
        first_reflow: bool,
        is_paintable: bool,
        is_contentful: bool,
    )
        ensures
            *final(self) == old(self).displayed(epoch, first_reflow, is_paintable, is_contentful),
    {
        if self.first_paint_metric == PaintMetricState::Waiting && is_paintable {
            self.first_paint_metric = PaintMetricState::Seen(epoch, first_reflow);
        }
        if self.first_contentful_paint_metric == PaintMetricState::Waiting && is_paintable
            && is_contentful {
            self.first_contentful_paint_metric = PaintMetricState::Seen(epoch, first_reflow);
        }
    }

    /// A candidate for the largest paint comes.
    pub fn note_largest_candidate(&mut self, epoch: u32)
        ensures
            *final(self) == (PipelineMetrics {
                largest_contentful_paint_metric: PaintMetricState::Seen(epoch, false),
                ..*old(self)
            }),
    {
        self.largest_contentful_paint_metric = PaintMetricState::Seen(epoch, false);
    }

    /// A composite showed the pipeline at this epoch. What is due is handed out and counts as
    /// reported.
    pub fn after_composite(&mut self, rendered: u32) -> (r: MetricReports)
        ensures
            r == old(self).reports(rendered),
            *final(self) == old(self).composited(rendered),
    {
        let mut r = MetricReports {
            first_paint: None,
            first_contentful_paint: None,
            largest_contentful_paint: false,
        };
        if let PaintMetricState::Seen(epoch, first_reflow) = self.first_paint_metric {
            if epoch <= rendered {
                r.first_paint = Some(first_reflow);
                self.first_paint_metric = PaintMetricState::Sent;
            }
        }
        if let PaintMetricState::Seen(epoch, first_reflow) = self.first_contentful_paint_metric {
            if epoch <= rendered {
                r.first_contentful_paint = Some(first_reflow);
                self.first_contentful_paint_metric = PaintMetricState::Sent;
            }
        }
        if let PaintMetricState::Seen(epoch, _) = self.largest_contentful_paint_metric {
            if epoch <= rendered {
                r.largest_contentful_paint = true;
                self.largest_contentful_paint_metric = PaintMetricState::Sent;
            }
        }
        r
    }
}

/// The first paint and the first contentful paint are reported once: after a composite reported
/// one, neither another display list nor another composite brings it again.
pub proof fn law_first_paints_are_reported_once(
    m: PipelineMetrics,
    rendered: u32,
    epoch: u32,
    first_reflow: bool,
    is_paintable: bool,
    is_contentful: bool,
    later: u32,
)
    ensures
        ({
            let again = m.composited(rendered).displayed(
                epoch,
                first_reflow,
                is_paintable,
                is_contentful,
            ).reports(later);
            &&& m.reports(rendered).first_paint is Some ==> again.first_paint is None
            &&& m.reports(rendered).first_contentful_paint is Some
                ==> again.first_contentful_paint is None
        }),
{
}

/// A first paint is reported exactly when the epoch of the display list that triggered it is
/// rendered, not before.
pub proof fn law_first_paint_waits_for_its_epoch(
    epoch: u32,
    first_reflow: bool,
    is_contentful: bool,
    rendered: u32,
)
    ensures
        ({
            let r = PipelineMetrics::fresh().displayed(
                epoch,
                first_reflow,
                true,
                is_contentful,
            ).reports(rendered);
            &&& r.first_paint == (if epoch <= rendered {
                Some(first_reflow)
            } else {
                None
            })
            &&& r.first_contentful_paint == (if is_contentful && epoch <= rendered {
                Some(first_reflow)
            } else {
                None
            })
        }),
{
}

} // verus!
