//! The decisions of a painting engine: what is drawn when, by which painter, through which
//! surfaces, and who is told.
//!
//! The host owns the renderer, the graphics system, the clocks and the channels. It hands their
//! answers in as plain values and carries out what the functions here return.
use vstd::prelude::*;

pub mod animation_laws;
pub mod commit_scheduler;
pub mod composite_latch;
pub mod compositor_laws;
pub mod coordinator_laws;
pub mod dcomp_compositor;
pub mod debug_options;
pub mod dense;
pub mod end_frame;
pub mod end_frame_laws;
pub mod engine_laws;
pub mod external_present;
pub mod external_surface;
pub mod frame_delayer;
pub mod frame_queue;
mod fx;
pub mod geometry;
pub mod idmap;
pub mod measure_laws;
pub mod memory_report;
pub mod output_grid;
pub mod pacing;
pub mod pacing_laws;
pub mod paint;
pub mod paint_embedder;
pub mod paint_messages;
pub mod paint_metrics;
pub mod paint_pacing;
pub mod paint_webviews;
pub mod painter;
pub mod painter_images;
pub mod painter_input;
pub mod painter_laws;
pub mod painter_render;
pub mod painter_webviews;
pub mod profile;
pub mod readback;
pub mod refresh_driver;
pub mod rect_laws;
pub mod region;
pub mod resize_rebuild;
pub mod routing_laws;
pub mod scroll_signature;
pub mod seqs;
pub mod settings;
pub mod stale;
pub mod surface;
pub mod surface_entry;
pub mod surface_laws;
pub mod table;
pub mod text;
pub mod text_laws;
pub mod ticks;
pub mod tiles;
pub mod timing_laws;
pub mod video_convert;
pub mod wall_frame;
pub mod wall_frame_laws;
pub mod wall_metadata;
pub mod web_content_animation;
pub mod web_content_animator;
pub mod webrender_external_images;
pub mod window;

pub use crate::debug_options::WebRenderDebugOption;
pub use crate::paint::Paint;

use crate::output_grid::CompositionTiming;

verus! {

/// The grid of the desktop's compositor: the moment of a vertical blank and the period between
/// blanks, in clock ticks. `None` where the platform has no such clock or the clock does not
/// answer; the caller then runs freely.
pub fn dwm_composition_grid(timing: CompositionTiming) -> (r: Option<(u64, u64)>)
    ensures
        r == (match timing {
            CompositionTiming::Grid { vblank_qpc, period_qpc } => Some((vblank_qpc, period_qpc)),
            _ => None,
        }),
{
    match timing {
        CompositionTiming::Grid { vblank_qpc, period_qpc } => Some((vblank_qpc, period_qpc)),
        CompositionTiming::Unsupported => None,
        CompositionTiming::Unanswered => None,
    }
}

} // verus!
