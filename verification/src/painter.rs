//! One painter: what is drawn into one window, and when.
//!
//! The painter decides; the renderer, the compositor and the script threads are told by the host.
//! Web views, pipelines, images and frames are known by integers; image data is a handle of the
//! host.
use crate::composite_latch::CompositeLatch;
use crate::frame_delayer::{DelayerView, FrameDelayer};
use crate::frame_queue::{since, FrameQueue, FrameQueueView, FrameReason};
use crate::fx::{fx_drain, fx_get, fx_keys};
use crate::geometry::DeviceIntSize;
use crate::idmap::{distinct_ids, entries_map, lemma_entry, lemma_find_entry};
use crate::paint_metrics::PipelineMetrics;
use crate::refresh_driver::{AnimationRefreshDriverObserver, BaseRefreshDriver};
use crate::resize_rebuild::ResizeRebuild;
use crate::settings::alternate_size;
use rustc_hash::FxHashMap;
use std::collections::HashMap;
use vstd::prelude::*;

verus! {

/// Why a painter has to be repainted, as bits.
pub const READY_FOR_SCREENSHOT: u8 = 1;

pub const CHANGED_ANIMATION_STATE: u8 = 2;

pub const NEW_WEBRENDER_FRAME: u8 = 4;

pub const RESIZE: u8 = 8;

pub const STARTED_FLINGING: u8 = 16;

pub const BLINKING_CARET: u8 = 32;

/// How far apart two presents of external surfaces are at least, in nanoseconds.
pub const EXTERNAL_PRESENT_INTERVAL_NS: u64 = 14_000_000;

/// How long an acknowledgement is held before it is reported, and how far apart reports are.
pub const ACK_REPORT_INTERVAL_NS: u64 = 1_000_000_000;

/// What a painter knows of a web view.
#[derive(Debug)]
pub struct WebViewState {
    pub hidden: bool,
    pub root_pipeline_id: Option<u64>,
    /// Some animation of the web view runs.
    pub animating: bool,
    /// Script waits for animation callbacks.
    pub animation_callbacks_running: bool,
    pub pipelines: HashMap<u64, PipelineMetrics>,
}

/// A web view as a value.
#[verifier::ext_equal]
pub struct WebViewView {
    pub hidden: bool,
    pub root_pipeline_id: Option<u64>,
    pub animating: bool,
    pub callbacks: bool,
    pub pipelines: Map<u64, PipelineMetrics>,
}

impl View for WebViewState {
    type V = WebViewView;

    open spec fn view(&self) -> WebViewView {
        WebViewView {
            hidden: self.hidden,
            root_pipeline_id: self.root_pipeline_id,
            animating: self.animating,
            callbacks: self.animation_callbacks_running,
            pipelines: self.pipelines@,
        }
    }
}

impl WebViewView {
    /// A web view of which nothing is known yet.
    pub open spec fn fresh() -> WebViewView {
        WebViewView {
            hidden: false,
            root_pipeline_id: None,
            animating: false,
            callbacks: false,
            pipelines: Map::empty(),
        }
    }
}

/// Since when an acknowledgement is held, and when that was last reported.
#[derive(Clone, Copy, Debug, PartialEq, Eq, Structural)]
pub struct AckLatch {
    pub held_since: Option<u64>,
    pub last_report: Option<u64>,
}

/// How many owed acknowledgements were sent in the current window.
#[derive(Clone, Copy, Debug, PartialEq, Eq, Structural)]
pub struct AckFlushStats {
    pub count: u64,
    pub window_start: Option<u64>,
}

pub struct Painter {
    pub painter_id: u64,
    /// The rendering context that is painted to.
    pub rendering_context: u64,
    pub webview_renderers: FxHashMap<u64, WebViewState>,
    /// The reasons to repaint, as bits.
    pub needs_repaint: u8,
    pub frames: FrameQueue,
    pub gate: CompositeLatch,
    pub last_video_driven_frame_at: Option<u64>,
    /// A video asked for a composite that could not be issued yet.
    pub video_composite_owed: bool,
    pub frame_delayer: FrameDelayer,
    /// How many more owed acknowledgements are withheld on purpose.
    pub canvas_ack_skips_left: u64,
    pub ack_latch: AckLatch,
    pub ack_flush: AckFlushStats,
    /// The data of the animated images, by image.
    pub animation_image_cache: FxHashMap<u64, u64>,
    /// The newest frame of each video that was not composited yet.
    pub pending_video_frame_updates: FxHashMap<u64, u64>,
    pub last_external_present: Option<u64>,
    pub resize: ResizeRebuild,
    pub render_count: u64,
    pub refresh_driver: BaseRefreshDriver,
    pub animation_observer: AnimationRefreshDriverObserver,
    /// Where the mouse was last seen, as the bits of its coordinates.
    pub last_mouse_move_position: Option<(u32, u32)>,
}

/// A painter as a value.
#[verifier::ext_equal]
pub struct PainterView {
    pub painter_id: u64,
    pub context: u64,
    pub webviews: Map<u64, WebViewView>,
    pub needs_repaint: u8,
    pub frames: FrameQueueView,
    pub gate: CompositeLatch,
    pub last_video: Option<u64>,
    pub video_owed: bool,
    pub delayer: DelayerView,
    pub skips_left: u64,
    pub latch: AckLatch,
    pub flush: AckFlushStats,
    pub cache: Map<u64, u64>,
    pub video: Map<u64, u64>,
    pub last_external: Option<u64>,
    pub resize: ResizeRebuild,
    pub render_count: u64,
    pub observers: Seq<u64>,
    pub waiting_for_frame: bool,
    pub animating: bool,
    pub mouse: Option<(u32, u32)>,
}

/// The web views of a table as values.
pub open spec fn webview_views(m: Map<u64, WebViewState>) -> Map<u64, WebViewView> {
    Map::new(|k: u64| m.contains_key(k), |k: u64| m[k]@)
}

impl View for Painter {
    type V = PainterView;

    open spec fn view(&self) -> PainterView {
        PainterView {
            painter_id: self.painter_id,
            context: self.rendering_context,
            webviews: webview_views(self.webview_renderers@),
            needs_repaint: self.needs_repaint,
            frames: self.frames@,
            gate: self.gate,
            last_video: self.last_video_driven_frame_at,
            video_owed: self.video_composite_owed,
            delayer: self.frame_delayer@,
            skips_left: self.canvas_ack_skips_left,
            latch: self.ack_latch,
            flush: self.ack_flush,
            cache: self.animation_image_cache@,
            video: self.pending_video_frame_updates@,
            last_external: self.last_external_present,
            resize: self.resize,
            render_count: self.render_count,
            observers: self.refresh_driver.observers@,
            waiting_for_frame: self.refresh_driver.waiting_for_frame,
            animating: self.animation_observer.animating,
            mouse: self.last_mouse_move_position,
        }
    }
}

/// A change that is sent to an image of the renderer.
#[derive(Clone, Copy, Debug, PartialEq, Eq, Structural)]
pub enum ImageUpdate {
    /// A new image. `raw` data is bytes, other data is found by the renderer; an animated image
    /// keeps its bytes at hand.
    AddImage { key: u64, data: u64, raw: bool, animated: bool },
    DeleteImage { key: u64 },
    /// New contents: of a canvas with its epoch, of a video without.
    UpdateImage { key: u64, data: u64, epoch: Option<u64> },
    /// Another frame of an animated image, by a description of the host.
    UpdateImageForAnimation { key: u64, desc: u64 },
}

/// One step of a transaction for the renderer.
#[derive(Clone, Copy, Debug, PartialEq, Eq, Structural)]
pub enum TransactionOp {
    AddImage { key: u64, data: u64 },
    DeleteImage { key: u64 },
    UpdateImage { key: u64, data: u64 },
    /// The bytes at hand with another description.
    UpdateCachedImage { key: u64, data: u64, desc: u64 },
    /// The list of the web views, in paint order.
    RootDisplayList,
    /// An empty display list that makes a pipeline known.
    InitialDisplayList { pipeline: u64 },
    DisplayList { pipeline: u64, epoch: u32 },
    /// The scroll offsets of all scroll nodes.
    AllScrollOffsets,
    /// A scroll offset of the host.
    ScrollOffset { offset: u64 },
    DocumentView { width: u32, height: u32 },
    /// The colors of the blinking carets.
    CaretColors,
    DeleteFontInstance { key: u64 },
    DeleteFont { key: u64 },
    GenerateFrame { reason: FrameReason },
}

/// The steps hand each held image to the renderer once, and nothing else.
pub open spec fn flushes(ops: Seq<TransactionOp>, video: Map<u64, u64>) -> bool {
    &&& forall|i: int|
        0 <= i < ops.len() ==> (#[trigger] ops[i] matches TransactionOp::UpdateImage { key, data }
            && video.contains_key(key) && video[key] == data)
    &&& forall|i: int, j: int|
        0 <= i < j < ops.len() ==> #[trigger] ops[i] != #[trigger] ops[j]
    &&& forall|k: u64| #[trigger]
        video.contains_key(k) ==> ops.contains(
            TransactionOp::UpdateImage { key: k, data: video[k] },
        )
}

/// The steps hand over the held images and then request a frame.
pub open spec fn frame_ops(
    ops: Seq<TransactionOp>,
    video: Map<u64, u64>,
    reason: FrameReason,
) -> bool {
    &&& ops.len() > 0
    &&& ops.last() == TransactionOp::GenerateFrame { reason }
    &&& flushes(ops.drop_last(), video)
}

/// A transaction goes on with the held images and the request of a frame.
pub open spec fn extends_by_frame(
    before: Seq<TransactionOp>,
    after: Seq<TransactionOp>,
    video: Map<u64, u64>,
    reason: FrameReason,
) -> bool {
    &&& after.len() > before.len()
    &&& after.take(before.len() as int) == before
    &&& frame_ops(after.skip(before.len() as int), video, reason)
}

/// Each waiting pipeline is told once.
pub open spec fn tells(told: Seq<u64>, waiting: Set<u64>) -> bool {
    told.to_set() == waiting && told.no_duplicates()
}

impl PainterView {
    /// A painter without web views that has painted nothing.
    pub open spec fn fresh(
        painter_id: u64,
        context: u64,
        native_active: bool,
        steady: Option<DeviceIntSize>,
        skips_left: u64,
    ) -> PainterView {
        PainterView {
            painter_id,
            context,
            webviews: Map::empty(),
            needs_repaint: 0,
            frames: FrameQueueView::empty(),
            gate: CompositeLatch::opened(),
            last_video: None,
            video_owed: false,
            delayer: DelayerView::empty(),
            skips_left,
            latch: AckLatch { held_since: None, last_report: None },
            flush: AckFlushStats { count: 0, window_start: None },
            cache: Map::empty(),
            video: Map::empty(),
            last_external: None,
            resize: ResizeRebuild {
                native_active,
                pending: false,
                stable_frames: 0,
                steady,
                alternate: alternate_size(steady),
            },
            render_count: 0,
            observers: Seq::empty(),
            waiting_for_frame: false,
            animating: false,
            mouse: None,
        }
    }

    pub open spec fn repaint_for(self, reason: u8) -> PainterView {
        PainterView { needs_repaint: self.needs_repaint | reason, ..self }
    }

    /// There is a reason to repaint and painting does not wait for the next frame.
    pub open spec fn wants_repaint(self) -> bool {
        self.needs_repaint != 0 && !(self.observers.len() > 0 && self.waiting_for_frame)
    }

    /// Some web view waits for animation callbacks.
    pub open spec fn callbacks_running(self) -> bool {
        exists|w: u64| #[trigger] self.webviews.contains_key(w) && self.webviews[w].callbacks
    }

    /// A frame is requested. It carries the held video frames.
    pub open spec fn frame_requested(
        self,
        reason: FrameReason,
        wall: Option<u64>,
        wall_at: Option<u64>,
        now: u64,
    ) -> PainterView {
        PainterView {
            video: Map::empty(),
            frames: self.frames.requested(wall, wall_at, now, reason),
            ..self
        }
    }

    /// A composite is requested and is under way.
    pub open spec fn composite_requested(
        self,
        wall: Option<u64>,
        wall_at: Option<u64>,
        now: u64,
    ) -> PainterView {
        let s = self.frame_requested(FrameReason::Scene, wall, wall_at, now);
        PainterView { gate: s.gate.set_to(true, now), ..s }
    }

    /// The waiting pipelines are told and the frame that was asked for is on its way.
    pub open spec fn acknowledged(self) -> PainterView {
        PainterView { delayer: self.delayer.told().with_pending_frame(false), ..self }
    }

    /// Something is owed to a pipeline and the fault test withholds it.
    pub open spec fn withholds(self) -> bool {
        self.skips_left > 0 && !self.delayer.waiting.is_empty()
    }

    pub open spec fn gate_asked(self, now: u64) -> PainterView {
        PainterView { gate: self.gate.asked(now), ..self }
    }

    /// The composite that is asked for by script or by an arriving canvas image: the painter after
    /// it, and whether it was requested.
    pub open spec fn paced_composite(self, wall: Option<u64>, wall_at: Option<u64>, now: u64) -> (
        PainterView,
        bool,
    ) {
        if !self.delayer.needs_new_frame() {
            (self, false)
        } else if self.gate.behind(now) {
            (self.gate_asked(now), false)
        } else if self.withholds() {
            let s = self.gate_asked(now);
            (PainterView { skips_left: (s.skips_left - 1) as u64, ..s }, false)
        } else {
            (
                self.gate_asked(now).composite_requested(wall, wall_at, now).acknowledged(),
                true,
            )
        }
    }

    /// The painter, the steps for the renderer, and whether a video frame came, after one image
    /// update was taken in.
    pub open spec fn stage_one(self, update: ImageUpdate) -> (
        PainterView,
        Seq<TransactionOp>,
        bool,
    ) {
        match update {
            ImageUpdate::AddImage { key, data, raw, animated } => (
                if raw && animated {
                    PainterView { cache: self.cache.insert(key, data), ..self }
                } else {
                    self
                },
                seq![TransactionOp::AddImage { key, data }],
                false,
            ),
            ImageUpdate::DeleteImage { key } => (
                PainterView {
                    delayer: self.delayer.deleted(key),
                    cache: self.cache.remove(key),
                    video: self.video.remove(key),
                    ..self
                },
                seq![TransactionOp::DeleteImage { key }],
                false,
            ),
            ImageUpdate::UpdateImage { key, data, epoch: Some(epoch) } => (
                PainterView { delayer: self.delayer.updated(key, epoch), ..self },
                seq![TransactionOp::UpdateImage { key, data }],
                false,
            ),
            ImageUpdate::UpdateImage { key, data, epoch: None } => (
                PainterView { video: self.video.insert(key, data), ..self },
                Seq::empty(),
                true,
            ),
            ImageUpdate::UpdateImageForAnimation { key, desc } => (
                self,
                if self.cache.contains_key(key) {
                    seq![TransactionOp::UpdateCachedImage { key, data: self.cache[key], desc }]
                } else {
                    Seq::empty()
                },
                false,
            ),
        }
    }

    /// The same after several image updates, one after the other.
    pub open spec fn staged(self, updates: Seq<ImageUpdate>) -> (
        PainterView,
        Seq<TransactionOp>,
        bool,
    )
        decreases updates.len(),
    {
        if updates.len() == 0 {
            (self, Seq::empty(), false)
        } else {
            let (s, ops, video) = self.staged(updates.drop_last());
            let (next, more, is_video) = s.stage_one(updates.last());
            (next, ops + more, video || is_video)
        }
    }

    /// A video may ask for a composite again.
    pub open spec fn video_due(self, period: u64, now: u64) -> bool {
        match self.last_video {
            Some(last) => since(now, last) >= period,
            None => true,
        }
    }

    pub open spec fn external_due(self, now: u64) -> bool {
        match self.last_external {
            Some(last) => since(now, last) >= EXTERNAL_PRESENT_INTERVAL_NS,
            None => true,
        }
    }

    /// What a video frame that arrived asks for: the painter after it, and whether a composite was
    /// requested.
    pub open spec fn video_composite(
        self,
        arrived: bool,
        elsewhere: bool,
        enabled: bool,
        period: u64,
        now: u64,
    ) -> (PainterView, bool) {
        let owed = self.video_owed || (arrived && enabled && self.video_due(period, now));
        let s = PainterView { video_owed: owed, ..self };
        if !owed || elsewhere || s.frames.pending() > 0 || s.callbacks_running() {
            (s, false)
        } else if s.gate.behind(now) {
            (s.gate_asked(now), false)
        } else {
            let done = s.gate_asked(now).composite_requested(None, None, now);
            (PainterView { video_owed: false, last_video: Some(now), ..done }, true)
        }
    }
}

/// The steps of a transaction after a held image or more was handed over.
proof fn lemma_flush(entries: Seq<(u64, u64)>, ops: Seq<TransactionOp>, video: Map<u64, u64>)
    requires
        distinct_ids(entries),
        entries_map(entries) == video,
        ops.len() == entries.len(),
        forall|i: int|
            0 <= i < ops.len() ==> (#[trigger] ops[i]) == (TransactionOp::UpdateImage {
                key: entries[i].0,
                data: entries[i].1,
            }),
    ensures
        flushes(ops, video),
{
    assert forall|i: int| 0 <= i < ops.len() implies (#[trigger] ops[i] matches
        TransactionOp::UpdateImage { key, data } && video.contains_key(key) && video[key]
        == data) by {
        lemma_entry(entries, i);
    }
    assert forall|i: int, j: int| 0 <= i < j < ops.len() implies #[trigger] ops[i]
        != #[trigger] ops[j] by {
        assert(entries[i].0 != entries[j].0);
    }
    assert forall|k: u64| #[trigger] video.contains_key(k) implies ops.contains(
        TransactionOp::UpdateImage { key: k, data: video[k] },
    ) by {
        let i = lemma_find_entry(entries, k);
        assert(ops[i] == TransactionOp::UpdateImage { key: k, data: video[k] });
    }
}

impl Painter {
    pub open spec fn wf(self) -> bool {
        &&& self.frames.wf()
        &&& self.resize.wf()
    }

    /// A painter without web views. Its window is composed natively or not; its tiles have a
    /// steady size where one is set.
    pub fn new(
        painter_id: u64,
        rendering_context: u64,
        native_active: bool,
        steady_tile_size: Option<DeviceIntSize>,
        canvas_ack_skips: u64,
    ) -> (p: Painter)
        ensures
            p.wf(),
            p@ == PainterView::fresh(
                painter_id,
                rendering_context,
                native_active,
                steady_tile_size,
                canvas_ack_skips,
            ),
    {
        let p = Painter {
            painter_id,
            rendering_context,
            webview_renderers: FxHashMap::default(),
            needs_repaint: 0,
            frames: FrameQueue::new(),
            gate: CompositeLatch::new(),
            last_video_driven_frame_at: None,
            video_composite_owed: false,
            frame_delayer: FrameDelayer::new(),
            canvas_ack_skips_left: canvas_ack_skips,
            ack_latch: AckLatch { held_since: None, last_report: None },
            ack_flush: AckFlushStats { count: 0, window_start: None },
            animation_image_cache: FxHashMap::default(),
            pending_video_frame_updates: FxHashMap::default(),
            last_external_present: None,
            resize: ResizeRebuild::new(native_active, steady_tile_size),
            render_count: 0,
            refresh_driver: BaseRefreshDriver::new(),
            animation_observer: AnimationRefreshDriverObserver::new(),
            last_mouse_move_position: None,
        };
        assert(webview_views(p.webview_renderers@) =~= Map::<u64, WebViewView>::empty());
        p
    }

    /// The tile size that the renderer of a new painter is told at once, where one is set. Without
    /// one the renderer keeps its own.
    pub fn startup_tile_size(&self) -> (size: Option<DeviceIntSize>)
        ensures
            size == self@.resize.steady,
    {
        self.resize.steady
    }

    pub fn pending_frames(&self) -> (n: usize)
        requires
            self.wf(),
        ensures
            n == self@.frames.pending(),
    {
        self.frames.pending_frames
    }

    /// Whether a frame is on its way or held back for an image.
    pub fn has_pending_frames(&self) -> (b: bool)
        requires
            self.wf(),
        ensures
            b == (self@.frames.pending() > 0 || self@.delayer.pending_frame),
    {
        self.frames.pending_frames != 0 || self.frame_delayer.pending_frame
    }

    pub fn set_needs_repaint(&mut self, reason: u8)
        requires
            old(self).wf(),
        ensures
            final(self).wf(),
            final(self)@ == old(self)@.repaint_for(reason),
    {
        self.needs_repaint = self.needs_repaint | reason;
    }

    pub fn needs_repaint(&self) -> (b: bool)
        ensures
            b == self@.wants_repaint(),
    {
        if self.needs_repaint == 0 {
            return false;
        }
        !self.refresh_driver.wait_to_paint()
    }

    /// Whether script waits for the animation callbacks of some web view.
    pub fn animation_callbacks_running(&self) -> (b: bool)
        ensures
            b == self@.callbacks_running(),
    {
        let keys = fx_keys(&self.webview_renderers);
        let mut i: usize = 0;
        while i < keys.len()
            invariant
                i <= keys@.len(),
                keys@.to_set() == self.webview_renderers@.dom(),
                forall|k: int|
                    0 <= k < i ==> !(#[trigger] self.webview_renderers@[keys@[k]]).animation_callbacks_running,
            decreases keys@.len() - i,
        {
            let key: u64 = keys[i];
            proof {
                assert(keys@.contains(key));
                assert(keys@.to_set().contains(key));
            }
            if let Some(webview) = fx_get(&self.webview_renderers, key) {
                if webview.animation_callbacks_running {
                    assert(self@.webviews.contains_key(key));
                    return true;
                }
            }
            i = i + 1;
        }
        proof {
            if self@.callbacks_running() {
                let w = choose|w: u64| #[trigger]
                    self@.webviews.contains_key(w) && self@.webviews[w].callbacks;
                assert(keys@.to_set().contains(w));
                let k = choose|k: int| 0 <= k < keys@.len() && keys@[k] == w;
                assert(!self.webview_renderers@[keys@[k]].animation_callbacks_running);
            }
        }
        false
    }

    /// Requests a frame in the transaction. It carries the newest held video frames.
    pub fn generate_frame(
        &mut self,
        transaction: &mut Vec<TransactionOp>,
        reason: FrameReason,
        wall_logical_frame_id: Option<u64>,
        wall_requested_at: Option<u64>,
        now: u64,
    )
        requires
            old(self).wf(),
        ensures
            final(self).wf(),
            final(self)@ == old(self)@.frame_requested(
                reason,
                wall_logical_frame_id,
                wall_requested_at,
                now,
            ),
            extends_by_frame(old(transaction)@, final(transaction)@, old(self)@.video, reason),
    {
        let ghost start = transaction@;
        let ghost held = self.pending_video_frame_updates@;
        let entries = fx_drain(&mut self.pending_video_frame_updates);
        let mut i: usize = 0;
        while i < entries.len()
            invariant
                i <= entries@.len(),
                transaction@.len() == start.len() + i,
                transaction@.take(start.len() as int) == start,
                forall|k: int|
                    0 <= k < i ==> (#[trigger] transaction@[start.len() + k])
                        == (TransactionOp::UpdateImage {
                        key: entries@[k].0,
                        data: entries@[k].1,
                    }),
            decreases entries@.len() - i,
        {
            let ghost sofar = transaction@;
            transaction.push(
                TransactionOp::UpdateImage { key: entries[i].0, data: entries[i].1 },
            );
            proof {
                assert(transaction@.take(start.len() as int) =~= sofar.take(start.len() as int));
            }
            i = i + 1;
        }
        let ghost flushed = transaction@;
        transaction.push(TransactionOp::GenerateFrame { reason });
        proof {
            let tail = transaction@.skip(start.len() as int);
            assert(transaction@.take(start.len() as int) =~= start);
            assert(tail.drop_last() =~= flushed.skip(start.len() as int));
            assert forall|k: int| 0 <= k < tail.drop_last().len() implies (
            #[trigger] tail.drop_last()[k]) == (TransactionOp::UpdateImage {
                key: entries@[k].0,
                data: entries@[k].1,
            }) by {
                assert(flushed[start.len() + k] == tail.drop_last()[k]);
            }
            lemma_flush(entries@, tail.drop_last(), held);
        }
        self.frames.request(wall_logical_frame_id, wall_requested_at, now, reason);
    }

    /// Spends one withheld acknowledgement, where the fault test has any left and something is
    /// owed.
    pub fn consume_canvas_ack_skip(&mut self) -> (b: bool)
        requires
            old(self).wf(),
        ensures
            final(self).wf(),
            b == old(self)@.withholds(),
            final(self)@ == (if b {
                PainterView { skips_left: (old(self)@.skips_left - 1) as u64, ..old(self)@ }
            } else {
                old(self)@
            }),
    {
        if self.canvas_ack_skips_left == 0 {
            return false;
        }
        if !self.frame_delayer.is_holding_ack() {
            return false;
        }
        self.canvas_ack_skips_left = self.canvas_ack_skips_left - 1;
        true
    }

    /// Requests the composite that script, or an arriving canvas image, waits for: where it was
    /// asked for, no image is missing, no composite is under way and the fault test withholds
    /// nothing. The pipelines that wait are handed back to be told.
    pub(crate) fn request_paced_composite(
        &mut self,
        transaction: &mut Vec<TransactionOp>,
        wall_logical_frame_id: Option<u64>,
        wall_requested_at: Option<u64>,
        now: u64,
    ) -> (r: Option<Vec<u64>>)
        requires
            old(self).wf(),
        ensures
            final(self).wf(),
            (final(self)@, r is Some) == old(self)@.paced_composite(
                wall_logical_frame_id,
                wall_requested_at,
                now,
            ),
            match r {
                Some(told) => tells(told@, old(self)@.delayer.waiting) && extends_by_frame(
                    old(transaction)@,
                    final(transaction)@,
                    old(self)@.video,
                    FrameReason::Scene,
                ),
                None => final(transaction)@ == old(transaction)@,
            },
    {
        if !self.frame_delayer.needs_new_frame() {
            return None;
        }
        if self.gate.renderer_behind(now) {
            return None;
        }
        if self.consume_canvas_ack_skip() {
            return None;
        }
        self.generate_frame(
            transaction,
            FrameReason::Scene,
            wall_logical_frame_id,
            wall_requested_at,
            now,
        );
        self.gate.set(true, now);
        let told = self.frame_delayer.take_waiting_pipelines();
        self.frame_delayer.set_pending_frame(false);
        Some(told)
    }
}

} // verus!
