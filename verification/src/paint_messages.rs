//! What the engine does with the messages that it gets.
use crate::paint::{Paint, PaintView, ShutdownState};
use crate::paint_pacing::{released_by, ReleasedFrame};
use crate::painter::ImageUpdate;
use crate::painter_render::FrameReleased;
use crate::resize_rebuild::ResizeTick;
use crate::seqs::lemma_take_has;
use crate::table::table_ids;
use crate::wall_frame::{
    reported, CoordinatorView, FrameReadyDiagnostic, WallFrameRepaintDecision,
};
use std::collections::HashMap;
use vstd::prelude::*;

verus! {

broadcast use vstd::std_specs::hash::group_hash_axioms;

/// A message, by what it says of where it goes: the web view or the painter that it names.
#[derive(Clone, Copy, Debug, PartialEq, Eq, Structural)]
pub enum PaintMessage {
    CollectMemoryReport,
    ChangeRunningAnimationsState(u64),
    SetFrameTreeForWebView(u64),
    SetThrottled(u64),
    PipelineExited(u64),
    NewWebRenderFrameReady(u64),
    SendInitialTransaction(u64),
    ScrollNodeByDelta(u64),
    ScrollViewportByDelta(u64),
    UpdateEpoch(u64),
    SendDisplayList(u64),
    GenerateFrame,
    GetWebViewPainterTargets(u64),
    GenerateImageKey(u64),
    GenerateImageKeysForPipeline(u64),
    UpdateImages(u64),
    DelayNewFrameForCanvas(u64),
    AddFont(u64),
    AddSystemFont(u64),
    AddFontInstance(u64),
    RemoveFonts(u64),
    GenerateFontKeys(u64),
    Viewport(u64),
    ScreenshotReadinessResponse(u64),
    SendLCPCandidate(u64),
    EnableLCPCalculation(u64),
}

/// What a painter does with a message. Where it concerns one web view, that is named.
#[derive(Clone, Copy, Debug, PartialEq, Eq, Structural)]
pub enum PainterHandler {
    ChangeRunningAnimationsState { webview: u64 },
    SetFrameTreeForWebView { webview: u64 },
    SetThrottled { webview: u64 },
    NotifyPipelineExited { webview: u64 },
    SendInitialPipelineTransaction { webview: u64 },
    ScrollNodeByDelta { webview: u64 },
    ScrollViewportByDelta { webview: u64 },
    UpdateEpoch { webview: u64 },
    HandleNewDisplayList { webview: u64 },
    UpdateImages { source: u64 },
    DelayNewFramesForCanvas,
    AddFont,
    AddSystemFont,
    AddFontInstance,
    RemoveFonts,
    SetViewportDescription { webview: u64 },
    HandleScreenshotReadinessReply { webview: u64 },
    AppendLcpCandidate { webview: u64 },
    EnableLcpCalculation { webview: u64 },
}

/// The keys that are asked for.
#[derive(Clone, Copy, Debug, PartialEq, Eq, Structural)]
pub enum KeyRequest {
    /// One key, for the sender.
    Image,
    /// A batch of keys, for a pipeline.
    ImagesForPipeline,
    Fonts,
}

/// Where a message goes.
#[derive(Debug)]
pub enum Delivery {
    /// Nowhere.
    Ignored,
    /// To the engine itself: it asks for a frame.
    Frame,
    /// To every painter, for a report.
    EveryPainter,
    /// To these painters, in order, each of which does the same with it.
    Painters { handler: PainterHandler, painters: Vec<u64> },
    /// Back to the sender, with the painters of the web view.
    Reply(Vec<u64>),
    /// To a painter that makes keys. One that is not there makes dummies: nothing of it is ever
    /// drawn again.
    Keys { request: KeyRequest, painter: u64, dummy: bool },
}

/// A delivery as a value.
#[verifier::ext_equal]
pub enum DeliveryView {
    Ignored,
    Frame,
    EveryPainter,
    Painters { handler: PainterHandler, painters: Seq<u64> },
    Reply(Seq<u64>),
    Keys { request: KeyRequest, painter: u64, dummy: bool },
}

impl View for Delivery {
    type V = DeliveryView;

    open spec fn view(&self) -> DeliveryView {
        match *self {
            Delivery::Ignored => DeliveryView::Ignored,
            Delivery::Frame => DeliveryView::Frame,
            Delivery::EveryPainter => DeliveryView::EveryPainter,
            Delivery::Painters { handler, painters } => DeliveryView::Painters {
                handler,
                painters: painters@,
            },
            Delivery::Reply(ids) => DeliveryView::Reply(ids@),
            Delivery::Keys { request, painter, dummy } => DeliveryView::Keys {
                request,
                painter,
                dummy,
            },
        }
    }
}

impl PaintView {
    /// Those of the painters that are there.
    pub open spec fn present(self, ids: Seq<u64>) -> Seq<u64> {
        ids.filter(|p: u64| self.painters.contains_key(p))
    }

    pub open spec fn to_webview(self, webview: u64, handler: PainterHandler) -> DeliveryView {
        DeliveryView::Painters { handler, painters: self.present(self.targets_of(webview)) }
    }

    pub open spec fn to_primary(self, webview: u64, handler: PainterHandler) -> DeliveryView {
        DeliveryView::Painters { handler, painters: self.present(seq![self.primary_of(webview)]) }
    }

    pub open spec fn to_source(self, painter: u64, handler: PainterHandler) -> DeliveryView {
        DeliveryView::Painters { handler, painters: self.present(self.source_targets(painter)) }
    }

    pub open spec fn keys_from(self, painter: u64, request: KeyRequest) -> DeliveryView {
        DeliveryView::Keys { request, painter, dummy: !self.painters.contains_key(painter) }
    }

    /// Where a message goes while the engine runs.
    pub open spec fn delivery(self, message: PaintMessage) -> DeliveryView {
        match message {
            PaintMessage::CollectMemoryReport => DeliveryView::EveryPainter,
            PaintMessage::ChangeRunningAnimationsState(w) => self.to_webview(
                w,
                PainterHandler::ChangeRunningAnimationsState { webview: w },
            ),
            PaintMessage::SetFrameTreeForWebView(w) => self.to_webview(
                w,
                PainterHandler::SetFrameTreeForWebView { webview: w },
            ),
            PaintMessage::SetThrottled(w) => self.to_webview(
                w,
                PainterHandler::SetThrottled { webview: w },
            ),
            PaintMessage::PipelineExited(w) => self.to_webview(
                w,
                PainterHandler::NotifyPipelineExited { webview: w },
            ),
            PaintMessage::NewWebRenderFrameReady(_) => DeliveryView::Ignored,
            PaintMessage::SendInitialTransaction(w) => self.to_webview(
                w,
                PainterHandler::SendInitialPipelineTransaction { webview: w },
            ),
            PaintMessage::ScrollNodeByDelta(w) => self.to_webview(
                w,
                PainterHandler::ScrollNodeByDelta { webview: w },
            ),
            PaintMessage::ScrollViewportByDelta(w) => self.to_webview(
                w,
                PainterHandler::ScrollViewportByDelta { webview: w },
            ),
            PaintMessage::UpdateEpoch(w) => self.to_webview(
                w,
                PainterHandler::UpdateEpoch { webview: w },
            ),
            PaintMessage::SendDisplayList(w) => self.to_webview(
                w,
                PainterHandler::HandleNewDisplayList { webview: w },
            ),
            PaintMessage::GenerateFrame => DeliveryView::Frame,
            PaintMessage::GetWebViewPainterTargets(w) => DeliveryView::Reply(self.targets_of(w)),
            PaintMessage::GenerateImageKey(w) => self.keys_from(
                self.primary_of(w),
                KeyRequest::Image,
            ),
            PaintMessage::GenerateImageKeysForPipeline(w) => self.keys_from(
                self.primary_of(w),
                KeyRequest::ImagesForPipeline,
            ),
            PaintMessage::UpdateImages(p) => self.to_source(
                p,
                PainterHandler::UpdateImages { source: p },
            ),
            PaintMessage::DelayNewFrameForCanvas(w) => self.to_webview(
                w,
                PainterHandler::DelayNewFramesForCanvas,
            ),
            PaintMessage::AddFont(p) => self.to_source(
                p,
                PainterHandler::AddFont,
            ),
            PaintMessage::AddSystemFont(p) => self.to_source(
                p,
                PainterHandler::AddSystemFont,
            ),
            PaintMessage::AddFontInstance(p) => self.to_source(
                p,
                PainterHandler::AddFontInstance,
            ),
            PaintMessage::RemoveFonts(p) => self.to_source(
                p,
                PainterHandler::RemoveFonts,
            ),
            PaintMessage::GenerateFontKeys(p) => self.keys_from(p, KeyRequest::Fonts),
            PaintMessage::Viewport(w) => self.to_webview(
                w,
                PainterHandler::SetViewportDescription { webview: w },
            ),
            PaintMessage::ScreenshotReadinessResponse(w) => self.to_primary(
                w,
                PainterHandler::HandleScreenshotReadinessReply { webview: w },
            ),
            PaintMessage::SendLCPCandidate(w) => self.to_webview(
                w,
                PainterHandler::AppendLcpCandidate { webview: w },
            ),
            PaintMessage::EnableLCPCalculation(w) => self.to_webview(
                w,
                PainterHandler::EnableLcpCalculation { webview: w },
            ),
        }
    }

    /// Where a message goes while the engine shuts down: only what another thread may wait for is
    /// answered.
    pub open spec fn delivery_while_shutting_down(self, message: PaintMessage) -> DeliveryView {
        match message {
            PaintMessage::PipelineExited(w) => self.to_primary(
                w,
                PainterHandler::NotifyPipelineExited { webview: w },
            ),
            PaintMessage::GenerateImageKey(w) => self.keys_from(
                self.primary_of(w),
                KeyRequest::Image,
            ),
            PaintMessage::GenerateImageKeysForPipeline(w) => self.keys_from(
                self.primary_of(w),
                KeyRequest::ImagesForPipeline,
            ),
            PaintMessage::GenerateFontKeys(p) => self.keys_from(p, KeyRequest::Fonts),
            _ => DeliveryView::Ignored,
        }
    }

    pub open spec fn routed(self, message: PaintMessage) -> DeliveryView {
        match self.shutdown {
            ShutdownState::NotShuttingDown => self.delivery(message),
            ShutdownState::ShuttingDown => self.delivery_while_shutting_down(message),
            ShutdownState::FinishedShuttingDown => DeliveryView::Ignored,
        }
    }
}

impl Paint {
    /// Those of the painters that are there.
    fn present_painters(&self, ids: &[u64]) -> (out: Vec<u64>)
        requires
            self.wf(),
        ensures
            out@ == self@.present(ids@),
    {
        let ghost known = |p: u64| self@.painters.contains_key(p);
        let mut out: Vec<u64> = Vec::new();
        let mut i: usize = 0;
        proof {
            reveal(Seq::filter);
            assert(ids@.take(0) =~= Seq::<u64>::empty());
        }
        while i < ids.len()
            invariant
                i <= ids@.len(),
                self.wf(),
                known == (|p: u64| self@.painters.contains_key(p)),
                out@ == ids@.take(i as int).filter(known),
            decreases ids@.len() - i,
        {
            proof {
                reveal(Seq::filter);
                assert(ids@.take(i + 1).drop_last() =~= ids@.take(i as int));
            }
            if self.maybe_painter(ids[i]).is_some() {
                out.push(ids[i]);
            }
            i = i + 1;
        }
        assert(ids@.take(i as int) =~= ids@);
        out
    }

    fn deliver_to_webview(&self, webview_id: u64, handler: PainterHandler) -> (d: Delivery)
        requires
            self.wf(),
        ensures
            d@ == self@.to_webview(webview_id, handler),
    {
        let ids = self.painter_targets_for_webview(webview_id);
        Delivery::Painters { handler, painters: self.present_painters(&ids) }
    }

    fn deliver_to_primary(&self, webview_id: u64, handler: PainterHandler) -> (d: Delivery)
        requires
            self.wf(),
        ensures
            d@ == self@.to_primary(webview_id, handler),
    {
        let mut ids: Vec<u64> = Vec::new();
        ids.push(self.primary_painter_id_for_webview(webview_id));
        assert(ids@ =~= seq![self@.primary_of(webview_id)]);
        Delivery::Painters { handler, painters: self.present_painters(&ids) }
    }

    fn deliver_to_source(&self, painter_id: u64, handler: PainterHandler) -> (d: Delivery)
        requires
            self.wf(),
        ensures
            d@ == self@.to_source(painter_id, handler),
    {
        let ids = self.target_painter_ids_for_source_painter(painter_id);
        Delivery::Painters { handler, painters: self.present_painters(&ids) }
    }

    fn deliver_to_keys(&self, painter_id: u64, request: KeyRequest) -> (d: Delivery)
        requires
            self.wf(),
        ensures
            d@ == self@.keys_from(painter_id, request),
    {
        Delivery::Keys {
            request,
            painter: painter_id,
            dummy: self.maybe_painter(painter_id).is_none(),
        }
    }

    /// Where a message goes while the engine shuts down.
    fn handle_browser_message_while_shutting_down(&self, message: PaintMessage) -> (d: Delivery)
        requires
            self.wf(),
        ensures
            d@ == self@.delivery_while_shutting_down(message),
    {
        match message {
            PaintMessage::PipelineExited(w) => self.deliver_to_primary(
                w,
                PainterHandler::NotifyPipelineExited { webview: w },
            ),
            PaintMessage::GenerateImageKey(w) => self.deliver_to_keys(
                self.primary_painter_id_for_webview(w),
                KeyRequest::Image,
            ),
            PaintMessage::GenerateImageKeysForPipeline(w) => self.deliver_to_keys(
                self.primary_painter_id_for_webview(w),
                KeyRequest::ImagesForPipeline,
            ),
            PaintMessage::GenerateFontKeys(p) => self.deliver_to_keys(p, KeyRequest::Fonts),
            _ => Delivery::Ignored,
        }
    }

    /// Where a message goes, and what is done with it there. Frames that are ready are no messages
    /// for a painter: while the engine runs they are taken out before, all together.
    pub fn handle_browser_message(&self, message: PaintMessage) -> (d: Delivery)
        requires
            self.wf(),
            self@.running() ==> !(message is NewWebRenderFrameReady),
        ensures
            d@ == self@.routed(message),
    {
        match self.shutdown_state {
            ShutdownState::NotShuttingDown => {},
            ShutdownState::ShuttingDown => {
                return self.handle_browser_message_while_shutting_down(message);
            },
            ShutdownState::FinishedShuttingDown => {
                return Delivery::Ignored;
            },
        }
        match message {
            PaintMessage::CollectMemoryReport => Delivery::EveryPainter,
            PaintMessage::ChangeRunningAnimationsState(w) => self.deliver_to_webview(
                w,
                PainterHandler::ChangeRunningAnimationsState { webview: w },
            ),
            PaintMessage::SetFrameTreeForWebView(w) => self.deliver_to_webview(
                w,
                PainterHandler::SetFrameTreeForWebView { webview: w },
            ),
            PaintMessage::SetThrottled(w) => self.deliver_to_webview(
                w,
                PainterHandler::SetThrottled { webview: w },
            ),
            PaintMessage::PipelineExited(w) => self.deliver_to_webview(
                w,
                PainterHandler::NotifyPipelineExited { webview: w },
            ),
            PaintMessage::NewWebRenderFrameReady(_) => Delivery::Ignored,
            PaintMessage::SendInitialTransaction(w) => self.deliver_to_webview(
                w,
                PainterHandler::SendInitialPipelineTransaction { webview: w },
            ),
            PaintMessage::ScrollNodeByDelta(w) => self.deliver_to_webview(
                w,
                PainterHandler::ScrollNodeByDelta { webview: w },
            ),
            PaintMessage::ScrollViewportByDelta(w) => self.deliver_to_webview(
                w,
                PainterHandler::ScrollViewportByDelta { webview: w },
            ),
            PaintMessage::UpdateEpoch(w) => self.deliver_to_webview(
                w,
                PainterHandler::UpdateEpoch { webview: w },
            ),
            PaintMessage::SendDisplayList(w) => self.deliver_to_webview(
                w,
                PainterHandler::HandleNewDisplayList { webview: w },
            ),
            PaintMessage::GenerateFrame => Delivery::Frame,
            PaintMessage::GetWebViewPainterTargets(w) => Delivery::Reply(
                self.painter_targets_for_webview(w),
            ),
            PaintMessage::GenerateImageKey(w) => self.deliver_to_keys(
                self.primary_painter_id_for_webview(w),
                KeyRequest::Image,
            ),
            PaintMessage::GenerateImageKeysForPipeline(w) => self.deliver_to_keys(
                self.primary_painter_id_for_webview(w),
                KeyRequest::ImagesForPipeline,
            ),
            PaintMessage::UpdateImages(p) => self.deliver_to_source(
                p,
                PainterHandler::UpdateImages { source: p },
            ),
            PaintMessage::DelayNewFrameForCanvas(w) => self.deliver_to_webview(
                w,
                PainterHandler::DelayNewFramesForCanvas,
            ),
            PaintMessage::AddFont(p) => self.deliver_to_source(
                p,
                PainterHandler::AddFont,
            ),
            PaintMessage::AddSystemFont(p) => self.deliver_to_source(
                p,
                PainterHandler::AddSystemFont,
            ),
            PaintMessage::AddFontInstance(p) => self.deliver_to_source(
                p,
                PainterHandler::AddFontInstance,
            ),
            PaintMessage::RemoveFonts(p) => self.deliver_to_source(
                p,
                PainterHandler::RemoveFonts,
            ),
            PaintMessage::GenerateFontKeys(p) => self.deliver_to_keys(p, KeyRequest::Fonts),
            PaintMessage::Viewport(w) => self.deliver_to_webview(
                w,
                PainterHandler::SetViewportDescription { webview: w },
            ),
            PaintMessage::ScreenshotReadinessResponse(w) => self.deliver_to_primary(
                w,
                PainterHandler::HandleScreenshotReadinessReply { webview: w },
            ),
            PaintMessage::SendLCPCandidate(w) => self.deliver_to_webview(
                w,
                PainterHandler::AppendLcpCandidate { webview: w },
            ),
            PaintMessage::EnableLCPCalculation(w) => self.deliver_to_webview(
                w,
                PainterHandler::EnableLcpCalculation { webview: w },
            ),
        }
    }
}

/// The keys that other threads wait for are answered until the shutdown is over, by the same
/// painter.
pub proof fn law_keys_are_answered_while_shutting_down(v: PaintView, w: u64, p: u64)
    requires
        v.shutdown != ShutdownState::FinishedShuttingDown,
    ensures
        v.routed(PaintMessage::GenerateImageKey(w)) == v.keys_from(
            v.primary_of(w),
            KeyRequest::Image,
        ),
        v.routed(PaintMessage::GenerateImageKeysForPipeline(w)) == v.keys_from(
            v.primary_of(w),
            KeyRequest::ImagesForPipeline,
        ),
        v.routed(PaintMessage::GenerateFontKeys(p)) == v.keys_from(p, KeyRequest::Fonts),
{
}

/// No frame is asked for once the engine shuts down, and nothing is done once that is over.
pub proof fn law_shutdown_stops_frames(v: PaintView, message: PaintMessage)
    ensures
        !v.running() ==> v.routed(PaintMessage::GenerateFrame) == DeliveryView::Ignored,
        v.shutdown == ShutdownState::FinishedShuttingDown ==> v.routed(message)
            == DeliveryView::Ignored,
{
}

/// How many image updates of each kind a batch holds.
#[derive(Clone, Copy, Debug, PartialEq, Eq, Structural)]
pub struct ImageFanout {
    pub adds: usize,
    pub updates: usize,
    pub deletes: usize,
    pub animation_updates: usize,
}

pub open spec fn counted(updates: Seq<ImageUpdate>) -> ImageFanout
    decreases updates.len(),
{
    if updates.len() == 0 {
        ImageFanout { adds: 0, updates: 0, deletes: 0, animation_updates: 0 }
    } else {
        let c = counted(updates.drop_last());
        match updates.last() {
            ImageUpdate::AddImage { .. } => ImageFanout { adds: (c.adds + 1) as usize, ..c },
            ImageUpdate::UpdateImage { .. } => ImageFanout {
                updates: (c.updates + 1) as usize,
                ..c
            },
            ImageUpdate::DeleteImage { .. } => ImageFanout {
                deletes: (c.deletes + 1) as usize,
                ..c
            },
            ImageUpdate::UpdateImageForAnimation { .. } => ImageFanout {
                animation_updates: (c.animation_updates + 1) as usize,
                ..c
            },
        }
    }
}

/// Counts the image updates of each kind.
pub fn count_image_updates(updates: &[ImageUpdate]) -> (c: ImageFanout)
    ensures
        c == counted(updates@),
        c.adds + c.updates + c.deletes + c.animation_updates == updates@.len(),
{
    let mut c = ImageFanout { adds: 0, updates: 0, deletes: 0, animation_updates: 0 };
    let mut i: usize = 0;
    assert(updates@.take(0) =~= Seq::<ImageUpdate>::empty());
    while i < updates.len()
        invariant
            i <= updates@.len(),
            c == counted(updates@.take(i as int)),
            c.adds + c.updates + c.deletes + c.animation_updates == i,
        decreases updates@.len() - i,
    {
        proof {
            assert(updates@.take(i + 1).drop_last() =~= updates@.take(i as int));
        }
        match updates[i] {
            ImageUpdate::AddImage { .. } => {
                c.adds = c.adds + 1;
            },
            ImageUpdate::UpdateImage { .. } => {
                c.updates = c.updates + 1;
            },
            ImageUpdate::DeleteImage { .. } => {
                c.deletes = c.deletes + 1;
            },
            ImageUpdate::UpdateImageForAnimation { .. } => {
                c.animation_updates = c.animation_updates + 1;
            },
        }
        i = i + 1;
    }
    assert(updates@.take(i as int) =~= updates@);
    c
}

/// What is said of a batch of image updates that goes to several painters.
#[derive(Clone, Copy, Debug, PartialEq, Eq, Structural)]
pub struct FanoutReport {
    pub counts: ImageFanout,
    pub fanout_id: u64,
    /// It is said aloud.
    pub summary: bool,
}

/// How many batches of image updates went to several painters.
#[derive(Clone, Copy, Debug, PartialEq, Eq, Structural)]
pub struct FanoutCounter {
    pub count: u64,
}

impl FanoutCounter {
    pub fn new() -> (c: FanoutCounter)
        ensures
            c == (FanoutCounter { count: 0 }),
    {
        FanoutCounter { count: 0 }
    }

    /// A batch goes to as many painters as are meant by it, whether they are there or not. One
    /// that is meant for a single painter is not counted.
    pub fn note(&mut self, targets: usize, updates: &[ImageUpdate]) -> (r: Option<FanoutReport>)
        ensures
            ({
                let fanout_id = old(self).count.wrapping_add(1);
                let counts = counted(updates@);
                if targets > 1 {
                    &&& final(self).count == fanout_id
                    &&& r == Some(
                        FanoutReport {
                            counts,
                            fanout_id,
                            summary: counts.adds > 0 || counts.deletes > 0 || reported(fanout_id),
                        },
                    )
                } else {
                    r is None && *final(self) == *old(self)
                }
            }),
    {
        if targets <= 1 {
            return None;
        }
        let fanout_id: u64 = self.count.wrapping_add(1);
        self.count = fanout_id;
        let counts = count_image_updates(updates);
        let summary: bool = image_fanout_is_reported(&counts, fanout_id);
        Some(FanoutReport { counts, fanout_id, summary })
    }
}

/// Whether a batch of image updates that goes to several painters is reported: always where images
/// come or go, else the first three times and then every hundred and twentieth.
pub fn image_fanout_is_reported(c: &ImageFanout, fanout_id: u64) -> (b: bool)
    ensures
        b == (c.adds > 0 || c.deletes > 0 || reported(fanout_id)),
{
    c.adds > 0 || c.deletes > 0 || crate::wall_frame::is_reported(fanout_id)
}

/// The frames that came with a batch of messages: those that belong to a barrier or may, and, by
/// painter, whether a frame needs a repaint.
#[derive(Debug)]
pub struct MessageRun {
    pub diagnostics: Vec<FrameReadyDiagnostic>,
    pub ready: HashMap<u64, bool>,
    /// What became of a drag, by painter.
    pub resize: Vec<(u64, ResizeTick)>,
}

/// What a batch of messages comes to.
#[derive(Debug)]
pub struct SettledFrames {
    /// The frames whose deadline passed, in the order in which they were decided.
    pub swept: Vec<u64>,
    pub released: Vec<ReleasedFrame>,
    pub repainted: Vec<(u64, FrameReleased)>,
}

/// A painter's frame needs a repaint, or not; a need stays.
pub open spec fn recorded(ready: Map<u64, bool>, painter: u64, repaint: bool) -> Map<u64, bool> {
    ready.insert(painter, (ready.contains_key(painter) && ready[painter]) || repaint)
}

pub open spec fn all_recorded(
    ready: Map<u64, bool>,
    decisions: Seq<WallFrameRepaintDecision>,
) -> Map<u64, bool>
    decreases decisions.len(),
{
    if decisions.len() == 0 {
        ready
    } else {
        recorded(
            all_recorded(ready, decisions.drop_last()),
            decisions.last().painter_id,
            decisions.last().repaint_needed,
        )
    }
}

/// The coordinator and the painters' needs after ready frames were reported to it.
pub open spec fn coordinated(
    c: CoordinatorView,
    ready: Map<u64, bool>,
    diagnostics: Seq<FrameReadyDiagnostic>,
) -> (CoordinatorView, Map<u64, bool>)
    decreases diagnostics.len(),
{
    if diagnostics.len() == 0 {
        (c, ready)
    } else {
        let (mid, needs) = coordinated(c, ready, diagnostics.drop_last());
        let d = diagnostics.last();
        let (next, update) = mid.noted(d);
        (
            next,
            match update {
                Some(u) => all_recorded(needs, u.decisions),
                None => recorded(needs, d.painter_id, d.need_repaint),
            },
        )
    }
}

/// What frames that are ready come to, before the other messages.
#[verifier::ext_equal]
pub struct RunView {
    pub paint: PaintView,
    pub diagnostics: Seq<FrameReadyDiagnostic>,
    pub ready: Map<u64, bool>,
    pub resize: Seq<(u64, ResizeTick)>,
}

impl PaintView {
    /// The engine after the renderers of these painters had frames ready.
    pub open spec fn frames_noted(
        self,
        frames: Seq<(u64, bool)>,
        rebuild_disabled: bool,
        now: u64,
    ) -> RunView
        decreases frames.len(),
    {
        if frames.len() == 0 {
            RunView {
                paint: self,
                diagnostics: Seq::empty(),
                ready: Map::empty(),
                resize: Seq::empty(),
            }
        } else {
            let run = self.frames_noted(frames.drop_last(), rebuild_disabled, now);
            let (painter, need_repaint) = frames.last();
            if !run.paint.painters.contains_key(painter) {
                run
            } else {
                let (p, outcome) = run.paint.painters[painter].frame_ready(
                    need_repaint,
                    rebuild_disabled,
                    now,
                );
                RunView {
                    paint: run.paint.with_painter(painter, p),
                    diagnostics: match outcome.diagnostic {
                        Some(d) => run.diagnostics.push(d),
                        None => run.diagnostics,
                    },
                    ready: match outcome.diagnostic {
                        Some(_) => run.ready,
                        None => recorded(run.ready, painter, need_repaint),
                    },
                    resize: run.resize.push((painter, outcome.resize)),
                }
            }
        }
    }

    /// The engine after the painters were told of their ready frames.
    pub open spec fn repainted(self, ready: Map<u64, bool>) -> PaintView {
        PaintView {
            painters: Map::new(
                |p: u64| self.painters.contains_key(p),
                |p: u64|
                    if ready.contains_key(p) {
                        self.painters[p].released(ready[p])
                    } else {
                        self.painters[p]
                    },
            ),
            ..self
        }
    }
}

/// Records whether a painter's frame needs a repaint.
fn record_painter_ready_for_repaint(ready: &mut HashMap<u64, bool>, painter_id: u64, repaint_needed: bool)
    ensures
        final(ready)@ == recorded(old(ready)@, painter_id, repaint_needed),
{
    let before: bool = match ready.get(&painter_id) {
        Some(b) => *b,
        None => false,
    };
    ready.insert(painter_id, before || repaint_needed);
}

fn record_wall_frame_repaint_decisions(
    ready: &mut HashMap<u64, bool>,
    decisions: &[WallFrameRepaintDecision],
)
    ensures
        final(ready)@ == all_recorded(old(ready)@, decisions@),
{
    let mut i: usize = 0;
    assert(decisions@.take(0) =~= Seq::<WallFrameRepaintDecision>::empty());
    while i < decisions.len()
        invariant
            i <= decisions@.len(),
            ready@ == all_recorded(old(ready)@, decisions@.take(i as int)),
        decreases decisions@.len() - i,
    {
        proof {
            assert(decisions@.take(i + 1).drop_last() =~= decisions@.take(i as int));
        }
        record_painter_ready_for_repaint(
            ready,
            decisions[i].painter_id,
            decisions[i].repaint_needed,
        );
        i = i + 1;
    }
    assert(decisions@.take(i as int) =~= decisions@);
}

impl Paint {
    /// Takes the ready frames out of a batch of messages, each with its painter and whether it
    /// needs a repaint, so that a painter repaints once for all of them.
    pub fn begin_messages(
        &mut self,
        frames_ready: &[(u64, bool)],
        rebuild_disabled: bool,
        now: u64,
    ) -> (run: MessageRun)
        requires
            old(self).wf(),
        ensures
            final(self).wf(),
            (RunView {
                paint: final(self)@,
                diagnostics: run.diagnostics@,
                ready: run.ready@,
                resize: run.resize@,
            }) == old(self)@.frames_noted(frames_ready@, rebuild_disabled, now),
    {
        let mut diagnostics: Vec<FrameReadyDiagnostic> = Vec::new();
        let mut ready: HashMap<u64, bool> = HashMap::new();
        let mut resize: Vec<(u64, ResizeTick)> = Vec::new();
        let mut i: usize = 0;
        assert(frames_ready@.take(0) =~= Seq::<(u64, bool)>::empty());
        while i < frames_ready.len()
            invariant
                i <= frames_ready@.len(),
                self.wf(),
                (RunView {
                    paint: self@,
                    diagnostics: diagnostics@,
                    ready: ready@,
                    resize: resize@,
                }) == old(self)@.frames_noted(
                    frames_ready@.take(i as int),
                    rebuild_disabled,
                    now,
                ),
            decreases frames_ready@.len() - i,
        {
            let (painter_id, need_repaint) = frames_ready[i];
            proof {
                assert(frames_ready@.take(i + 1).drop_last() =~= frames_ready@.take(i as int));
            }
            match self.maybe_painter_mut(painter_id) {
                Some(painter) => {
                    let outcome = painter.note_webrender_frame_ready(
                        need_repaint,
                        rebuild_disabled,
                        now,
                    );
                    resize.push((painter_id, outcome.resize));
                    match outcome.diagnostic {
                        Some(d) => {
                            diagnostics.push(d);
                        },
                        None => {
                            record_painter_ready_for_repaint(&mut ready, painter_id, need_repaint);
                        },
                    }
                },
                None => {},
            }
            i = i + 1;
        }
        assert(frames_ready@.take(i as int) =~= frames_ready@);
        MessageRun { diagnostics, ready, resize }
    }

    /// Reports ready frames to the coordinator: those of a barrier wait for its decision, the
    /// others go to their painter at once.
    fn coordinate(&mut self, diagnostics: &[FrameReadyDiagnostic], ready: &mut HashMap<u64, bool>)
        requires
            old(self).wf(),
        ensures
            final(self).wf(),
            final(self)@ == (PaintView { coordinator: final(self)@.coordinator, ..old(self)@ }),
            (final(self)@.coordinator, final(ready)@) == coordinated(
                old(self)@.coordinator,
                old(ready)@,
                diagnostics@,
            ),
    {
        let mut i: usize = 0;
        assert(diagnostics@.take(0) =~= Seq::<FrameReadyDiagnostic>::empty());
        while i < diagnostics.len()
            invariant
                i <= diagnostics@.len(),
                self.wf(),
                self@ == (PaintView { coordinator: self@.coordinator, ..old(self)@ }),
                (self@.coordinator, ready@) == coordinated(
                    old(self)@.coordinator,
                    old(ready)@,
                    diagnostics@.take(i as int),
                ),
            decreases diagnostics@.len() - i,
        {
            proof {
                assert(diagnostics@.take(i + 1).drop_last() =~= diagnostics@.take(i as int));
            }
            let d = &diagnostics[i];
            match self.wall_frame_coordinator.note_frame_ready(d) {
                Some(update) => {
                    record_wall_frame_repaint_decisions(ready, &update.repaint_decisions);
                },
                None => {
                    record_painter_ready_for_repaint(ready, d.painter_id, d.need_repaint);
                },
            }
            i = i + 1;
        }
        assert(diagnostics@.take(i as int) =~= diagnostics@);
    }

    /// Tells the painters of their ready frames.
    fn handle_painters_ready_for_repaint(&mut self, ready: &HashMap<u64, bool>) -> (out: Vec<
        (u64, FrameReleased),
    >)
        requires
            old(self).wf(),
        ensures
            final(self).wf(),
            final(self)@ == old(self)@.repainted(ready@),
            repaints(old(self)@, ready@, out@),
    {
        let ids = table_ids(ready);
        let ghost v0 = self@;
        let mut out: Vec<(u64, FrameReleased)> = Vec::new();
        let mut i: usize = 0;
        assert(v0.painters =~= v0.repainted(Map::<u64, bool>::empty()).painters);
        while i < ids.len()
            invariant
                i <= ids@.len(),
                ids@.no_duplicates(),
                ids@.to_set() == ready@.dom(),
                self.wf(),
                v0 == old(self)@,
                self@ == (PaintView { painters: self@.painters, ..v0 }),
                self@.painters =~= Map::new(
                    |p: u64| v0.painters.contains_key(p),
                    |p: u64|
                        if ids@.take(i as int).contains(p) {
                            v0.painters[p].released(ready@[p])
                        } else {
                            v0.painters[p]
                        },
                ),
                forall|k: int|
                    0 <= k < out@.len() ==> v0.painters.contains_key((#[trigger] out@[k]).0)
                        && ids@.take(i as int).contains(out@[k].0) && ready@.contains_key(
                        out@[k].0,
                    ) && out@[k].1 == (FrameReleased {
                        refresh_cursor: ready@[out@[k].0],
                        maybe_trigger_screenshot: !ready@[out@[k].0],
                    }),
                forall|k: int, l: int| 0 <= k < l < out@.len() ==> out@[k].0 != out@[l].0,
                forall|p: u64|
                    v0.painters.contains_key(p) && #[trigger] ids@.take(i as int).contains(p)
                        ==> exists|k: int| 0 <= k < out@.len() && (#[trigger] out@[k]).0 == p,
            decreases ids@.len() - i,
        {
            let painter_id: u64 = ids[i];
            let ghost before = out@;
            proof {
                lemma_take_has(ids@, i as int);
                assert(!ids@.take(i as int).contains(painter_id));
                assert(ids@.contains(painter_id));
                assert(ids@.to_set().contains(painter_id));
            }
            let repaint: bool = match ready.get(&painter_id) {
                Some(b) => *b,
                None => false,
            };
            match self.maybe_painter_mut(painter_id) {
                Some(painter) => {
                    let released = painter.handle_new_webrender_frame_ready(repaint);
                    out.push((painter_id, released));
                    proof {
                        assert(out@[before.len() as int].0 == painter_id);
                        assert forall|p: u64|
                            v0.painters.contains_key(p) && #[trigger] ids@.take(i + 1).contains(
                                p,
                            ) implies exists|k: int|
                            0 <= k < out@.len() && (#[trigger] out@[k]).0 == p by {
                            if p != painter_id {
                                let k = choose|k: int|
                                    0 <= k < before.len() && (#[trigger] before[k]).0 == p;
                                assert(out@[k].0 == p);
                            }
                        }
                    }
                },
                None => {},
            }
            i = i + 1;
        }
        proof {
            assert(ids@.take(i as int) =~= ids@);
            assert forall|p: u64| ids@.contains(p) <==> ready@.contains_key(p) by {
                assert(ids@.to_set().contains(p) <==> ready@.dom().contains(p));
            }
            assert(self@ =~= v0.repainted(ready@));
        }
        out
    }

    /// Settles the frames of a batch of messages: barriers decide, those whose deadline passed are
    /// decided too, held requests that can be issued are issued, and each painter is told once of
    /// its ready frames.
    pub fn settle_frames(&mut self, run: MessageRun, now: u64) -> (r: SettledFrames)
        requires
            old(self).wf(),
        ensures
            final(self).wf(),
            settles(
                old(self)@,
                run.ready@,
                run.diagnostics@,
                now,
                r,
                final(self)@,
            ),
    {
        let mut ready = run.ready;
        self.coordinate(&run.diagnostics, &mut ready);
        let (update, swept) = self.wall_frame_coordinator.sweep_expired_barriers(now);
        record_wall_frame_repaint_decisions(&mut ready, &update.repaint_decisions);
        let released = self.try_release_coalesced_wall_frame_requests(now);
        let repainted = self.handle_painters_ready_for_repaint(&ready);
        SettledFrames { swept, released, repainted }
    }

    /// A turn without messages: the deadlines that passed, the held requests that can be issued
    /// and the painters that are ready. Nothing is done once the shutdown is over; the answer is
    /// `None` then.
    pub fn perform_updates(&mut self, now: u64) -> (r: Option<SettledFrames>)
        requires
            old(self).wf(),
        ensures
            final(self).wf(),
            match r {
                None => old(self)@.shutdown == ShutdownState::FinishedShuttingDown && final(self)@
                    == old(self)@,
                Some(settled) => old(self)@.shutdown != ShutdownState::FinishedShuttingDown
                    && settles(
                    old(self)@,
                    Map::empty(),
                    Seq::empty(),
                    now,
                    settled,
                    final(self)@,
                ),
            },
    {
        match self.shutdown_state {
            ShutdownState::FinishedShuttingDown => {
                return None;
            },
            _ => {},
        }
        let run = MessageRun {
            diagnostics: Vec::new(),
            ready: HashMap::new(),
            resize: Vec::new(),
        };
        Some(self.settle_frames(run, now))
    }
}

/// The list names each painter that is there and has a ready frame once, with what the host does
/// for it.
pub open spec fn repaints(
    v: PaintView,
    ready: Map<u64, bool>,
    list: Seq<(u64, FrameReleased)>,
) -> bool {
    &&& forall|k: int|
        0 <= k < list.len() ==> v.painters.contains_key((#[trigger] list[k]).0)
            && ready.contains_key(list[k].0) && list[k].1 == (FrameReleased {
            refresh_cursor: ready[list[k].0],
            maybe_trigger_screenshot: !ready[list[k].0],
        })
    &&& forall|k: int, l: int| 0 <= k < l < list.len() ==> list[k].0 != list[l].0
    &&& forall|p: u64| #[trigger]
        v.painters.contains_key(p) && ready.contains_key(p) ==> exists|k: int|
            0 <= k < list.len() && (#[trigger] list[k]).0 == p
}

/// The engine before and after the frames of a batch of messages were settled.
pub open spec fn settles(
    v: PaintView,
    ready: Map<u64, bool>,
    diagnostics: Seq<FrameReadyDiagnostic>,
    now: u64,
    r: SettledFrames,
    after: PaintView,
) -> bool {
    let (noted, needs) = coordinated(v.coordinator, ready, diagnostics);
    let (missed, update) = noted.missed_all(r.swept@);
    let all_needs = all_recorded(needs, update.decisions);
    let swept = PaintView { coordinator: missed.pruned(now), ..v }.woken(now);
    let order = r.released@.map_values(|f: ReleasedFrame| f.webview_id);
    let issued = swept.released_in(order, now);
    &&& noted.sweeps(r.swept@, now)
    &&& swept.releasable_in(order, now)
    &&& forall|k: int|
        0 <= k < r.released@.len() ==> released_by(
            swept.released_in(order.take(k), now),
            now,
            #[trigger] r.released@[k],
        )
    &&& forall|w: u64| !#[trigger] issued.can_release(w, now)
    &&& after == issued.repainted(all_needs)
    &&& repaints(issued, all_needs, r.repainted@)
}

/// Recording decisions never takes a need for a repaint back, and whether a painter repaints does
/// not depend on the order in which they come.
pub proof fn law_repaint_is_needed_if_any_frame_needs_it(
    ready: Map<u64, bool>,
    decisions: Seq<WallFrameRepaintDecision>,
    p: u64,
)
    ensures
        ({
            let after = all_recorded(ready, decisions);
            let named = exists|i: int|
                0 <= i < decisions.len() && (#[trigger] decisions[i]).painter_id == p;
            let needed = exists|i: int|
                0 <= i < decisions.len() && (#[trigger] decisions[i]).painter_id == p
                    && decisions[i].repaint_needed;
            &&& after.contains_key(p) <==> ready.contains_key(p) || named
            &&& after.contains_key(p) ==> (after[p] <==> (ready.contains_key(p) && ready[p])
                || needed)
        }),
    decreases decisions.len(),
{
    if decisions.len() > 0 {
        let rest = decisions.drop_last();
        law_repaint_is_needed_if_any_frame_needs_it(ready, rest, p);
        let n = decisions.len() - 1;
        assert forall|i: int| 0 <= i < rest.len() implies #[trigger] rest[i] == decisions[i] by {}
        if exists|i: int| 0 <= i < rest.len() && (#[trigger] rest[i]).painter_id == p {
            let i = choose|i: int| 0 <= i < rest.len() && (#[trigger] rest[i]).painter_id == p;
            assert(decisions[i].painter_id == p);
        }
        if exists|i: int|
            0 <= i < rest.len() && (#[trigger] rest[i]).painter_id == p && rest[i].repaint_needed {
            let i = choose|i: int|
                0 <= i < rest.len() && (#[trigger] rest[i]).painter_id == p
                    && rest[i].repaint_needed;
            assert(decisions[i].painter_id == p && decisions[i].repaint_needed);
        }
        if exists|i: int| 0 <= i < decisions.len() && (#[trigger] decisions[i]).painter_id == p {
            let i = choose|i: int|
                0 <= i < decisions.len() && (#[trigger] decisions[i]).painter_id == p;
            if i < n {
                assert(rest[i].painter_id == p);
            }
        }
        if exists|i: int|
            0 <= i < decisions.len() && (#[trigger] decisions[i]).painter_id == p
                && decisions[i].repaint_needed {
            let i = choose|i: int|
                0 <= i < decisions.len() && (#[trigger] decisions[i]).painter_id == p
                    && decisions[i].repaint_needed;
            if i < n {
                assert(rest[i].painter_id == p && rest[i].repaint_needed);
            }
        }
        if decisions.last().painter_id == p {
            assert(decisions[n].painter_id == p);
        }
    }
}

/// A painter that has a ready frame is told of it, once; one that needs a repaint is marked for it.
pub proof fn law_ready_painter_is_marked(v: PaintView, ready: Map<u64, bool>, p: u64)
    requires
        v.painters.contains_key(p),
        ready.contains_key(p),
        ready[p],
    ensures
        v.repainted(ready).painters[p].needs_repaint
            == v.painters[p].needs_repaint | crate::painter::NEW_WEBRENDER_FRAME,
        v.repainted(ready).painters[p].needs_repaint != 0,
{
    let b = v.painters[p].needs_repaint;
    assert(b | 4u8 != 0) by (bit_vector);
}

} // verus!
