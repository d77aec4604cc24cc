//! Whom a message reaches, in terms of the painters that are there and what they are registered for.
use vstd::prelude::*;

use crate::paint::{PaintView, ShutdownState};
use crate::paint_messages::{DeliveryView, KeyRequest, PaintMessage, PainterHandler};
use crate::seqs::{lemma_filter_contains, lemma_filter_order, stands_before};

verus! {

/// The painter is there, and is a target of the web view: it is registered for it, or, where nothing
/// is registered, the upper half of the web view's id names it.
pub open spec fn paints(v: PaintView, webview: u64, painter: u64) -> bool {
    v.painters.contains_key(painter) && (if v.targets.contains_key(webview) {
        v.targets[webview].contains(painter)
    } else {
        painter == webview / 0x1_0000_0000
    })
}

/// The painter is the first one that is registered for the web view; its own one where none is.
pub open spec fn leads(v: PaintView, webview: u64, painter: u64) -> bool {
    if v.targets.contains_key(webview) && v.targets[webview].len() > 0 {
        painter == v.targets[webview][0]
    } else {
        painter == webview / 0x1_0000_0000
    }
}

/// While the engine runs, a message that changes the state of a web view reaches a painter if and
/// only if that painter is there and is a target of the web view, and reaches it once. They are
/// reached in the order in which they were registered, and each does with it what the message says.
pub proof fn law_webview_message_reaches_its_painters(
    v: PaintView,
    message: PaintMessage,
    w: u64,
    p: u64,
)
    requires
        v.shutdown == ShutdownState::NotShuttingDown,
        message == PaintMessage::ChangeRunningAnimationsState(w) || message
            == PaintMessage::SetFrameTreeForWebView(w) || message == PaintMessage::SetThrottled(w)
            || message == PaintMessage::PipelineExited(w) || message
            == PaintMessage::SendInitialTransaction(w) || message
            == PaintMessage::ScrollNodeByDelta(w) || message
            == PaintMessage::ScrollViewportByDelta(w) || message == PaintMessage::UpdateEpoch(w)
            || message == PaintMessage::SendDisplayList(w) || message
            == PaintMessage::DelayNewFrameForCanvas(w) || message == PaintMessage::Viewport(w)
            || message == PaintMessage::SendLCPCandidate(w) || message
            == PaintMessage::EnableLCPCalculation(w),
    ensures
        ({
            let handler = match message {
                PaintMessage::ChangeRunningAnimationsState(_) =>
                    PainterHandler::ChangeRunningAnimationsState { webview: w },
                PaintMessage::SetFrameTreeForWebView(_) => PainterHandler::SetFrameTreeForWebView {
                    webview: w,
                },
                PaintMessage::SetThrottled(_) => PainterHandler::SetThrottled { webview: w },
                PaintMessage::PipelineExited(_) => PainterHandler::NotifyPipelineExited {
                    webview: w,
                },
                PaintMessage::SendInitialTransaction(_) =>
                    PainterHandler::SendInitialPipelineTransaction { webview: w },
                PaintMessage::ScrollNodeByDelta(_) => PainterHandler::ScrollNodeByDelta {
                    webview: w,
                },
                PaintMessage::ScrollViewportByDelta(_) => PainterHandler::ScrollViewportByDelta {
                    webview: w,
                },
                PaintMessage::UpdateEpoch(_) => PainterHandler::UpdateEpoch { webview: w },
                PaintMessage::SendDisplayList(_) => PainterHandler::HandleNewDisplayList {
                    webview: w,
                },
                PaintMessage::DelayNewFrameForCanvas(_) => PainterHandler::DelayNewFramesForCanvas,
                PaintMessage::Viewport(_) => PainterHandler::SetViewportDescription { webview: w },
                PaintMessage::SendLCPCandidate(_) => PainterHandler::AppendLcpCandidate {
                    webview: w,
                },
                _ => PainterHandler::EnableLcpCalculation { webview: w },
            };
            &&& v.routed(message) is Painters
            &&& v.routed(message)->Painters_handler == handler
            &&& v.routed(message)->Painters_painters.contains(p) <==> paints(v, w, p)
            &&& (v.targets.contains_key(w) ==> v.targets[w].no_duplicates()) ==> v.routed(
                message,
            )->Painters_painters.no_duplicates()
            &&& v.targets.contains_key(w) ==> forall|a: int, b: int|
                0 <= a < b < v.routed(message)->Painters_painters.len() ==> stands_before(
                    v.targets[w],
                    #[trigger] v.routed(message)->Painters_painters[a],
                    #[trigger] v.routed(message)->Painters_painters[b],
                )
        }),
{
    let known = |q: u64| v.painters.contains_key(q);
    let all = if v.targets.contains_key(w) {
        v.targets[w]
    } else {
        seq![(w / 0x1_0000_0000) as u64]
    };
    assert(v.routed(message)->Painters_painters == all.filter(known));
    lemma_filter_contains(all, known, p);
    lemma_filter_order(all, known);
    if !v.targets.contains_key(w) {
        assert(all[0] == w / 0x1_0000_0000);
        assert(all.contains(p) <==> p == w / 0x1_0000_0000);
    }
}

/// There is an oldest web view that the painter leads, wherever there is one at all.
proof fn lemma_oldest_source(v: PaintView, painter: u64, w: u64)
    requires
        v.is_source(w, painter),
    ensures
        exists|c: u64| #[trigger] v.is_first_source(c, painter) && c <= w,
    decreases w,
{
    if !v.is_first_source(w, painter) {
        let older = choose|o: u64| #[trigger] v.is_source(o, painter) && o < w;
        lemma_oldest_source(v, painter, older);
    }
}

/// While the engine runs, images and fonts that are meant for a painter reach every painter of the
/// web view that it leads, since they draw the same content; a painter that leads none gets
/// them alone. Of several such web views it is the oldest one.
pub proof fn law_resources_follow_the_source(v: PaintView, message: PaintMessage, p: u64, q: u64)
    requires
        v.shutdown == ShutdownState::NotShuttingDown,
        message == PaintMessage::UpdateImages(p) || message == PaintMessage::AddFont(p) || message
            == PaintMessage::AddSystemFont(p) || message == PaintMessage::AddFontInstance(p)
            || message == PaintMessage::RemoveFonts(p),
    ensures
        v.routed(message) is Painters,
        v.routed(message)->Painters_handler == (match message {
            PaintMessage::UpdateImages(_) => PainterHandler::UpdateImages { source: p },
            PaintMessage::AddFont(_) => PainterHandler::AddFont,
            PaintMessage::AddSystemFont(_) => PainterHandler::AddSystemFont,
            PaintMessage::AddFontInstance(_) => PainterHandler::AddFontInstance,
            _ => PainterHandler::RemoveFonts,
        }),
        (forall|w: u64| #[trigger]
            v.targets.contains_key(w) ==> v.targets[w].len() == 0 || v.targets[w][0] != p) ==> (
        v.routed(message)->Painters_painters.contains(q) <==> q == p && v.painters.contains_key(p)),
        forall|w: u64|
            v.targets.contains_key(w) && v.targets[w].len() > 0 && v.targets[w][0] == p && (
            forall|u: u64|
                v.targets.contains_key(u) && v.targets[u].len() > 0 && #[trigger] v.targets[u][0]
                    == p ==> w <= u) ==> (v.routed(message)->Painters_painters.contains(q)
                <==> #[trigger] v.targets[w].contains(q) && v.painters.contains_key(q)),
        v.painters.contains_key(p) ==> v.routed(message)->Painters_painters.contains(p),
{
    let known = |x: u64| v.painters.contains_key(x);
    let all = v.source_targets(p);
    assert(v.routed(message)->Painters_painters == all.filter(known));
    lemma_filter_contains(all, known, q);
    lemma_filter_contains(all, known, p);
    if exists|w: u64| #[trigger] v.is_source(w, p) {
        let w = choose|w: u64| #[trigger] v.is_source(w, p);
        lemma_oldest_source(v, p, w);
        let c = choose|c: u64| #[trigger] v.is_first_source(c, p);
        crate::paint::lemma_source(v, c, p);
        assert(v.targets[c][0] == p);
        assert(v.targets[c].contains(p));
        assert forall|x: u64|
            v.targets.contains_key(x) && v.targets[x].len() > 0 && v.targets[x][0] == p && (
            forall|u: u64|
                v.targets.contains_key(u) && v.targets[u].len() > 0 && #[trigger] v.targets[u][0]
                    == p ==> x <= u) implies (v.routed(message)->Painters_painters.contains(q)
            <==> #[trigger] v.targets[x].contains(q) && v.painters.contains_key(q)) by {
            assert(v.is_source(x, p));
            assert(v.targets[c][0] == p);
            assert(x <= c && c <= x);
        }
    } else {
        assert(v.source_webview(p) is None) by {
            if exists|w: u64| #[trigger] v.is_first_source(w, p) {
                let w = choose|w: u64| #[trigger] v.is_first_source(w, p);
                assert(v.is_source(w, p));
            }
        }
        assert(all =~= seq![p]);
        assert(all[0] == p);
        assert forall|x: u64|
            v.targets.contains_key(x) && v.targets[x].len() > 0 && v.targets[x][0] == p && (
            forall|u: u64|
                v.targets.contains_key(u) && v.targets[u].len() > 0 && #[trigger] v.targets[u][0]
                    == p ==> x <= u) implies (v.routed(message)->Painters_painters.contains(q)
            <==> #[trigger] v.targets[x].contains(q) && v.painters.contains_key(q)) by {
            assert(v.is_source(x, p));
        }
    }
}

/// Until the shutdown is over, keys are made by the first painter of the web view, or by the painter
/// that is named; they are dummies exactly where that painter is not there.
pub proof fn law_keys_come_from_one_painter(v: PaintView, message: PaintMessage, w: u64, p: u64)
    requires
        v.shutdown != ShutdownState::FinishedShuttingDown,
        message == PaintMessage::GenerateImageKey(w) || message
            == PaintMessage::GenerateImageKeysForPipeline(w) || message
            == PaintMessage::GenerateFontKeys(w),
        if message is GenerateFontKeys {
            p == w
        } else {
            leads(v, w, p)
        },
    ensures
        v.routed(message) == (DeliveryView::Keys {
            request: match message {
                PaintMessage::GenerateImageKey(_) => KeyRequest::Image,
                PaintMessage::GenerateImageKeysForPipeline(_) => KeyRequest::ImagesForPipeline,
                _ => KeyRequest::Fonts,
            },
            painter: p,
            dummy: !v.painters.contains_key(p),
        }),
{
}

/// A reply on a screenshot, and, while the engine shuts down, the exit of a pipeline, go to the first
/// painter of the web view alone, where that is there.
pub proof fn law_single_replies_go_to_the_first_painter(
    v: PaintView,
    message: PaintMessage,
    w: u64,
    p: u64,
)
    requires
        (v.shutdown == ShutdownState::NotShuttingDown && message
            == PaintMessage::ScreenshotReadinessResponse(w)) || (v.shutdown
            == ShutdownState::ShuttingDown && message == PaintMessage::PipelineExited(w)),
    ensures
        v.routed(message) is Painters,
        v.routed(message)->Painters_handler == (if message is PipelineExited {
            PainterHandler::NotifyPipelineExited { webview: w }
        } else {
            PainterHandler::HandleScreenshotReadinessReply { webview: w }
        }),
        v.routed(message)->Painters_painters.contains(p) <==> leads(v, w, p)
            && v.painters.contains_key(p),
        v.routed(message)->Painters_painters.len() <= 1,
{
    let known = |q: u64| v.painters.contains_key(q);
    let all = seq![v.primary_of(w)];
    assert(v.routed(message)->Painters_painters == all.filter(known));
    lemma_filter_contains(all, known, p);
    lemma_filter_order(all, known);
    assert(all[0] == v.primary_of(w));
    assert(all.contains(p) <==> p == v.primary_of(w));
}

/// The query of a web view's painters is answered with all of them, there or not; a request for a
/// frame is the engine's own; a report is asked of every painter. None of that happens once the
/// engine shuts down, nor does anything else but keys and exits.
pub proof fn law_queries_and_shutdown(v: PaintView, message: PaintMessage, w: u64)
    ensures
        v.shutdown == ShutdownState::NotShuttingDown ==> {
            &&& v.routed(PaintMessage::GenerateFrame) is Frame
            &&& v.routed(PaintMessage::CollectMemoryReport) is EveryPainter
            &&& v.routed(PaintMessage::GetWebViewPainterTargets(w)) is Reply
            &&& v.routed(PaintMessage::GetWebViewPainterTargets(w))->Reply_0 == (
            if v.targets.contains_key(w) {
                v.targets[w]
            } else {
                seq![(w / 0x1_0000_0000) as u64]
            })
        },
        v.shutdown != ShutdownState::NotShuttingDown && !(message is GenerateImageKey)
            && !(message is GenerateImageKeysForPipeline) && !(message is GenerateFontKeys)
            && !(message is PipelineExited) ==> v.routed(message) is Ignored,
        v.shutdown == ShutdownState::FinishedShuttingDown ==> v.routed(message) is Ignored,
{
}

/// Registering a painter for a web view adds that painter at the end and changes nothing else: no
/// painter of any web view is lost, and none is listed twice.
pub proof fn law_registering_adds_one_painter(v: PaintView, w: u64, p: u64, u: u64, q: u64)
    ensures
        ({
            let after = v.with_target(w, p);
            &&& after.targets.contains_key(w)
            &&& after.targets[w].contains(p)
            &&& u != w ==> after.targets.contains_key(u) == v.targets.contains_key(u)
                && after.targets[u] == v.targets[u]
            &&& v.targets.contains_key(w) ==> forall|i: int|
                0 <= i < v.targets[w].len() ==> i < after.targets[w].len() && #[trigger] after.targets[w][i]
                    == v.targets[w][i]
            &&& after.targets[w].contains(q) ==> q == p || (v.targets.contains_key(w)
                && v.targets[w].contains(q))
            &&& (v.targets.contains_key(w) ==> v.targets[w].no_duplicates())
                ==> after.targets[w].no_duplicates()
            &&& after.painters == v.painters
        }),
{
    let now = if v.targets.contains_key(w) {
        v.targets[w]
    } else {
        Seq::empty()
    };
    crate::seqs::lemma_push_has(now, p);
    if !now.contains(p) {
        if now.no_duplicates() {
            crate::seqs::lemma_push_distinct(now, p);
        }
        assert(now.push(p)[now.len() as int] == p);
    }
}

} // verus!
