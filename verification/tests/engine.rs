use std::collections::HashMap;

use paint::debug_options::WebRenderDebugOption;
use paint::frame_queue::FrameReason;
use paint::idmap::IdMap;
use paint::pacing::{
    schedule_wall_frame_pacing_wake, WallFramePacingBlockReason, WallFramePacingConfig,
};
use paint::paint::{own_painter, Paint, ShutdownState};
use paint::paint_embedder::ResizeRequest;
use paint::paint_messages::{
    count_image_updates, image_fanout_is_reported, Delivery, FanoutCounter, FanoutReport,
    ImageFanout, KeyRequest, PaintMessage, PainterHandler,
};
use paint::paint_pacing::{FrameOutcome, HeldFrame, IssuedFrame};
use paint::painter::{ImageUpdate, TransactionOp};
use paint::painter_webviews::UnknownWebView;
use paint::scroll_signature::scroll_signature;
use paint::table::{table_get_mut, table_ids, table_retain};
use paint::wall_metadata::{wall_frame_metadata, MissingTarget};

const MS: u64 = 1_000_000;

/// The web view `n` whose own painter is `painter`.
fn webview(painter: u64, n: u64) -> u64 {
    painter * 0x1_0000_0000 + n
}

/// An engine with a wall: one web view on the painters 1, 2 and 3, which have the contexts 11 to
/// 13.
fn wall() -> (Paint, u64) {
    let config = WallFramePacingConfig::from_prefs(true, 1, 10, 8 * MS);
    let mut paint = Paint::new(config, None);
    assert_eq!(paint.register_rendering_context(11, 1, false, None, 0), 1);
    let w = webview(1, 5);
    paint.add_webview(w);
    assert_eq!(paint.add_webview_paint_target(w, 12, 2, false, None, 0), 2);
    assert_eq!(paint.add_webview_paint_target(w, 13, 3, false, None, 0), 3);
    (paint, w)
}

fn issued(outcome: FrameOutcome) -> IssuedFrame {
    match outcome {
        FrameOutcome::Issued(frame) => frame,
        FrameOutcome::Held(held) => panic!("held: {held:?}"),
    }
}

fn held(outcome: FrameOutcome) -> HeldFrame {
    match outcome {
        FrameOutcome::Held(held) => held,
        FrameOutcome::Issued(frame) => panic!("issued: {frame:?}"),
    }
}

/// All painters of the wall have their frames ready and render.
fn show(paint: &mut Paint, now: u64) -> Vec<u64> {
    let run = paint.begin_messages(&[(1, true), (2, true), (3, true)], false, now);
    let settled = paint.settle_frames(run, now);
    for painter in [1, 2, 3] {
        if let Some(painter) = paint.maybe_painter_mut(painter) {
            painter.end_render(now);
        }
    }
    let mut repainted: Vec<u64> = settled.repainted.iter().map(|r| r.0).collect();
    repainted.sort();
    repainted
}

#[test]
fn a_context_has_one_painter() {
    let (mut paint, w) = wall();
    assert_eq!(paint.register_rendering_context(12, 9, false, None, 0), 2);
    assert_eq!(paint.painter_id(), 1);
    assert_eq!(own_painter(w), 1);
    assert_eq!(paint.painter_targets_for_webview(w), vec![1, 2, 3]);
    assert_eq!(paint.primary_painter_id_for_webview(w), 1);
    assert_eq!(paint.source_webview_id_for_primary_painter(1), Some(w));
    assert_eq!(paint.source_webview_id_for_primary_painter(2), None);
    assert_eq!(paint.target_painter_ids_for_source_painter(1), vec![1, 2, 3]);
    assert_eq!(paint.target_painter_ids_for_source_painter(2), vec![2]);
    // A web view that was never added is its own painter's.
    assert_eq!(paint.painter_targets_for_webview(webview(7, 1)), vec![7]);
    assert!(paint.webview_has_painter_target(w, 3));
    assert!(!paint.webview_has_painter_target(w, 4));
}

#[test]
fn a_wall_frame_goes_to_every_painter() {
    let (mut paint, w) = wall();
    let frame = issued(paint.generate_frame(&[1], 0));
    assert_eq!(frame.logical_frame_id, 1);
    let painters: Vec<u64> = frame.frames.iter().map(|f| f.0).collect();
    assert_eq!(painters, vec![1, 2, 3]);
    assert!(paint.wall_frame_coordinator.webview_has_active_frame(w));
    // The painters repaint together, once the last is ready.
    let run = paint.begin_messages(&[(1, true), (2, false)], false, MS);
    assert!(paint.settle_frames(run, MS).repainted.is_empty());
    let run = paint.begin_messages(&[(3, false)], false, 2 * MS);
    let settled = paint.settle_frames(run, 2 * MS);
    assert_eq!(settled.repainted.len(), 3);
    assert!(settled.repainted.iter().all(|r| r.1.refresh_cursor));
    assert!(!paint.wall_frame_coordinator.webview_has_active_frame(w));
    assert_eq!(paint.webviews_needing_repaint().len(), 3);
}

#[test]
fn the_latest_of_the_held_requests_is_issued() {
    let (mut paint, w) = wall();
    issued(paint.generate_frame(&[1], 0));
    let first = held(paint.generate_frame(&[1], MS));
    assert_eq!(first.webview_id, w);
    assert_eq!(first.reason, WallFramePacingBlockReason::Active(w));
    assert_eq!((first.coalesced_for_webview, first.total_coalesced), (1, 1));
    let second = held(paint.generate_frame(&[1], 2 * MS));
    assert_eq!((second.coalesced_for_webview, second.total_coalesced), (2, 2));
    // When the frame is through, one request is issued, at its interval.
    assert_eq!(show(&mut paint, 3 * MS), vec![1, 2, 3]);
    assert!(paint.try_release_coalesced_wall_frame_requests(9 * MS).is_empty());
    let released = paint.try_release_coalesced_wall_frame_requests(10 * MS);
    assert_eq!(released.len(), 1);
    assert_eq!(released[0].coalesced_count, 2);
    assert_eq!(released[0].issued.logical_frame_id, 2);
    assert!(paint.try_release_coalesced_wall_frame_requests(30 * MS).is_empty());
    assert_eq!(paint.wall_frame_pacing_released_count, 1);
}

#[test]
fn wall_frames_keep_their_interval() {
    let (mut paint, w) = wall();
    issued(paint.generate_frame(&[1], 0));
    show(&mut paint, MS);
    let early = held(paint.generate_frame(&[1], 4 * MS));
    assert_eq!(early.reason, WallFramePacingBlockReason::TooSoon(w, 4 * MS));
    assert_eq!(early.wake_after, Some(6 * MS));
    assert_eq!(paint.wall_frame_pacing_block_tally.too_soon, 1);
    assert_eq!(paint.try_release_coalesced_wall_frame_requests(10 * MS).len(), 1);
}

#[test]
fn pending_frames_hold_the_next_one() {
    let (mut paint, _) = wall();
    paint.maybe_painter_mut(2).unwrap().request_frame(FrameReason::Scene, 0);
    let held_back = held(paint.generate_frame(&[1], 0));
    assert_eq!(held_back.reason, WallFramePacingBlockReason::Pending(1));
    assert_eq!(paint.max_pending_frames_for_targets(&[1, 2, 3]), 1);
}

#[test]
fn a_single_painter_is_never_held() {
    let config = WallFramePacingConfig::from_prefs(true, 1, 10, 8 * MS);
    let mut paint = Paint::new(config, None);
    paint.register_rendering_context(11, 1, false, None, 0);
    paint.add_webview(webview(1, 1));
    for now in 0..3 {
        issued(paint.generate_frame(&[1], now));
    }
}

#[test]
fn the_deadline_is_swept_without_messages() {
    let (mut paint, w) = wall();
    issued(paint.generate_frame(&[1], 0));
    let run = paint.begin_messages(&[(1, true)], false, MS);
    paint.settle_frames(run, MS);
    let settled = paint.perform_updates(17 * MS).unwrap();
    assert_eq!(settled.swept, vec![1]);
    assert_eq!(settled.repainted.len(), 1);
    assert_eq!(paint.paint_target_keep_previous_logical_frame(w, 2), Some(1));
    assert_eq!(paint.paint_target_keep_previous_logical_frame(w, 1), None);
    assert_eq!(paint.paint_target_keep_previous_logical_frame(webview(9, 9), 2), None);
    paint.shutdown_state = ShutdownState::FinishedShuttingDown;
    assert!(paint.perform_updates(18 * MS).is_none());
}

#[test]
fn a_painter_repaints_once_for_all_its_frames() {
    let (mut paint, _) = wall();
    // Frames that nobody asked for still repaint, where one of them needs it.
    let run = paint.begin_messages(&[(2, true), (2, false), (8, true)], false, 0);
    let settled = paint.settle_frames(run, 0);
    assert_eq!(settled.repainted.len(), 1);
    assert_eq!(settled.repainted[0].0, 2);
    assert!(settled.repainted[0].1.refresh_cursor);
}

fn delivered(d: Delivery) -> (PainterHandler, Vec<u64>) {
    match d {
        Delivery::Painters { handler, painters } => (handler, painters),
        other => panic!("{other:?}"),
    }
}

#[test]
fn messages_find_their_painters() {
    let (mut paint, w) = wall();
    paint.remove_painter(3);
    assert_eq!(
        delivered(paint.handle_browser_message(PaintMessage::SendDisplayList(w))),
        (PainterHandler::HandleNewDisplayList { webview: w }, vec![1, 2])
    );
    assert_eq!(
        delivered(paint.handle_browser_message(PaintMessage::UpdateImages(1))),
        (PainterHandler::UpdateImages { source: 1 }, vec![1, 2])
    );
    assert_eq!(
        delivered(paint.handle_browser_message(PaintMessage::ScreenshotReadinessResponse(w))),
        (PainterHandler::HandleScreenshotReadinessReply { webview: w }, vec![1])
    );
    assert_eq!(
        delivered(paint.handle_browser_message(PaintMessage::SetThrottled(w))).0,
        PainterHandler::SetThrottled { webview: w }
    );
    assert_eq!(
        delivered(paint.handle_browser_message(PaintMessage::AddFont(1))).0,
        PainterHandler::AddFont
    );
    assert!(matches!(
        paint.handle_browser_message(PaintMessage::CollectMemoryReport),
        Delivery::EveryPainter
    ));
    assert!(matches!(
        paint.handle_browser_message(PaintMessage::GenerateFrame),
        Delivery::Frame
    ));
    assert!(matches!(
        paint.handle_browser_message(PaintMessage::GetWebViewPainterTargets(w)),
        Delivery::Reply(ids) if ids == vec![1, 2, 3]
    ));
    assert!(matches!(
        paint.handle_browser_message(PaintMessage::GenerateFontKeys(3)),
        Delivery::Keys { request: KeyRequest::Fonts, painter: 3, dummy: true }
    ));
}

#[test]
fn keys_are_answered_while_shutting_down() {
    let (mut paint, w) = wall();
    paint.shutdown_state = ShutdownState::ShuttingDown;
    assert!(!paint.is_running());
    assert!(matches!(
        paint.handle_browser_message(PaintMessage::GenerateImageKey(w)),
        Delivery::Keys { request: KeyRequest::Image, painter: 1, dummy: false }
    ));
    assert!(matches!(
        paint.handle_browser_message(PaintMessage::GenerateFrame),
        Delivery::Ignored
    ));
    assert!(matches!(
        paint.handle_browser_message(PaintMessage::NewWebRenderFrameReady(1)),
        Delivery::Ignored
    ));
    assert_eq!(
        delivered(paint.handle_browser_message(PaintMessage::PipelineExited(w))),
        (PainterHandler::NotifyPipelineExited { webview: w }, vec![1])
    );
    paint.shutdown_state = ShutdownState::FinishedShuttingDown;
    assert!(matches!(
        paint.handle_browser_message(PaintMessage::GenerateImageKey(w)),
        Delivery::Ignored
    ));
}

#[test]
fn a_removed_webview_leaves_nothing() {
    let (mut paint, w) = wall();
    let other = webview(2, 6);
    paint.add_webview(other);
    issued(paint.generate_frame(&[1], 0));
    held(paint.generate_frame(&[1], MS));
    let out = paint.remove_webview(w, 2 * MS);
    let gone: Vec<(u64, bool)> = out.iter().map(|r| (r.painter_id, r.painter_removed)).collect();
    assert_eq!(gone, vec![(1, true), (2, false), (3, true)]);
    assert!(out.iter().all(|r| r.transaction.is_some()));
    assert!(paint.maybe_painter(1).is_none());
    assert!(paint.maybe_painter(2).is_some());
    assert!(!paint.coalesced_wall_frame_requests.contains_key(&w));
    assert!(!paint.wall_frame_coordinator.webview_has_active_frame(w));
    assert_eq!(paint.painter_targets_for_webview(w), vec![1]);
}

#[test]
fn webviews_are_hidden_on_every_painter() {
    let (mut paint, w) = wall();
    let (sent, r) = paint.hide_webview(w, 0);
    assert_eq!(r, Ok(()));
    assert_eq!(sent.iter().map(|f| f.0).collect::<Vec<u64>>(), vec![1, 2, 3]);
    let (sent, r) = paint.hide_webview(w, 0);
    assert!(sent.is_empty() && r == Ok(()));
    let (sent, _) = paint.show_webview(w, 0);
    assert_eq!(sent.len(), 3);
    let stranger = webview(9, 1);
    assert_eq!(paint.show_webview(stranger, 0).1, Err(UnknownWebView(stranger)));
}

#[test]
fn the_embedder_is_heard_until_shutdown() {
    let (mut paint, w) = wall();
    let resize = ResizeRequest {
        size: (10, 10),
        new_size: (20, 10),
        rebuild_disabled: false,
        virtual_disabled: false,
    };
    let (painter, plan) = paint.resize_rendering_context(w, resize, 0).unwrap();
    assert_eq!(painter, 1);
    assert_eq!(
        plan.unwrap().view,
        vec![TransactionOp::DocumentView { width: 20, height: 10 }]
    );
    assert_eq!(paint.set_hidpi_scale_factor(w, true, 0).unwrap().0, 1);
    let moved = paint.set_viewport_details(w, &[true, false, true], 0);
    assert_eq!(moved.iter().map(|m| m.0).collect::<Vec<u64>>(), vec![1, 3]);
    assert!(paint.update_webview_paint_target(w, 2, resize, true, 0).is_some());
    assert!(paint.update_webview_paint_target(w, 9, resize, true, 0).is_none());
    assert_eq!(paint.notify_input_event(w, &[false, true, true]), Some(2));
    assert_eq!(paint.notify_input_event(w, &[]), Some(1));
    assert_eq!(paint.notify_scroll_event(w), Some(1));
    assert_eq!(paint.notify_input_event_handled(w), Some(1));
    assert_eq!(paint.request_screenshot(w), Some(1));
    assert_eq!(paint.render(w, false, 0).render_count, 1);
    assert_eq!(paint.render_paint_target(w, 3, false, 0).unwrap().render_count, 1);
    assert!(paint.render_paint_target(w, 9, false, 0).is_none());
    paint.shutdown_state = ShutdownState::ShuttingDown;
    assert!(paint.resize_rendering_context(w, resize, 0).is_none());
    assert!(paint.set_hidpi_scale_factor(w, true, 0).is_none());
    assert!(paint.set_viewport_details(w, &[true, true, true], 0).is_empty());
    assert!(!paint.accepts_target_update(w, 2));
    assert_eq!(paint.notify_input_event(w, &[]), None);
    assert_eq!(paint.notify_scroll_event(w), None);
}

#[test]
fn debug_displays_are_switched_on_every_renderer() {
    let (mut paint, _) = wall();
    let mut flags = HashMap::new();
    flags.insert(1, 0);
    flags.insert(3, 0b100);
    let mut out = paint.toggle_webrender_debug(
        WebRenderDebugOption::TextureCacheDebug,
        &flags,
        0,
    );
    out.sort_by_key(|o| o.0);
    let testing = TransactionOp::GenerateFrame { reason: FrameReason::Testing };
    assert_eq!(out, vec![(1, 0b100, vec![testing]), (3, 0, vec![testing])]);
}

#[test]
fn canvases_and_epochs_reach_every_painter() {
    let (mut paint, w) = wall();
    paint.delay_new_frames_for_canvas(w, 40, 3, &[7]);
    paint.update_epoch(w, 40, 2);
    for painter in [1, 2, 3] {
        assert!(paint.maybe_painter(painter).unwrap().frame_delayer.is_holding_ack());
    }
    let frame = issued(paint.generate_frame(&[1], 0));
    // The frame waits for the image on each painter.
    assert!(frame.frames.is_empty());
}

#[test]
fn image_batches_are_counted() {
    let updates = [
        ImageUpdate::AddImage { key: 1, data: 1, raw: true, animated: false },
        ImageUpdate::UpdateImage { key: 1, data: 2, epoch: None },
        ImageUpdate::UpdateImage { key: 1, data: 3, epoch: None },
        ImageUpdate::DeleteImage { key: 1 },
        ImageUpdate::UpdateImageForAnimation { key: 2, desc: 0 },
    ];
    let c = count_image_updates(&updates);
    assert_eq!(c, ImageFanout { adds: 1, updates: 2, deletes: 1, animation_updates: 1 });
    assert!(image_fanout_is_reported(&c, 50));
    let quiet = ImageFanout { adds: 0, deletes: 0, ..c };
    assert!(image_fanout_is_reported(&quiet, 3));
    assert!(!image_fanout_is_reported(&quiet, 50));
    assert!(image_fanout_is_reported(&quiet, 120));
}

#[test]
fn pacing_settings_fall_back() {
    let c = WallFramePacingConfig::from_prefs(true, 0, 0, 8 * MS);
    assert!(c.enabled());
    assert_eq!((c.max_pending, c.min_interval_ns), (1, 8 * MS));
    let c = WallFramePacingConfig::from_prefs(false, 3, 5, 8 * MS);
    assert!(!c.enabled());
    assert_eq!((c.max_pending, c.min_interval_ns), (3, 5 * MS));
    let c = WallFramePacingConfig::from_prefs(true, 3, i64::MAX, 8 * MS);
    assert_eq!(c.min_interval_ns, u64::MAX);
}

#[test]
fn an_arranged_wake_is_never_put_off() {
    let mut wake = None;
    assert!(schedule_wall_frame_pacing_wake(&mut wake, 100, 50));
    assert!(!schedule_wall_frame_pacing_wake(&mut wake, 110, 50));
    assert_eq!(wake, Some(150));
    assert!(schedule_wall_frame_pacing_wake(&mut wake, 110, 10));
    assert_eq!(wake, Some(120));
}

#[test]
fn the_first_painter_stays_the_first() {
    let (mut paint, w) = wall();
    assert_eq!(paint.painters.ids(), vec![1, 2, 3]);
    paint.remove_painter(2);
    assert_eq!(paint.painters.ids(), vec![1, 3]);
    assert_eq!(paint.painter_id(), 1);
    // A painter that is made again goes to the end.
    assert_eq!(paint.add_webview_paint_target(w, 12, 2, false, None, 0), 2);
    assert_eq!(paint.painters.ids(), vec![1, 3, 2]);
    paint.remove_painter(1);
    assert_eq!(paint.painter_id(), 3);
}

#[test]
fn a_table_keeps_the_order_of_its_ids() {
    let mut table = IdMap::new();
    for (id, value) in [(4, 'a'), (2, 'b'), (9, 'c'), (2, 'd')] {
        table.insert(id, value);
    }
    assert_eq!(table.ids(), vec![4, 2, 9]);
    assert_eq!(table.get(2), Some(&'d'));
    *table.get_mut(4).unwrap() = 'e';
    assert!(table.get_mut(3).is_none());
    assert_eq!(table.remove(4), Some('e'));
    assert_eq!(table.remove(4), None);
    assert_eq!(table.ids(), vec![2, 9]);
}

#[test]
fn a_hash_table_is_changed_in_place_and_thinned_out() {
    let mut table: HashMap<u64, char> = HashMap::from([(4, 'a'), (2, 'b'), (9, 'c')]);
    *table_get_mut(&mut table, 2).unwrap() = 'd';
    assert!(table_get_mut(&mut table, 3).is_none());
    let mut ids = table_ids(&table);
    ids.sort();
    assert_eq!(ids, vec![2, 4, 9]);
    table_retain(&mut table, &[9, 2, 7]);
    assert_eq!(table, HashMap::from([(2, 'd'), (9, 'c')]));
}

#[test]
fn a_webview_is_repainted_by_each_of_its_painters() {
    let (mut paint, w) = wall();
    for painter in [1, 3] {
        paint.maybe_painter_mut(painter).unwrap().set_needs_repaint(1);
    }
    assert_eq!(paint.webviews_needing_repaint(), vec![w, w]);
}

#[test]
fn each_renderer_is_switched_once() {
    let (mut paint, _) = wall();
    let mut flags = HashMap::new();
    for painter in [3, 1, 7] {
        flags.insert(painter, 0);
    }
    let switched = paint.toggle_webrender_debug(WebRenderDebugOption::Profiler, &flags, 0);
    assert_eq!(switched.iter().map(|s| s.0).collect::<Vec<_>>(), vec![1, 3]);
}

#[test]
fn a_wall_compares_what_its_painters_scrolled() {
    let (mut paint, w) = wall();
    let frame = issued(paint.generate_frame(&[1], 0));
    assert_eq!(frame.compared, vec![w]);
    assert_eq!(paint.missing_wall_target(w, 2), None);
    assert_eq!(paint.missing_wall_target(w, 8), Some(MissingTarget::Painter));
    assert_eq!(paint.missing_wall_target(webview(1, 9), 2), Some(MissingTarget::WebView));
    let same = || Some(String::from("a[1:0,0]"));
    let all = wall_frame_metadata(&[(1, same()), (2, same()), (3, same())]);
    assert!(all.matched && all.missing.is_empty());
    let apart = wall_frame_metadata(&[(1, same()), (2, Some(String::from("a[1:0,1]")))]);
    assert!(!apart.matched && apart.missing.is_empty());
    let missing = wall_frame_metadata(&[(3, None), (1, same()), (2, None)]);
    assert!(!missing.matched);
    assert_eq!(missing.missing, vec![3, 2]);
    assert!(wall_frame_metadata(&[]).matched);
    // A frame of one painter compares nothing.
    let mut alone = Paint::new(WallFramePacingConfig::from_prefs(true, 1, 10, 8 * MS), None);
    alone.register_rendering_context(11, 1, false, None, 0);
    alone.add_webview(webview(1, 5));
    assert!(issued(alone.generate_frame(&[1], 0)).compared.is_empty());
}

#[test]
fn scroll_offsets_make_one_text() {
    let text = |s: &str| String::from(s);
    let pipelines = [
        (text("b"), vec![text("2:0.000,1.000"), text("10:0.000,2.000")]),
        (text("a"), Vec::new()),
    ];
    assert_eq!(scroll_signature(&pipelines), "a[]|b[10:0.000,2.000;2:0.000,1.000]");
    let turned = [
        (text("a"), Vec::new()),
        (text("b"), vec![text("10:0.000,2.000"), text("2:0.000,1.000")]),
    ];
    assert_eq!(scroll_signature(&turned), scroll_signature(&pipelines));
    assert_eq!(scroll_signature(&[]), "");
}

#[test]
fn a_fanout_counts_the_painters_that_are_meant() {
    let (mut paint, _) = wall();
    let update = [ImageUpdate::UpdateImage { key: 7, data: 1, epoch: None }];
    let counts = ImageFanout { adds: 0, updates: 1, deletes: 0, animation_updates: 0 };
    let mut fanouts = FanoutCounter::new();
    assert_eq!(fanouts.note(1, &update), None);
    // A painter that is gone is still meant.
    paint.remove_painter(3);
    let targets = paint.target_painter_ids_for_source_painter(1);
    assert_eq!(targets, vec![1, 2, 3]);
    let first = fanouts.note(targets.len(), &update).unwrap();
    assert_eq!(first, FanoutReport { counts, fanout_id: 1, summary: true });
    fanouts.count = 49;
    let quiet = fanouts.note(2, &update).unwrap();
    assert_eq!(quiet, FanoutReport { counts, fanout_id: 50, summary: false });
    let loud = fanouts.note(2, &[ImageUpdate::DeleteImage { key: 7 }]).unwrap();
    assert!(loud.summary && loud.fanout_id == 51 && loud.counts.deletes == 1);
}
