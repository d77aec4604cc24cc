use paint::frame_queue::FrameReason;
use paint::geometry::DeviceIntSize;
use paint::memory_report::{memory_report, PainterMemory};
use paint::paint_metrics::MetricReports;
use paint::painter::{ImageUpdate, Painter, TransactionOp, NEW_WEBRENDER_FRAME, RESIZE};
use paint::painter_images::ImageOutcome;
use paint::painter_input::{remove_fonts, InputKind};
use paint::painter_webviews::{scroll_offsets_to_send, DisplayListInfo, ScrollNode, UnknownWebView};
use paint::resize_rebuild::ResizeTick;

const MS: u64 = 1_000_000;
const SECOND: u64 = 1000 * MS;
const PERIOD: u64 = 16 * MS;

const FRAME: TransactionOp = TransactionOp::GenerateFrame { reason: FrameReason::Scene };

fn painter() -> Painter {
    Painter::new(1, 10, false, None, 0)
}

/// Image updates that are taken in and settled at once.
fn update_images(p: &mut Painter, updates: &[ImageUpdate], now: u64) -> ImageOutcome {
    let run = p.begin_image_updates(updates, now);
    p.finish_image_updates(run, false, true, PERIOD, now)
}

fn canvas(key: u64, data: u64, epoch: u64) -> ImageUpdate {
    ImageUpdate::UpdateImage { key, data, epoch: Some(epoch) }
}

fn video(key: u64, data: u64) -> ImageUpdate {
    ImageUpdate::UpdateImage { key, data, epoch: None }
}

#[test]
fn the_newest_video_frame_is_composited() {
    let mut p = painter();
    let first = update_images(&mut p, &[video(7, 100), video(7, 101)], 0);
    assert!(first.send);
    assert_eq!(first.transaction, vec![TransactionOp::UpdateImage { key: 7, data: 101 }, FRAME]);
    assert!(p.has_pending_frames());
    // While that composite is under way, frames are held, the newest of each video.
    let held = update_images(&mut p, &[video(7, 102)], 20 * MS);
    assert!(!held.send && held.transaction.is_empty());
    update_images(&mut p, &[video(7, 103)], 21 * MS);
    // The render pass makes room, and the composite that is owed comes with the next images.
    p.note_webrender_frame_ready(true, false, 22 * MS);
    p.end_render(23 * MS);
    let next = update_images(&mut p, &[], 24 * MS);
    assert_eq!(next.transaction, vec![TransactionOp::UpdateImage { key: 7, data: 103 }, FRAME]);
}

#[test]
fn video_composites_keep_the_period() {
    let mut p = painter();
    update_images(&mut p, &[video(7, 100)], 0);
    p.note_webrender_frame_ready(true, false, MS);
    p.end_render(2 * MS);
    let early = update_images(&mut p, &[video(7, 101)], 5 * MS);
    assert!(!early.send);
    let due = update_images(&mut p, &[video(7, 102)], PERIOD);
    assert!(due.send);
}

#[test]
fn animation_callbacks_drive_composites_instead_of_videos() {
    let mut p = painter();
    p.add_webview(50);
    p.change_running_animations_state(50, true, true, true);
    assert!(p.animation_callbacks_running());
    assert!(!update_images(&mut p, &[video(7, 100)], 0).send);
    p.change_running_animations_state(50, true, false, false);
    assert!(update_images(&mut p, &[], MS).send);
}

#[test]
fn external_surfaces_are_presented_without_the_renderer() {
    let mut p = painter();
    let run = p.begin_image_updates(&[video(7, 100)], 0);
    let r = p.finish_image_updates(run, true, true, PERIOD, 0);
    assert!(r.present_external && !r.send);
    let run = p.begin_image_updates(&[video(7, 101)], 5 * MS);
    assert!(!p.finish_image_updates(run, true, true, PERIOD, 5 * MS).present_external);
    let run = p.begin_image_updates(&[video(7, 102)], 14 * MS);
    assert!(p.finish_image_updates(run, true, true, PERIOD, 14 * MS).present_external);
}

#[test]
fn a_script_frame_waits_for_its_canvas() {
    let mut p = painter();
    p.delay_new_frames_for_canvas(40, 3, &[7]);
    assert!(p.generate_frame_for_script(1, 0, 0).is_none());
    let early = update_images(&mut p, &[canvas(7, 1, 2)], MS);
    assert!(early.acknowledged.is_none());
    assert_eq!(early.transaction, vec![TransactionOp::UpdateImage { key: 7, data: 1 }]);
    let there = update_images(&mut p, &[canvas(7, 2, 3)], 2 * MS);
    assert_eq!(there.acknowledged, Some(vec![40]));
    assert_eq!(there.transaction, vec![TransactionOp::UpdateImage { key: 7, data: 2 }, FRAME]);
    // The composite is under way, so the next one waits for its render pass.
    assert!(p.generate_frame_for_script(2, 0, 3 * MS).is_none());
    p.end_render(4 * MS);
    let frame = p.generate_frame_for_script(3, 0, 5 * MS).unwrap();
    assert_eq!(frame.transaction, vec![FRAME]);
    assert!(frame.acknowledged.is_empty());
}

#[test]
fn an_owed_acknowledgement_is_paid_when_rendering() {
    let mut p = painter();
    // A composite is under way when the images of the next frame come.
    assert!(p.generate_frame_for_script(1, 0, 0).is_some());
    p.delay_new_frames_for_canvas(40, 1, &[7]);
    assert!(p.generate_frame_for_script(2, 0, MS).is_none());
    assert!(update_images(&mut p, &[canvas(7, 1, 1)], 2 * MS).acknowledged.is_none());
    assert!(p.flush_owed_canvas_ack(false, 2 * MS).is_none());
    p.end_render(3 * MS);
    assert!(p.flush_owed_canvas_ack(true, 4 * MS).is_none());
    let start = p.begin_render(false, 5 * MS);
    let owed = start.owed_ack.unwrap();
    assert_eq!(owed.acknowledged, vec![40]);
    assert_eq!(owed.transaction, vec![FRAME]);
    assert_eq!(owed.report, None);
    assert_eq!(start.render_count, 1);
}

#[test]
fn a_withheld_acknowledgement_is_recovered() {
    let mut p = Painter::new(1, 10, false, None, 1);
    p.delay_new_frames_for_canvas(40, 1, &[7]);
    assert!(p.generate_frame_for_script(1, 0, 0).is_none());
    assert!(update_images(&mut p, &[canvas(7, 1, 1)], MS).acknowledged.is_none());
    assert_eq!(p.canvas_ack_skips_left, 0);
    let owed = p.flush_owed_canvas_ack(false, 2 * MS).unwrap();
    assert_eq!(owed.acknowledged, vec![40]);
}

#[test]
fn a_stuck_acknowledgement_is_reported_once_a_second() {
    let mut p = painter();
    assert!(p.check_canvas_ack_latch(0).is_none());
    p.delay_new_frames_for_canvas(40, 3, &[7, 8]);
    assert!(p.check_canvas_ack_latch(0).is_none());
    assert!(p.check_canvas_ack_latch(SECOND - 1).is_none());
    let report = p.check_canvas_ack_latch(SECOND).unwrap();
    assert_eq!(report.held_ns, SECOND);
    assert_eq!(report.pending_images, 2);
    assert!(!report.pending_frame && !report.renderer_behind && !report.in_flight);
    assert!(p.check_canvas_ack_latch(SECOND + 1).is_none());
    assert!(p.check_canvas_ack_latch(2 * SECOND).is_some());
}

#[test]
fn animated_images_keep_their_bytes() {
    let mut p = painter();
    let add = ImageUpdate::AddImage { key: 7, data: 70, raw: true, animated: true };
    let outside = ImageUpdate::AddImage { key: 8, data: 80, raw: false, animated: true };
    let r = update_images(&mut p, &[add, outside], 0);
    assert_eq!(
        r.transaction,
        vec![
            TransactionOp::AddImage { key: 7, data: 70 },
            TransactionOp::AddImage { key: 8, data: 80 }
        ]
    );
    let turn = |key| ImageUpdate::UpdateImageForAnimation { key, desc: 5 };
    let r = update_images(&mut p, &[turn(7), turn(8)], MS);
    assert_eq!(
        r.transaction,
        vec![TransactionOp::UpdateCachedImage { key: 7, data: 70, desc: 5 }]
    );
    let r = update_images(&mut p, &[ImageUpdate::DeleteImage { key: 7 }, turn(7)], 2 * MS);
    assert_eq!(r.transaction, vec![TransactionOp::DeleteImage { key: 7 }]);
}

#[test]
fn a_frame_without_a_repaint_ends_its_composite() {
    let mut p = painter();
    p.generate_frame_for_script(1, 0, 0);
    let ready = p.note_webrender_frame_ready(false, false, MS);
    assert_eq!(ready.resize, ResizeTick::Nothing);
    assert!(!ready.diagnostic.unwrap().need_repaint);
    assert!(p.generate_frame_for_script(2, 0, 2 * MS).is_some());
}

#[test]
fn a_released_frame_asks_for_a_repaint() {
    let mut p = painter();
    let r = p.handle_new_webrender_frame_ready(false);
    assert!(r.maybe_trigger_screenshot && !r.refresh_cursor);
    assert!(!p.needs_repaint());
    let r = p.handle_new_webrender_frame_ready(true);
    assert!(r.refresh_cursor && !r.maybe_trigger_screenshot);
    assert_eq!(p.needs_repaint, NEW_WEBRENDER_FRAME);
    assert!(p.needs_repaint());
    p.end_render(0);
    assert!(!p.needs_repaint());
}

#[test]
fn painting_waits_for_the_next_frame_of_an_animation() {
    let mut p = painter();
    p.add_webview(50);
    let start = p.change_running_animations_state(50, true, true, false);
    assert!(start.tick && start.ask_next_frame);
    assert_eq!(p.animating_webviews(), vec![50]);
    p.set_needs_repaint(NEW_WEBRENDER_FRAME);
    assert!(!p.needs_repaint());
    assert!(p.webviews_needing_repaint().is_empty());
    p.frame_started();
    assert!(p.needs_repaint());
    assert_eq!(p.webviews_needing_repaint(), vec![50]);
    assert_eq!(p.animation_frame_started(), vec![50]);
    assert!(p.animation_ticks_sent(true));
    assert!(p.notify_will_paint(&[true]));
    assert!(!p.needs_repaint());
    let again = p.change_running_animations_state(50, true, true, false);
    assert!(again.tick && !again.ask_next_frame);
    let unknown = p.change_running_animations_state(99, true, true, false);
    assert!(!unknown.tick && !unknown.ask_next_frame);
}

#[test]
fn webviews_come_hide_and_go() {
    let mut p = painter();
    assert!(p.is_empty());
    p.add_webview(52);
    p.add_webview(51);
    assert!(p.knows_webview(52) && !p.is_empty());
    let root = vec![TransactionOp::RootDisplayList, FRAME];
    assert_eq!(p.set_webview_hidden(52, true, 0).unwrap(), Some(root.clone()));
    assert_eq!(p.set_webview_hidden(52, true, 0).unwrap(), None);
    assert_eq!(p.set_webview_hidden(99, true, 0), Err(UnknownWebView(99)));
    assert_eq!(p.remove_webview(52, 0), Some(root));
    assert_eq!(p.remove_webview(52, 0), None);
    assert!(!p.knows_webview(52));
}

#[test]
fn later_webviews_are_painted_on_top() {
    let mut p = painter();
    for webview in [53, 51, 52, 54] {
        p.add_webview(webview);
    }
    for webview in [51, 52, 53] {
        p.set_frame_tree_for_webview(webview, Some(webview + 100), 0);
    }
    p.set_webview_hidden(52, true, 0).unwrap();
    assert_eq!(p.paint_order(), vec![(51, 151), (53, 153)]);
}

#[test]
fn a_window_is_resized_once() {
    let mut p = Painter::new(1, 10, true, None, 0);
    assert!(p.resize_rendering_context((5, 5), (5, 5), false, false, 0).is_none());
    let plan = p.resize_rendering_context((5, 5), (8, 6), false, false, 0).unwrap();
    assert_eq!(plan.view, vec![TransactionOp::DocumentView { width: 8, height: 6 }]);
    assert_eq!(plan.root, vec![TransactionOp::RootDisplayList, FRAME]);
    assert_eq!(plan.start.unwrap().tile_size, DeviceIntSize::new(512, 512));
    assert_eq!(p.needs_repaint, RESIZE);
    let plan = p.resize_rendering_context((8, 6), (9, 6), false, false, 0).unwrap();
    assert!(plan.start.is_none());
    let ready = p.note_webrender_frame_ready(true, false, 0);
    assert_eq!(ready.resize, ResizeTick::Waiting);
    assert!(p.viewport_set(50, true, 0).is_none());
    p.add_webview(50);
    assert!(p.viewport_set(50, false, 0).is_none());
    assert!(p.viewport_set(50, true, 0).is_some());
}

#[test]
fn metrics_follow_the_display_lists() {
    let mut p = painter();
    p.add_webview(50);
    let info = DisplayListInfo {
        pipeline: 5,
        epoch: 3,
        first_reflow: true,
        is_paintable: true,
        is_contentful: false,
        scale_changed: false,
    };
    p.handle_new_display_list(50, info);
    p.append_lcp_candidate(true, 50, 5, 3);
    assert!(p.update_epoch(50, 5, 4));
    assert!(!p.update_epoch(99, 5, 4));
    let reports = p.report_paint_metrics(&[(50, 5, 3), (50, 6, 3)]);
    assert_eq!(
        reports,
        vec![(
            5,
            MetricReports {
                first_paint: Some(true),
                first_contentful_paint: None,
                largest_contentful_paint: true,
            }
        )]
    );
}

#[test]
fn scrolling_and_zooming_share_a_transaction() {
    let mut p = painter();
    assert!(p.send_zoom_and_scroll_offset_updates(false, &[], 0).is_none());
    let apz = TransactionOp::GenerateFrame { reason: FrameReason::Apz };
    assert_eq!(
        p.send_zoom_and_scroll_offset_updates(true, &[4, 5], 0),
        Some(vec![
            TransactionOp::RootDisplayList,
            TransactionOp::ScrollOffset { offset: 4 },
            TransactionOp::ScrollOffset { offset: 5 },
            apz,
        ])
    );
    let carets = TransactionOp::GenerateFrame { reason: FrameReason::AnimatedProperty };
    assert_eq!(p.send_caret_colors(0), vec![TransactionOp::CaretColors, carets]);
    assert_eq!(p.request_frame(FrameReason::Scene, 0), vec![FRAME]);
    assert_eq!(p.pending_frames(), 3);
}

#[test]
fn only_scrolled_nodes_are_sent() {
    let bits = |x: f32, y: f32| Some((x.to_bits(), y.to_bits()));
    let node = |external_id, offset| ScrollNode { external_id, offset };
    let out = scroll_offsets_to_send(&[
        node(Some(1), bits(0.0, 0.0)),
        node(Some(2), bits(0.0, 1.5)),
        node(None, bits(2.0, 2.0)),
        node(Some(3), None),
        node(Some(4), bits(-0.0, 0.0)),
        node(Some(5), bits(-3.0, 0.0)),
    ]);
    let ids: Vec<u64> = out.iter().map(|o| o.0).collect();
    assert_eq!(ids, vec![2, 5]);
    assert_eq!(f32::from_bits((out[0].1).1), 1.5);
}

#[test]
fn the_mouse_is_followed_until_it_leaves() {
    let mut p = painter();
    p.add_webview(3);
    let moved = |x| InputKind::MouseMove { for_touch: false, point: (x, 0) };
    assert_eq!(p.notify_input_event(4, moved(1)), None);
    assert_eq!(p.last_mouse_move_position, None);
    assert_eq!(p.refresh_cursor(&[8, 9]), None);
    assert_eq!(p.notify_input_event(3, moved(1)), Some(false));
    assert_eq!(p.refresh_cursor(&[8, 9]), Some(8));
    assert_eq!(p.refresh_cursor(&[]), None);
    let touch = InputKind::MouseMove { for_touch: true, point: (2, 0) };
    assert_eq!(p.notify_input_event(3, touch), Some(false));
    assert_eq!(p.last_mouse_move_position, Some((1, 0)));
    assert_eq!(p.notify_input_event(3, InputKind::Other), Some(true));
    assert_eq!(p.last_mouse_move_position, Some((1, 0)));
    assert_eq!(p.notify_input_event(3, InputKind::MouseLeftViewport), Some(false));
    assert_eq!(p.refresh_cursor(&[8]), None);
    assert_eq!(p.notify_input_event(3, touch), Some(false));
    assert_eq!(p.refresh_cursor(&[8]), None);
}

#[test]
fn a_pipeline_that_is_not_throttled_any_more_ticks() {
    let mut p = painter();
    p.add_webview(3);
    let outcome = p.set_throttled(3, true, true, false);
    assert!(outcome.tick && outcome.ask_next_frame);
    let outcome = p.set_throttled(3, true, false, false);
    assert!(!outcome.tick && !outcome.ask_next_frame);
    assert!(p.animating_webviews().is_empty());
}

#[test]
fn font_instances_go_before_their_fonts() {
    assert_eq!(
        remove_fonts(&[1, 2], &[3]),
        vec![
            TransactionOp::DeleteFontInstance { key: 3 },
            TransactionOp::DeleteFont { key: 1 },
            TransactionOp::DeleteFont { key: 2 },
        ]
    );
}

#[test]
fn the_memory_of_the_painters_is_summed() {
    let a = PainterMemory { fonts: 1, images: 20, display_list: 300, scroll_trees: 4000 };
    let b = PainterMemory { fonts: 2, images: 30, display_list: 400, scroll_trees: 5000 };
    let lines: Vec<(&str, &str, usize)> =
        memory_report(&[a, b]).iter().map(|l| (l.group, l.name, l.size)).collect();
    assert_eq!(
        lines,
        vec![
            ("webrender", "fonts", 3),
            ("webrender", "images", 50),
            ("webrender", "display-list", 700),
            ("paint", "scroll-tree", 9000),
        ]
    );
    assert!(memory_report(&[]).iter().all(|l| l.size == 0));
}

#[test]
fn a_new_renderer_is_told_its_tile_size() {
    let size = DeviceIntSize::new(512, 256);
    assert_eq!(Painter::new(1, 10, true, Some(size), 0).startup_tile_size(), Some(size));
    assert_eq!(painter().startup_tile_size(), None);
}

#[test]
fn only_a_native_compositor_takes_the_window() {
    assert!(Painter::new(1, 10, true, None, 0).restores_window());
    assert!(!painter().restores_window());
}

#[test]
fn script_scrolls_a_known_node() {
    let mut p = painter();
    p.add_webview(5);
    assert!(p.update_epoch(5, 40, 1));
    assert!(p.knows_pipeline(5, 40) && !p.knows_pipeline(5, 41) && !p.knows_pipeline(6, 40));
    // Nothing is sent for what is not known or cannot be scrolled.
    assert_eq!(p.scroll_node_by_delta(6, 40, Some(9), 0), None);
    assert_eq!(p.scroll_node_by_delta(5, 41, Some(9), 0), None);
    assert_eq!(p.scroll_node_by_delta(5, 40, None, 0), None);
    assert_eq!(p.pending_frames(), 0);
    assert_eq!(
        p.scroll_node_by_delta(5, 40, Some(9), 0).unwrap(),
        vec![
            TransactionOp::ScrollOffset { offset: 9 },
            TransactionOp::GenerateFrame { reason: FrameReason::Apz },
        ]
    );
    assert_eq!(p.pending_frames(), 1);
}

#[test]
fn an_exited_pipeline_is_forgotten() {
    let mut p = painter();
    p.add_webview(5);
    p.update_epoch(5, 40, 1);
    p.update_epoch(5, 41, 1);
    // One of its parts is left.
    p.notify_pipeline_exited(5, 40, false);
    assert!(p.knows_pipeline(5, 40));
    p.notify_pipeline_exited(6, 40, true);
    assert!(p.knows_pipeline(5, 40));
    p.notify_pipeline_exited(5, 40, true);
    assert!(!p.knows_pipeline(5, 40) && p.knows_pipeline(5, 41));
    assert_eq!(p.report_pipeline_metrics(5, 40, 1), None);
    assert_eq!(p.scroll_node_by_delta(5, 40, Some(9), 0), None);
}

#[test]
fn only_a_lone_video_frame_skips_the_renderer() {
    let mut p = painter();
    let still = p.begin_image_updates(&[], 0);
    assert!(!p.should_fast_present(&still, true));
    let run = p.begin_image_updates(&[video(7, 100)], 0);
    assert!(p.should_fast_present(&run, true));
    assert!(!p.should_fast_present(&run, false));
    // A frame that was requested shows the video as well.
    let mut p = painter();
    p.delay_new_frames_for_canvas(40, 3, &[8]);
    assert!(p.generate_frame_for_script(1, 0, 0).is_none());
    let run = p.begin_image_updates(&[video(7, 100), canvas(8, 2, 3)], MS);
    assert!(run.video_arrived && run.acknowledged.is_some());
    assert!(!p.should_fast_present(&run, true));
}
