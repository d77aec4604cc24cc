use paint::composite_latch::CompositeLatch;
use paint::debug_options::{toggled_debug_flags, WebRenderDebugOption};
use paint::frame_delayer::FrameDelayer;
use paint::frame_queue::{FrameQueue, FrameReason};
use paint::geometry::DeviceIntSize;
use paint::paint_metrics::{MetricReports, PaintMetricState, PipelineMetrics};
use paint::refresh_driver::{
    AnimationNotice, AnimationRefreshDriverObserver, BaseRefreshDriver,
};
use paint::resize_rebuild::{ResizeRebuild, ResizeStart, ResizeTick};
use paint::settings::{
    alternate_tile_size, canvas_ack_skips, paint_timer_period_ns, resolve_wr_tile_size,
    storage_mode, switch_is_on, tile_size_is_malformed, uploads_immediately, worker_thread_count,
    PaintTimer,
};
use paint::surface::StorageMode;
use webrender_api::DebugFlags;

#[test]
fn a_lost_render_does_not_block_for_ever() {
    let mut latch = CompositeLatch::new();
    assert!(!latch.renderer_behind(0));
    latch.set(true, 1_000_000_000);
    assert!(latch.renderer_behind(1_500_000_000));
    // Doing it again does not put the time-out off.
    latch.set(true, 2_500_000_000);
    assert!(latch.renderer_behind(2_999_999_999));
    assert!(!latch.renderer_behind(3_000_000_000));
    assert_eq!(latch, CompositeLatch::new());
    latch.set(true, 5);
    latch.set(false, 6);
    assert!(!latch.renderer_behind(7));
}

#[test]
fn a_frame_waits_for_its_canvas_image() {
    let mut delayer = FrameDelayer::new();
    delayer.set_pending_frame(true);
    assert!(delayer.needs_new_frame());
    delayer.add_delay(40, 3, &[7, 8]);
    assert!(!delayer.needs_new_frame());
    assert!(delayer.is_holding_ack());
    assert_eq!(delayer.pending_canvas_image_count(), 2);
    delayer.update_image(7, 2);
    delayer.update_image(8, 3);
    assert_eq!(delayer.pending_canvas_image_count(), 1);
    assert!(!delayer.needs_new_frame());
    delayer.update_image(7, 4);
    assert!(delayer.needs_new_frame());
    assert_eq!(delayer.take_waiting_pipelines(), vec![40]);
    assert!(!delayer.is_holding_ack());
    // What is there already is not waited for.
    delayer.add_delay(41, 4, &[7]);
    assert!(delayer.needs_new_frame());
    // A deleted image is not waited for either.
    delayer.add_delay(41, 9, &[7]);
    assert!(!delayer.needs_new_frame());
    delayer.delete_image(7);
    assert!(delayer.needs_new_frame());
}

#[test]
fn every_waiting_pipeline_is_told_once() {
    let mut delayer = FrameDelayer::new();
    delayer.add_delay(1, 1, &[]);
    delayer.add_delay(2, 1, &[]);
    delayer.add_delay(1, 2, &[]);
    let mut told = delayer.take_waiting_pipelines();
    told.sort();
    assert_eq!(told, vec![1, 2]);
    assert!(delayer.take_waiting_pipelines().is_empty());
}

#[test]
fn frames_come_back_in_order() {
    let mut queue = FrameQueue::new();
    assert!(queue.note_ready(9, 0, true).is_none());
    assert_eq!(queue.unexpected_frame_ready_count, 1);
    queue.request(None, None, 10, FrameReason::Scene);
    queue.request(Some(4), Some(11), 12, FrameReason::Apz);
    assert_eq!(queue.overlapping_frame_request_count, 1);
    let first = queue.note_ready(9, 30, true).unwrap();
    assert_eq!((first.local_frame_id, first.wall_logical_frame_id), (1, None));
    assert_eq!((first.painter_id, first.ready_at, first.wait_ns), (9, 30, 20));
    let second = queue.note_ready(9, 31, false).unwrap();
    assert_eq!((second.local_frame_id, second.wall_logical_frame_id), (2, Some(4)));
    assert!(!second.need_repaint);
    assert_eq!(queue.last_ready_local_frame_id, Some(2));
    assert_eq!(queue.last_ready_wall_logical_frame_id, Some(4));
    assert_eq!(queue.pending_frames, 0);
}

#[test]
fn first_paints_are_reported_once() {
    let mut m = PipelineMetrics::new();
    m.handle_display_list(3, true, false, true);
    assert_eq!(m, PipelineMetrics::new());
    m.handle_display_list(4, true, true, false);
    m.handle_display_list(5, false, true, true);
    assert_eq!(m.first_paint_metric, PaintMetricState::Seen(4, true));
    assert_eq!(m.first_contentful_paint_metric, PaintMetricState::Seen(5, false));
    m.note_largest_candidate(6);
    let nothing = MetricReports {
        first_paint: None,
        first_contentful_paint: None,
        largest_contentful_paint: false,
    };
    assert_eq!(m.after_composite(3), nothing);
    assert_eq!(m.after_composite(4), MetricReports { first_paint: Some(true), ..nothing });
    assert_eq!(
        m.after_composite(6),
        MetricReports {
            first_paint: None,
            first_contentful_paint: Some(false),
            largest_contentful_paint: true,
        }
    );
    m.handle_display_list(7, true, true, true);
    assert_eq!(m.after_composite(9), nothing);
}

#[test]
fn painting_waits_for_animations_only() {
    let mut driver = BaseRefreshDriver::new();
    assert!(!driver.wait_to_paint());
    assert!(driver.add_observer(1));
    assert!(!driver.add_observer(2));
    assert!(driver.wait_to_paint());
    driver.frame_started();
    assert!(!driver.wait_to_paint());
    assert!(driver.notify_will_paint(&[false, true]));
    assert_eq!(driver.observers, vec![2]);
    assert!(driver.wait_to_paint());
    driver.frame_started();
    assert!(!driver.notify_will_paint(&[false]));
    assert!(!driver.wait_to_paint());
}

#[test]
fn the_animation_observer_is_added_once() {
    let mut observer = AnimationRefreshDriverObserver::new();
    assert_eq!(
        observer.notify_animation_state_changed(false),
        AnimationNotice { tick: false, observe: false }
    );
    assert_eq!(
        observer.notify_animation_state_changed(true),
        AnimationNotice { tick: true, observe: true }
    );
    assert_eq!(
        observer.notify_animation_state_changed(true),
        AnimationNotice { tick: true, observe: false }
    );
    assert!(observer.frame_started(2));
    assert!(observer.ticks_sent(true));
    assert!(!observer.ticks_sent(false));
    assert!(!observer.frame_started(0));
    assert!(!observer.animating);
}

#[test]
fn a_drag_rebuilds_the_tiles_twice() {
    let steady = Some(DeviceIntSize::new(512, 512));
    let mut rebuild = ResizeRebuild::new(true, steady);
    assert_eq!(rebuild.tick(false), ResizeTick::Nothing);
    assert_eq!(
        rebuild.size_changed(false, false),
        Some(ResizeStart {
            set_resize_active: true,
            tile_size: DeviceIntSize::new(1024, 512),
        })
    );
    for _ in 0..5 {
        assert_eq!(rebuild.tick(false), ResizeTick::Waiting);
    }
    assert_eq!(rebuild.size_changed(false, false), None);
    for _ in 0..9 {
        assert_eq!(rebuild.tick(false), ResizeTick::Waiting);
    }
    assert_eq!(rebuild.tick(false), ResizeTick::Settled { tile_size: steady });
    assert_eq!(rebuild.tick(false), ResizeTick::Nothing);
    let mut off = ResizeRebuild::new(false, None);
    assert_eq!(off.size_changed(false, false), None);
    let mut disabled = ResizeRebuild::new(true, None);
    assert_eq!(disabled.size_changed(true, false), None);
    assert_eq!(disabled.tick(true), ResizeTick::Nothing);
    let mut flat = ResizeRebuild::new(true, None);
    assert_eq!(
        flat.size_changed(false, true),
        Some(ResizeStart {
            set_resize_active: false,
            tile_size: DeviceIntSize::new(512, 512),
        })
    );
}

#[test]
fn debug_displays_have_the_renderers_bits() {
    let profiler = (DebugFlags::PROFILER_DBG
        | DebugFlags::GPU_TIME_QUERIES
        | DebugFlags::GPU_SAMPLE_QUERIES)
        .bits();
    assert_eq!(toggled_debug_flags(0, WebRenderDebugOption::Profiler), profiler);
    assert_eq!(toggled_debug_flags(profiler, WebRenderDebugOption::Profiler), 0);
    assert_eq!(
        toggled_debug_flags(profiler, WebRenderDebugOption::TextureCacheDebug),
        profiler | DebugFlags::TEXTURE_CACHE_DBG.bits()
    );
    assert_eq!(
        toggled_debug_flags(0, WebRenderDebugOption::RenderTargetDebug),
        DebugFlags::RENDER_TARGET_DBG.bits()
    );
}

#[test]
fn switches_take_a_one_or_the_word_true() {
    assert!(switch_is_on(Some("1")));
    assert!(switch_is_on(Some("TrUe")));
    for value in ["", "0", "yes", "true ", "11"] {
        assert!(!switch_is_on(Some(value)), "{value}");
    }
    assert!(!switch_is_on(None));
    assert_eq!(canvas_ack_skips(Some(3)), 3);
    assert_eq!(canvas_ack_skips(Some(-3)), 0);
    assert_eq!(canvas_ack_skips(None), 0);
    assert_eq!(storage_mode(Some("SURFACE")), StorageMode::SurfaceOnly);
    assert_eq!(storage_mode(Some("hybrid")), StorageMode::Hybrid);
    assert_eq!(storage_mode(None), StorageMode::Hybrid);
}

#[test]
fn tile_sizes_are_read_from_text() {
    let window = DeviceIntSize::new(1920, 1080);
    let size = |w, h| Some(DeviceIntSize::new(w, h));
    assert_eq!(resolve_wr_tile_size("  ", window), None);
    assert_eq!(resolve_wr_tile_size(" Display ", window), size(1920, 1080));
    assert_eq!(resolve_wr_tile_size("display", DeviceIntSize::new(0, 1080)), None);
    assert_eq!(resolve_wr_tile_size("640x480", window), size(640, 480));
    assert_eq!(resolve_wr_tile_size(" 640 X 480 ", window), size(640, 480));
    assert_eq!(resolve_wr_tile_size("640x480x3", window), size(640, 480));
    for value in ["640", "x480", "0x480", "-1x5", "ax5", "640x99999999999"] {
        assert_eq!(resolve_wr_tile_size(value, window), None, "{value}");
        assert!(tile_size_is_malformed(value, window), "{value}");
    }
    assert!(!tile_size_is_malformed("", window));
    assert!(!tile_size_is_malformed("display", DeviceIntSize::new(0, 0)));
    assert!(!tile_size_is_malformed("640x480", window));
    assert_eq!(alternate_tile_size(None), DeviceIntSize::new(512, 512));
    assert_eq!(alternate_tile_size(size(512, 512)), DeviceIntSize::new(1024, 512));
}

#[test]
fn the_other_settings_are_kept_in_range() {
    assert_eq!(worker_thread_count(Some(16), 4, 8), 8);
    assert_eq!(worker_thread_count(Some(2), 4, 8), 2);
    assert_eq!(worker_thread_count(None, 4, 8), 4);
    assert_eq!(worker_thread_count(Some(16), 4, -3), 1);
    assert!(uploads_immediately("ANGLE (NVIDIA)"));
    assert!(!uploads_immediately("angle"));
    assert!(!uploads_immediately("ANG"));
    assert_eq!(paint_timer_period_ns(60), 16_666_667);
    assert_eq!(paint_timer_period_ns(0), 8_333_333);
    assert_eq!(paint_timer_period_ns(1001), 8_333_333);
    assert_eq!(paint_timer_period_ns(1000), 1_000_000);
}

#[test]
fn the_first_timer_period_is_kept() {
    let mut timer = PaintTimer::new();
    assert_eq!(timer.paint_timer_period(60), 16_666_667);
    assert_eq!(timer.paint_timer_period(30), 16_666_667);
    assert_eq!(timer.paint_timer_period(0), 16_666_667);
    for hz in [0, -1, 1001] {
        assert_eq!(PaintTimer::new().paint_timer_period(hz), 8_333_333);
    }
}
