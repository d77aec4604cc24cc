use paint::profile::{
    CadenceReport, EscProf, FrameReasonTally, PresentCadence, PresentCost, RenderCadence,
    RENDER_GAP_NS, SLOW_RENDER_NS, WINDOW_NS,
};
use paint::readback::{readback_stats, DrawnPart, Readback, ReadbackStats};
use paint::video_convert::{
    usable_planes, yuv_rgb_params, ConvertBatch, ConvertParams, Ratio, VideoLeaseColorRange,
    VideoLeaseColorSpace, VideoLeaseFormat, COEF_UNIT,
};
use paint::webrender_external_images::{
    BusyContexts, ExternalImageProfile, LockOutcome, LockedImage, WebGLExternalImages,
};

fn ratio(r: Ratio) -> f64 {
    r.num as f64 / r.den as f64
}

fn coef(n: i64) -> f64 {
    n as f64 / COEF_UNIT as f64
}

#[test]
fn params_matrix_selection() {
    let p = yuv_rgb_params(
        VideoLeaseFormat::I420,
        VideoLeaseColorSpace::Rec709,
        VideoLeaseColorRange::Limited,
    );
    assert!((coef(p.rv) - 1.79274).abs() < 1e-4);
    assert!((ratio(p.rescale) - 1.0).abs() < 1e-6);
    let p10 = yuv_rgb_params(
        VideoLeaseFormat::I420_10,
        VideoLeaseColorSpace::Rec709,
        VideoLeaseColorRange::Limited,
    );
    assert!((ratio(p10.rescale) - 64.0616).abs() < 1e-3);
}

/// The color of an eight-bit sample, as the shader computes it.
fn converted(p: &ConvertParams, y: u8, u: u8, v: u8) -> [u8; 3] {
    let y = y as f64 / 255.0 - ratio(p.y_off);
    let u = u as f64 / 255.0 - 0.5;
    let v = v as f64 / 255.0 - 0.5;
    let byte = |c: f64| (c.clamp(0.0, 1.0) * 255.0).round() as u8;
    [
        byte(coef(p.y_coef) * y + coef(p.rv) * v),
        byte(coef(p.y_coef) * y + coef(p.gu) * u + coef(p.gv) * v),
        byte(coef(p.y_coef) * y + coef(p.bu) * u),
    ]
}

fn close(a: [u8; 3], b: [u8; 3], by: u8) {
    for (x, y) in a.iter().zip(b.iter()) {
        assert!(x.abs_diff(*y) <= by, "{a:?} is not {b:?}");
    }
}

#[test]
fn the_matrices_give_white_black_and_red() {
    let p = yuv_rgb_params(
        VideoLeaseFormat::I420,
        VideoLeaseColorSpace::Rec709,
        VideoLeaseColorRange::Limited,
    );
    close(converted(&p, 235, 128, 128), [255, 255, 255], 3);
    close(converted(&p, 16, 128, 128), [0, 0, 0], 3);
    let p = yuv_rgb_params(
        VideoLeaseFormat::Nv12,
        VideoLeaseColorSpace::Rec601,
        VideoLeaseColorRange::Limited,
    );
    assert!(p.interleaved_uv);
    close(converted(&p, 81, 90, 240), [255, 0, 0], 4);
    for space in
        [VideoLeaseColorSpace::Rec601, VideoLeaseColorSpace::Rec709, VideoLeaseColorSpace::Rec2020]
    {
        let p = yuv_rgb_params(VideoLeaseFormat::P010, space, VideoLeaseColorRange::Full);
        assert_eq!(p.y_off, Ratio { num: 0, den: 1 });
        assert_eq!(p.y_coef, COEF_UNIT);
        assert_eq!(p.rescale, Ratio { num: 65535, den: 65472 });
        close(converted(&p, 255, 128, 128), [255, 255, 255], 2);
        close(converted(&p, 0, 128, 128), [0, 0, 0], 2);
    }
}

#[test]
fn the_shader_reads_the_rows_in_order() {
    let p = yuv_rgb_params(
        VideoLeaseFormat::Nv12,
        VideoLeaseColorSpace::Rec601,
        VideoLeaseColorRange::Limited,
    );
    let b = p.to_cbuffer();
    assert_eq!(b.mat_r.map(|r| r.num), [116438, 0, 159603, 0]);
    assert_eq!(b.mat_g.map(|r| r.num), [116438, -39176, -81297, 0]);
    assert_eq!(b.mat_b.map(|r| r.num), [116438, 201723, 0, 0]);
    assert_eq!(b.offs.map(ratio), [16.0 / 255.0, 0.5, 0.5, 0.0]);
    assert_eq!(b.misc.map(ratio), [1.0, 1.0, 0.0, 0.0]);
}

#[test]
fn a_missing_plane_is_named() {
    assert_eq!(usable_planes(2, &[true, true, false]), Ok(2));
    assert_eq!(usable_planes(3, &[true, true, false]), Err(2));
    assert_eq!(usable_planes(5, &[true, true, true]), Ok(3));
    assert_eq!(usable_planes(1, &[false, true, true]), Err(0));
}

#[test]
fn a_batch_swaps_the_state_once() {
    let mut batch = ConvertBatch { active: false };
    assert!(batch.convert_swaps_itself());
    assert!(batch.begin_batch());
    assert!(!batch.begin_batch());
    assert!(!batch.convert_swaps_itself());
    assert!(batch.end_batch());
    assert!(!batch.end_batch());
    assert!(batch.convert_swaps_itself());
}

const TEXTURE: LockOutcome = LockOutcome::Texture { texture: 9, gl_texture: 4, width: 30, height: 20 };

#[test]
fn lending_a_picture_is_counted_and_undone() {
    let mut busy = BusyContexts::new(1);
    let mut images = WebGLExternalImages::new(1);
    images.begin_lock(5, &mut busy);
    assert_eq!(busy.counts.get(&5), Some(&1));
    let r = images.finish_lock(5, TEXTURE, &mut busy);
    assert_eq!(r.image, LockedImage { gl_texture: Some(4), width: 30, height: 20 });
    assert!(r.first && !r.finished && !r.recycle);
    // A lock within the lock: the latest picture comes back first.
    images.begin_lock(5, &mut busy);
    let inner = LockOutcome::Texture { texture: 10, gl_texture: 6, width: 1, height: 1 };
    assert!(!images.finish_lock(5, inner, &mut busy).first);
    assert_eq!(busy.counts.get(&5), Some(&2));
    assert_eq!(images.unlock(5, &mut busy), Some(10));
    assert_eq!(images.unlock(5, &mut busy), Some(9));
    assert_eq!(busy.counts.get(&5), Some(&0));
    assert_eq!(images.unlock(5, &mut busy), None);
    assert_eq!(busy.counts.get(&5), Some(&0));
    assert!(images.locked_front_buffers.is_empty());
    assert_eq!(images.painter_id, 1);
}

#[test]
fn a_lock_and_its_unlock_cancel_out() {
    for outcome in [TEXTURE, LockOutcome::NoSwapChain, LockOutcome::NoTexture] {
        let mut busy = BusyContexts::new(1);
        busy.mark_busy(5);
        busy.mark_busy(8);
        let mut images = WebGLExternalImages::new(1);
        images.begin_lock(5, &mut busy);
        let lent = images.finish_lock(5, outcome, &mut busy).image.gl_texture.is_some();
        assert_eq!(busy.counts.get(&5), Some(if lent { &2 } else { &1 }));
        assert_eq!(images.unlock(5, &mut busy).is_some(), lent);
        assert_eq!((busy.counts.get(&5), busy.counts.get(&8)), (Some(&1), Some(&1)));
        assert!(images.locked_front_buffers.is_empty());
    }
}

#[test]
fn a_lock_that_finds_nothing_leaves_no_trace() {
    for outcome in [LockOutcome::NoSwapChain, LockOutcome::NoFrontBuffer, LockOutcome::NoTexture] {
        let mut busy = BusyContexts::new(1);
        let mut images = WebGLExternalImages::new(1);
        images.begin_lock(5, &mut busy);
        let r = images.finish_lock(5, outcome, &mut busy);
        assert_eq!(r.image, LockedImage { gl_texture: None, width: 0, height: 0 });
        assert!(r.finished && !r.first);
        assert_eq!(r.recycle, outcome == LockOutcome::NoTexture);
        assert_eq!(busy.counts.get(&5), Some(&0));
        assert_eq!(images.unlock(5, &mut busy), None);
        assert_eq!(busy.counts.get(&5), Some(&0));
    }
    let mut busy = BusyContexts::new(1);
    assert!(!busy.mark_not_busy(5));
}

#[test]
fn lending_is_reported_once_a_second() {
    let mut profile = ExternalImageProfile::new(None);
    profile.note_lock(10, 3, 4, true);
    assert!(profile.maybe_emit(100).is_none());
    profile.note_unlock(20, 5);
    let (closed, window) = profile.maybe_emit(100 + WINDOW_NS).unwrap();
    assert_eq!(window, WINDOW_NS);
    assert_eq!((closed.locks, closed.lock_ns, closed.no_front_buffer), (1, 10, 1));
    assert_eq!((closed.take_ns, closed.create_ns), (3, 4));
    assert_eq!((closed.unlocks, closed.unlock_ns, closed.destroy_ns), (1, 20, 5));
    assert_eq!(profile, ExternalImageProfile::new(Some(100 + WINDOW_NS)));
}

#[test]
fn presenting_is_reported_once_a_second() {
    let mut prof = EscProf::new(0);
    prof.note_acquire(7);
    prof.note_present(PresentCost {
        converts: 1,
        presents: 1,
        srv_creates: 2,
        batch_swaps: 1,
        convert_ns: 5,
        present_ns: 6,
    });
    prof.note_frame();
    assert!(prof.maybe_flush(WINDOW_NS - 1).is_none());
    let out = prof.maybe_flush(WINDOW_NS).unwrap();
    assert_eq!((out.frames, out.acquires, out.acquire_ns), (1, 1, 7));
    assert_eq!((out.converts, out.presents, out.srv_creates, out.batch_swaps), (1, 1, 2, 1));
    assert_eq!((out.convert_ns, out.present_ns), (5, 6));
    assert_eq!(prof, EscProf::new(WINDOW_NS));
}

#[test]
fn the_cadence_knows_the_longest_gap() {
    let mut cadence = PresentCadence::new();
    assert!(cadence.note_frame(0).is_none());
    assert!(cadence.note_frame(400_000_000).is_none());
    assert!(cadence.note_frame(500_000_000).is_none());
    assert_eq!(
        cadence.note_frame(1_000_000_000),
        Some(CadenceReport { window_ns: WINDOW_NS, count: 4, max_gap_ns: 500_000_000 })
    );
    // The gap from the window before counts in the next one.
    assert!(cadence.note_frame(1_900_000_000).is_none());
    assert_eq!(cadence.max_gap_ns, 900_000_000);
}

#[test]
fn slow_passes_and_gaps_are_seen() {
    assert_eq!((RENDER_GAP_NS, SLOW_RENDER_NS), (100_000_000, 16_000_000));
    let mut watched = RenderCadence::new(true);
    assert_eq!(watched.gap(500_000_000), None);
    assert!(!watched.note_end(16_000_000, 500_000_000));
    assert_eq!(watched.gap(600_000_000), None);
    assert_eq!(watched.gap(600_000_001), Some(100_000_001));
    assert!(watched.note_end(16_000_001, 700_000_000));
    assert_eq!(watched.last_end, Some(700_000_000));
    let mut off = RenderCadence::new(false);
    assert!(!off.note_end(1_000_000_000, 5));
    assert_eq!(off, RenderCadence::new(false));
    assert_eq!(off.gap(2_000_000_000), None);
}

#[test]
fn frequent_reasons_come_first() {
    let mut tally = FrameReasonTally::new();
    for place in [3, 8, 8, 5, 8, 5] {
        assert!(tally.note(place, 10).is_none());
    }
    let report = tally.note(3, 10 + WINDOW_NS).unwrap();
    assert_eq!(report.total, 7);
    assert_eq!(report.window_ns, WINDOW_NS);
    assert_eq!(report.counts[0], (8, 3));
    assert_eq!(report.counts.len(), 3);
    assert!(report.counts[1].1 == 2 && report.counts[2].1 == 2);
    assert!(tally.note(3, 11 + WINDOW_NS).is_none());
}

fn part(width: i32, height: i32) -> DrawnPart {
    DrawnPart { width, height, offset_x: 0, offset_y: 0, dirty_width: width, dirty_height: height }
}

#[test]
fn a_black_tile_is_seen() {
    let bytes = vec![0_u8; 16 * 16 * 4];
    assert_eq!(
        readback_stats(&bytes, part(16, 16)),
        Readback::Stats(ReadbackStats {
            alpha_min: 0,
            alpha_max: 0,
            rgb_nonzero: 0,
            whole_rgb_nonzero: 0,
            whole_alpha_max: 0,
        })
    );
    assert_eq!(readback_stats(&bytes, part(0, 16)), Readback::Empty);
    assert_eq!(readback_stats(&bytes, part(17, 16)), Readback::Short);
}

#[test]
fn a_lit_tile_is_seen_where_it_lies() {
    // The right half is lit and opaque.
    let mut bytes = vec![0_u8; 16 * 16 * 4];
    for y in 0..16 {
        for x in 8..16 {
            let at = (y * 16 + x) * 4;
            bytes[at] = 200;
            bytes[at + 3] = 255;
        }
    }
    let whole = readback_stats(&bytes, part(16, 16));
    let Readback::Stats(stats) = whole else {
        panic!("no samples");
    };
    assert_eq!((stats.alpha_min, stats.alpha_max, stats.rgb_nonzero), (0, 255, 32));
    assert_eq!((stats.whole_rgb_nonzero, stats.whole_alpha_max), (15 * 32, 255));
    // Drawn was the left half only; the scan of the whole texture finds the rest.
    let left = DrawnPart { dirty_width: 8, ..part(16, 16) };
    let Readback::Stats(stats) = readback_stats(&bytes, left) else {
        panic!("no samples");
    };
    assert_eq!((stats.alpha_max, stats.rgb_nonzero), (0, 0));
    assert_eq!(stats.whole_alpha_max, 255);
    // A part outside the texture stands for its edge.
    let outside = DrawnPart { offset_x: 100, ..part(16, 16) };
    let Readback::Stats(stats) = readback_stats(&bytes, outside) else {
        panic!("no samples");
    };
    assert_eq!(stats.rgb_nonzero, 64);
}
