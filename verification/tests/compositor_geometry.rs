use paint::external_surface::external_needs_present;
use paint::geometry::{DeviceIntPoint, DeviceIntRect, DeviceIntSize};
use paint::region::{
    bounding_union, clip_rects, collapse_dirty_if_oversized, region_subtract, subtract_rect,
};
use paint::stale::StaleTracker;
use paint::surface::demote_cooldown;
use paint::tiles::{
    refine_opaque_clip, surface_extent, tile_fits, tile_virtual_rect, tile_visible_virtual_rect,
    tiles_are_dense, FrameCoverage, TileSet,
};

fn r(x0: i32, y0: i32, x1: i32, y1: i32) -> DeviceIntRect {
    DeviceIntRect::new(DeviceIntPoint::new(x0, y0), DeviceIntPoint::new(x1, y1))
}

fn area(rects: &[DeviceIntRect]) -> i32 {
    rects.iter().map(|q| (q.max.x - q.min.x) * (q.max.y - q.min.y)).sum()
}

fn tile_set(tiles: &[(i32, i32)]) -> TileSet {
    let mut set = TileSet::new();
    for tile in tiles {
        set.insert(*tile);
    }
    set
}

#[test]
fn external_needs_present_dedups_by_ring_and_seq() {
    assert!(external_needs_present(None, 1, 5));
    assert!(!external_needs_present(Some((1, 5)), 1, 5));
    // A new frame.
    assert!(external_needs_present(Some((1, 5)), 1, 6));
    // Another ring.
    assert!(external_needs_present(Some((1, 5)), 2, 5));
}

#[test]
fn tile_virtual_rect_positions_tiles_on_grid() {
    let vo = DeviceIntPoint::new(16384, 16384);
    let ts = DeviceIntSize::new(1024, 512);
    let r = tile_virtual_rect(vo, ts, 0, 0);
    assert_eq!(r.min, vo);
    let r = tile_virtual_rect(vo, ts, 2, -1);
    assert_eq!(r.min, DeviceIntPoint::new(16384 + 2048, 16384 - 512));
    assert_eq!(r.size(), ts);
}

#[test]
fn tile_visible_virtual_rect_clips_to_surface_clip() {
    let vo = DeviceIntPoint::new(16384, 16384);
    let ts = DeviceIntSize::new(1024, 512);
    let tile = tile_virtual_rect(vo, ts, 1, 2);
    let clip = r(0, 972, 1920, 1080);
    let vis = tile_visible_virtual_rect(tile, Some(clip), (0, 0), vo);
    assert_eq!(vis, r(17408, 17408, 18304, 17464));
    assert!(vis.min.y <= 17408 && vis.max.y >= 17435);
    // Without a clip the whole tile.
    assert_eq!(tile_visible_virtual_rect(tile, None, (0, 0), vo), tile);
    // The whole tile, too, where the clip does not meet it.
    let far = r(0, 0, 10, 10);
    assert_eq!(tile_visible_virtual_rect(tile, Some(far), (0, 0), vo), tile);
    // The clip moves with the surface.
    let vis2 = tile_visible_virtual_rect(tile, Some(clip), (100, 0), vo);
    assert_eq!(vis2, r(17408, 17408, 18204, 17464));
}

#[test]
fn refine_opaque_clip_clips_phantom_to_drawn_region() {
    let wr_clip = r(0, 937, 1904, 1041);
    let drawn = r(0, 1024, 121, 1041);
    assert_eq!(refine_opaque_clip(wr_clip, true, Some(drawn)), r(0, 1024, 121, 1041));
    assert_eq!(refine_opaque_clip(wr_clip, false, Some(drawn)), wr_clip);
    assert_eq!(refine_opaque_clip(wr_clip, true, None), wr_clip);
    assert_eq!(refine_opaque_clip(wr_clip, true, Some(wr_clip)), wr_clip);
    assert_eq!(refine_opaque_clip(wr_clip, true, Some(r(5000, 5000, 5100, 5100))), wr_clip);
}

#[test]
fn region_subtract_cases() {
    // Apart.
    assert_eq!(
        region_subtract(&[r(0, 0, 10, 10)], &[r(20, 20, 30, 30)]),
        vec![r(0, 0, 10, 10)]
    );
    // Covered.
    assert!(region_subtract(&[r(0, 0, 10, 10)], &[r(0, 0, 10, 10)]).is_empty());
    assert!(region_subtract(&[r(2, 2, 8, 8)], &[r(0, 0, 10, 10)]).is_empty());
    // A corner.
    let out = region_subtract(&[r(0, 0, 10, 10)], &[r(5, 5, 15, 15)]);
    assert_eq!(area(&out), 100 - 25);
    for (i, a) in out.iter().enumerate() {
        assert!(a.intersection(&r(5, 5, 15, 15)).is_none());
        for b in out.iter().skip(i + 1) {
            assert!(a.intersection(b).is_none());
        }
    }
    // Several, one after the other.
    let out = region_subtract(&[r(0, 0, 100, 10)], &[r(10, 0, 20, 10), r(30, 0, 40, 10)]);
    assert_eq!(area(&out), 1000 - 100 - 100);
}

#[test]
fn subtracting_leaves_no_empty_rectangle() {
    assert!(region_subtract(&[r(5, 5, 5, 9)], &[]).is_empty());
    assert!(region_subtract(&[r(5, 5, 5, 9)], &[r(0, 0, 10, 10)]).is_empty());
    assert_eq!(region_subtract(&[r(1, 2, 3, 4)], &[]), vec![r(1, 2, 3, 4)]);
}

#[test]
fn bands_around_a_hole() {
    let out = subtract_rect(r(0, 0, 10, 10), r(2, 3, 4, 5));
    assert_eq!(area(&out), 100 - 4);
    assert_eq!(out.len(), 4);
    for band in &out {
        assert!(band.intersection(&r(2, 3, 4, 5)).is_none());
    }
}

#[test]
fn stale_tracker_bookkeeping() {
    let full = r(0, 0, 100, 100);
    let mut st = StaleTracker::default();
    // The first full frame leaves the other buffer without anything.
    st.on_present(&[full], full);
    // The left half comes: the right half is missing.
    let catchup = st.catchup_rects(&[r(0, 0, 50, 100)]);
    assert_eq!(area(&catchup), 100 * 100 - 50 * 100);
    // Then the other buffer misses the left half.
    st.on_present(&[r(0, 0, 50, 100)], full);
    let catchup = st.catchup_rects(&[]);
    assert_eq!(area(&catchup), 50 * 100);
    // A full frame needs nothing.
    assert!(st.catchup_rects(&[full]).is_empty());
    // More than 32 rectangles become one.
    let mut st = StaleTracker::default();
    let many: Vec<DeviceIntRect> = (0..40).map(|i| r(i * 2, 0, i * 2 + 1, 1)).collect();
    st.on_present(&many, full);
    assert_eq!(st.stale[st.cur].len(), 1);
    assert_eq!(st.stale[st.cur][0], r(0, 0, 79, 1));
    assert_eq!(st.catchup_rects(&[]), vec![r(0, 0, 79, 1)]);
}

#[test]
fn an_unpresented_chain_misses_nothing_it_knows_of() {
    let mut st = StaleTracker::default();
    assert!(st.catchup_rects(&[]).is_empty());
    st.on_present(&[r(0, 0, 1, 1)], r(0, 0, 10, 10));
    st.reset();
    assert_eq!(st.cur, 0);
    assert!(st.catchup_rects(&[]).is_empty());
}

#[test]
fn coverage_full_only_when_every_tile_fully_drawn() {
    let tiles = tile_set(&[(0, 0), (1, 0)]);
    let mut cov = FrameCoverage::default();
    let valid = r(0, 0, 100, 100);
    cov.note_tile((0, 0), r(0, 0, 100, 100), valid);
    assert!(!cov.is_full(&tiles));
    cov.note_tile((1, 0), r(0, 0, 50, 100), valid);
    assert!(!cov.is_full(&tiles));
    cov.note_tile((1, 0), r(0, 0, 100, 100), valid);
    assert!(cov.is_full(&tiles));
    cov.reset();
    assert!(!cov.is_full(&tiles));
}

#[test]
fn no_tiles_are_never_covered() {
    assert!(!FrameCoverage::default().is_full(&TileSet::new()));
}

#[test]
fn surface_extent_unions_tiles() {
    let vo = DeviceIntPoint::new(16384, 16384);
    let ts = DeviceIntSize::new(1024, 512);
    let tiles = tile_set(&[(0, 0), (1, 0), (0, 1)]);
    let e = surface_extent(&tiles, vo, ts).unwrap();
    assert_eq!(e, r(16384, 16384, 16384 + 2048, 16384 + 1024));
    assert!(surface_extent(&TileSet::new(), vo, ts).is_none());
}

#[test]
fn dense_tiles_fill_their_extent() {
    assert!(tiles_are_dense(2, DeviceIntSize::new(10, 5), DeviceIntSize::new(20, 5)));
    assert!(!tiles_are_dense(3, DeviceIntSize::new(10, 5), DeviceIntSize::new(20, 10)));
}

#[test]
fn demote_cooldown_exponential_with_cap() {
    assert_eq!(demote_cooldown(1), 300);
    assert_eq!(demote_cooldown(2), 600);
    assert_eq!(demote_cooldown(3), 1200);
    assert_eq!(demote_cooldown(4), 2400);
    assert_eq!(demote_cooldown(5), 3600);
    assert_eq!(demote_cooldown(10), 3600);
    assert_eq!(demote_cooldown(0), 300);
}

#[test]
fn collapse_dirty_if_oversized_bounds_growth() {
    let small = vec![r(0, 0, 10, 10), r(20, 20, 30, 30)];
    assert_eq!(collapse_dirty_if_oversized(small.clone(), 32), small);
    let many: Vec<DeviceIntRect> = (0..40).map(|i| r(i * 2, 0, i * 2 + 1, 1)).collect();
    let out = collapse_dirty_if_oversized(many, 32);
    assert_eq!(out, vec![r(0, 0, 79, 1)]);
}

#[test]
fn rectangles_meet_and_join() {
    assert_eq!(r(0, 0, 10, 10).intersection(&r(5, 5, 15, 15)), Some(r(5, 5, 10, 10)));
    assert_eq!(r(0, 0, 10, 10).intersection(&r(10, 0, 20, 10)), None);
    assert_eq!(r(0, 0, 10, 10).union(&r(5, 5, 15, 15)), r(0, 0, 15, 15));
    assert_eq!(r(3, 3, 3, 9).union(&r(5, 5, 15, 15)), r(5, 5, 15, 15));
    assert!(r(0, 0, 10, 10).contains_box(&r(0, 0, 10, 5)));
    assert!(!r(0, 0, 10, 10).contains_box(&r(0, 0, 11, 5)));
    assert!(r(0, 0, 10, 10).contains_box(&r(20, 20, 20, 20)));
    assert_eq!(bounding_union(&[r(0, 0, 1, 1), r(4, 4, 5, 6)]), Some(r(0, 0, 5, 6)));
    assert_eq!(bounding_union(&[]), None);
}

#[test]
fn clipping_keeps_what_is_inside() {
    let out = clip_rects(&[r(-5, -5, 5, 5), r(50, 50, 60, 60)], r(0, 0, 10, 10));
    assert_eq!(out, vec![r(0, 0, 5, 5)]);
}

#[test]
fn tiles_beyond_the_range_do_not_fit() {
    let vo = DeviceIntPoint::new(16384, 16384);
    let ts = DeviceIntSize::new(1024, 512);
    assert!(tile_fits(vo, ts, 1, 2));
    assert!(!tile_fits(vo, ts, i32::MAX, 0));
}
