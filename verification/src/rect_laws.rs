//! Laws of rectangles and regions, pixel by pixel.

use crate::geometry::{DeviceIntRect, DeviceIntSize};
use crate::region::{bounding, collapsed, region_has};
use crate::surface::{dense, size_in_range, size_of_extent};
use crate::tiles::{can_move, moved, TileIndex};
use vstd::prelude::*;

verus! {

/// A rectangle holds the pixels from its least corner up to its greatest, without the latter.
pub proof fn law_rect_holds_its_pixels(r: DeviceIntRect, x: int, y: int)
    ensures
        r.has(x, y) <==> r.min.x <= x && x < r.max.x && r.min.y <= y && y < r.max.y,
        r.empty() <==> r.max.x <= r.min.x || r.max.y <= r.min.y,
        r.has(x, y) ==> !r.empty(),
{
}

/// What two rectangles share is what is in both; what they span is the least that holds both, and one that
/// holds nothing adds nothing.
pub proof fn law_joined_rects_reach_no_farther(
    a: DeviceIntRect,
    b: DeviceIntRect,
    around: DeviceIntRect,
    x: int,
    y: int,
)
    requires
        !a.empty() ==> around.min.x <= a.min.x && around.min.y <= a.min.y && a.max.x <= around.max.x
            && a.max.y <= around.max.y,
        !b.empty() ==> around.min.x <= b.min.x && around.min.y <= b.min.y && b.max.x <= around.max.x
            && b.max.y <= around.max.y,
    ensures
        a.join(b).has(x, y) ==> around.has(x, y),
        a.has(x, y) || b.has(x, y) ==> a.join(b).has(x, y),
        a.meet(b).has(x, y) <==> a.has(x, y) && b.has(x, y),
{
}

/// The bounds of some rectangles reach no farther than they do.
pub proof fn law_bounds_reach_no_farther(rects: Seq<DeviceIntRect>, around: DeviceIntRect, x: int, y: int)
    requires
        rects.len() > 0,
        forall|i: int|
            0 <= i < rects.len() ==> around.min.x <= (#[trigger] rects[i]).min.x && around.min.y
                <= rects[i].min.y && rects[i].max.x <= around.max.x && rects[i].max.y
                <= around.max.y,
    ensures
        bounding(rects).has(x, y) ==> around.has(x, y),
        around.min.x <= bounding(rects).min.x && around.min.y <= bounding(rects).min.y,
        bounding(rects).max.x <= around.max.x && bounding(rects).max.y <= around.max.y,
    decreases rects.len(),
{
    if rects.len() > 1 {
        let front = rects.drop_last();
        assert forall|i: int| 0 <= i < front.len() implies around.min.x <= (#[trigger] front[i]).min.x
            && around.min.y <= front[i].min.y && front[i].max.x <= around.max.x && front[i].max.y
            <= around.max.y by {
            assert(rects[i] == front[i]);
        }
        law_bounds_reach_no_farther(front, around, x, y);
        assert(rects.last() == rects[rects.len() - 1]);
    }
}

/// A region with no more rectangles than the limit stays as it is; one with more becomes its bounds.
pub proof fn law_small_region_stays(rects: Seq<DeviceIntRect>, limit: int, x: int, y: int)
    ensures
        rects.len() <= limit ==> collapsed(rects, limit) == rects,
        rects.len() > limit && rects.len() > 0 ==> collapsed(rects, limit).len() == 1 && (region_has(
            collapsed(rects, limit),
            x,
            y,
        ) <==> bounding(rects).has(x, y)),
        crate::stale::MAX_STALE_RECTS == 32,
{
    if rects.len() > limit && rects.len() > 0 {
        let c = collapsed(rects, limit);
        assert(c[0] == bounding(rects));
        assert(region_has(c, x, y) <==> c[0].has(x, y));
    }
}

/// A region holds the pixels of each of its rectangles.
pub proof fn law_region_grows_by_its_rects(
    rects: Seq<DeviceIntRect>,
    r: DeviceIntRect,
    x: int,
    y: int,
)
    ensures
        region_has(rects.push(r), x, y) <==> region_has(rects, x, y) || (r.min.x <= x && x < r.max.x
            && r.min.y <= y && y < r.max.y),
        !region_has(Seq::empty(), x, y),
{
    let all = rects.push(r);
    if region_has(rects, x, y) {
        let i = choose|i: int| 0 <= i < rects.len() && (#[trigger] rects[i]).has(x, y);
        assert(all[i].has(x, y));
    }
    if r.has(x, y) {
        assert(all[rects.len() as int].has(x, y));
    }
    if region_has(all, x, y) {
        let i = choose|i: int| 0 <= i < all.len() && (#[trigger] all[i]).has(x, y);
        if i < rects.len() {
            assert(rects[i].has(x, y));
        }
    }
}

/// A moved rectangle holds the pixels of the other, each moved as far.
pub proof fn law_moved_rect_holds_moved_pixels(r: DeviceIntRect, dx: int, dy: int, x: int, y: int)
    requires
        can_move(r, dx, dy),
    ensures
        moved(r, dx, dy).has(x + dx, y + dy) <==> r.has(x, y),
{
}

/// Tiles that are as many as an extent has places leave no hole in it; any other number does not fill it
/// once each.
pub proof fn law_dense_tiles_are_as_many_as_places(
    tiles: Seq<TileIndex>,
    size: DeviceIntSize,
    extent: DeviceIntRect,
    cols: int,
    rows: int,
)
    requires
        size.width > 0,
        size.height > 0,
        size_in_range(extent),
        extent.max.x - extent.min.x == cols * size.width,
        extent.max.y - extent.min.y == rows * size.height,
    ensures
        dense(tiles, size, extent) <==> tiles.len() == cols * rows,
{
    let n = tiles.len() as int;
    let (w, h) = (size.width as int, size.height as int);
    let e = size_of_extent(extent);
    assert(e.width == cols * w && e.height == rows * h);
    assert((cols * w) * (rows * h) == (cols * rows) * (w * h)) by (nonlinear_arith);
    assert(w * h > 0) by (nonlinear_arith)
        requires
            w > 0,
            h > 0,
    ;
    if n * (w * h) == (cols * rows) * (w * h) {
        assert(n == cols * rows) by (nonlinear_arith)
            requires
                n * (w * h) == (cols * rows) * (w * h),
                w * h > 0,
        ;
    }
    if n == cols * rows {
        assert(n * (w * h) == (cols * rows) * (w * h));
    }
    assert(e.width * e.height == (cols * w) * (rows * h)) by (nonlinear_arith)
        requires
            e.width == cols * w,
            e.height == rows * h,
    ;
}

} // verus!
