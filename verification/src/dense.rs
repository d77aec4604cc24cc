//! Why the tile count decides whether the tiles fill their extent.
use vstd::prelude::*;

use crate::geometry::{DeviceIntPoint, DeviceIntRect, DeviceIntSize};
use crate::region::{all_solid, bounding};
use crate::surface::{dense, size_in_range};
use crate::tiles::{extent_of, tile_rect, tile_rects, tiles_in_range, TileIndex};

verus! {

/// The edges of a bounding rectangle are edges of members, and no member reaches beyond them.
proof fn lemma_bounding_edges(rects: Seq<DeviceIntRect>)
    requires
        rects.len() > 0,
        all_solid(rects),
    ensures
        !bounding(rects).empty(),
        forall|i: int|
            0 <= i < rects.len() ==> bounding(rects).min.x <= (#[trigger] rects[i]).min.x
                && bounding(rects).min.y <= rects[i].min.y && rects[i].max.x <= bounding(
                rects,
            ).max.x && rects[i].max.y <= bounding(rects).max.y,
        exists|i: int| 0 <= i < rects.len() && (#[trigger] rects[i]).min.x == bounding(rects).min.x,
        exists|i: int| 0 <= i < rects.len() && (#[trigger] rects[i]).min.y == bounding(rects).min.y,
        exists|i: int| 0 <= i < rects.len() && (#[trigger] rects[i]).max.x == bounding(rects).max.x,
        exists|i: int| 0 <= i < rects.len() && (#[trigger] rects[i]).max.y == bounding(rects).max.y,
    decreases rects.len(),
{
    let last = rects[rects.len() - 1];
    assert(!last.empty());
    if rects.len() > 1 {
        let front = rects.drop_last();
        assert forall|i: int| 0 <= i < front.len() implies !(#[trigger] front[i]).empty() by {
            assert(!rects[i].empty());
        }
        lemma_bounding_edges(front);
        let b = bounding(front);
        let i0 = choose|i: int| 0 <= i < front.len() && (#[trigger] front[i]).min.x == b.min.x;
        let i1 = choose|i: int| 0 <= i < front.len() && (#[trigger] front[i]).min.y == b.min.y;
        let i2 = choose|i: int| 0 <= i < front.len() && (#[trigger] front[i]).max.x == b.max.x;
        let i3 = choose|i: int| 0 <= i < front.len() && (#[trigger] front[i]).max.y == b.max.y;
        assert(rects[i0] == front[i0] && rects[i1] == front[i1] && rects[i2] == front[i2]
            && rects[i3] == front[i3]);
        assert forall|i: int| 0 <= i < rects.len() implies bounding(rects).min.x <= (
        #[trigger] rects[i]).min.x && bounding(rects).min.y <= rects[i].min.y && rects[i].max.x
            <= bounding(rects).max.x && rects[i].max.y <= bounding(rects).max.y by {
            if i < front.len() {
                assert(front[i] == rects[i]);
            }
        }
    }
}

/// Numbers below `n`, none of them twice, leave no room for one more where there are `n`.
proof fn lemma_pigeonhole(s: Seq<int>, n: int, extra: int)
    requires
        s.no_duplicates(),
        s.len() == n,
        forall|i: int| 0 <= i < s.len() ==> 0 <= #[trigger] s[i] < n,
        0 <= extra < n,
    ensures
        s.contains(extra),
{
    if !s.contains(extra) {
        let t = s.push(extra);
        assert(t.no_duplicates()) by {
            assert forall|i: int, j: int| 0 <= i < t.len() && 0 <= j < t.len() && i != j implies t[i]
                != t[j] by {
                if i == s.len() {
                    assert(s.contains(s[j]));
                } else if j == s.len() {
                    assert(s.contains(s[i]));
                }
            }
        }
        t.unique_seq_to_set();
        vstd::set_lib::lemma_int_range(0, n);
        assert forall|v: int| t.to_set().contains(v) implies vstd::set_lib::set_int_range(
            0,
            n,
        ).contains(v) by {
            let k = choose|k: int| 0 <= k < t.len() && t[k] == v;
            if k < s.len() {
                assert(0 <= s[k] < n);
            }
        }
        vstd::set_lib::lemma_len_subset(t.to_set(), vstd::set_lib::set_int_range(0, n));
    }
}

/// The number of a cell in a grid of `rows` rows that starts at `(x0, y0)`, column by column.
spec fn cell_number(tile: TileIndex, x0: int, y0: int, rows: int) -> int {
    (tile.0 - x0) * rows + (tile.1 - y0)
}

proof fn lemma_cell_number(a: TileIndex, x0: int, y0: int, cols: int, rows: int)
    requires
        0 <= a.0 - x0 < cols,
        0 <= a.1 - y0 < rows,
    ensures
        0 <= cell_number(a, x0, y0, rows) < cols * rows,
{
    let u: int = a.0 - x0;
    let v: int = a.1 - y0;
    assert(0 <= u * rows + v < cols * rows) by (nonlinear_arith)
        requires
            0 <= u < cols,
            0 <= v < rows,
    ;
}

proof fn lemma_cell_number_injective(
    a: TileIndex,
    b: TileIndex,
    x0: int,
    y0: int,
    rows: int,
)
    requires
        0 <= a.1 - y0 < rows,
        0 <= b.1 - y0 < rows,
        cell_number(a, x0, y0, rows) == cell_number(b, x0, y0, rows),
    ensures
        a == b,
{
    let u: int = a.0 - x0;
    let v: int = a.1 - y0;
    let p: int = b.0 - x0;
    let q: int = b.1 - y0;
    assert(u == p && v == q) by (nonlinear_arith)
        requires
            0 <= v < rows,
            0 <= q < rows,
            u * rows + v == p * rows + q,
    ;
}

/// Tiles of a solid size that are as many as their extent holds leave no hole in it: every pixel
/// of the extent lies in a tile.
pub proof fn law_dense_tiles_fill_the_extent(
    tiles: Seq<TileIndex>,
    offset: DeviceIntPoint,
    size: DeviceIntSize,
    x: int,
    y: int,
)
    requires
        tiles.len() > 0,
        tiles.no_duplicates(),
        size.width > 0,
        size.height > 0,
        tiles_in_range(tiles, offset, size),
        size_in_range(extent_of(tiles, offset, size)->0),
        dense(tiles, size, extent_of(tiles, offset, size)->0),
        (extent_of(tiles, offset, size)->0).has(x, y),
    ensures
        exists|i: int| 0 <= i < tiles.len() && tile_rect(offset, size, #[trigger] tiles[i]).has(x, y),
{
    let rects = tile_rects(tiles, offset, size);
    let extent = bounding(rects);
    let w = size.width as int;
    let h = size.height as int;
    assert forall|i: int| 0 <= i < rects.len() implies !(#[trigger] rects[i]).empty() && rects[i].min.x
        == offset.x + tiles[i].0 * w && rects[i].min.y == offset.y + tiles[i].1 * h
        && rects[i].max.x == offset.x + tiles[i].0 * w + w && rects[i].max.y == offset.y + tiles[i].1
        * h + h by {
        assert(crate::tiles::tile_in_range(offset, size, tiles[i]));
    }
    lemma_bounding_edges(rects);
    let i0 = choose|i: int| 0 <= i < rects.len() && (#[trigger] rects[i]).min.x == extent.min.x;
    let i1 = choose|i: int| 0 <= i < rects.len() && (#[trigger] rects[i]).min.y == extent.min.y;
    let i2 = choose|i: int| 0 <= i < rects.len() && (#[trigger] rects[i]).max.x == extent.max.x;
    let i3 = choose|i: int| 0 <= i < rects.len() && (#[trigger] rects[i]).max.y == extent.max.y;
    let x0 = tiles[i0].0 as int;
    let y0 = tiles[i1].1 as int;
    let x1 = tiles[i2].0 as int;
    let y1 = tiles[i3].1 as int;
    let cols = x1 - x0 + 1;
    let rows = y1 - y0 + 1;
    assert(extent.max.x - extent.min.x == cols * w) by (nonlinear_arith)
        requires
            extent.min.x == offset.x + x0 * w,
            extent.max.x == offset.x + x1 * w + w,
            cols == x1 - x0 + 1,
    ;
    assert(extent.max.y - extent.min.y == rows * h) by (nonlinear_arith)
        requires
            extent.min.y == offset.y + y0 * h,
            extent.max.y == offset.y + y1 * h + h,
            rows == y1 - y0 + 1,
    ;
    assert(cols > 0 && rows > 0) by (nonlinear_arith)
        requires
            w > 0,
            h > 0,
            cols * w > 0,
            rows * h > 0,
    ;
    let n = tiles.len() as int;
    assert(n == cols * rows) by (nonlinear_arith)
        requires
            w > 0,
            h > 0,
            n * (w * h) == (cols * w) * (rows * h),
    ;
    assert forall|i: int| 0 <= i < tiles.len() implies x0 <= (#[trigger] tiles[i]).0 <= x1 && y0
        <= tiles[i].1 <= y1 by {
        let t = tiles[i];
        let tx = t.0 as int;
        let ty = t.1 as int;
        assert(rects[i].min.x == offset.x + tx * w);
        assert(x0 <= tx <= x1) by (nonlinear_arith)
            requires
                w > 0,
                x0 * w <= tx * w,
                tx * w + w <= x1 * w + w,
        ;
        assert(y0 <= ty <= y1) by (nonlinear_arith)
            requires
                h > 0,
                y0 * h <= ty * h,
                ty * h + h <= y1 * h + h,
        ;
    }
    // The cell of the pixel.
    let cx = (x - offset.x) / w;
    let cy = (y - offset.y) / h;
    assert(cx * w <= x - offset.x < cx * w + w) by (nonlinear_arith)
        requires
            w > 0,
            cx == (x - offset.x) / w,
    ;
    assert(cy * h <= y - offset.y < cy * h + h) by (nonlinear_arith)
        requires
            h > 0,
            cy == (y - offset.y) / h,
    ;
    assert(x0 <= cx <= x1) by (nonlinear_arith)
        requires
            w > 0,
            cx * w <= x - offset.x < cx * w + w,
            x0 * w <= x - offset.x,
            x - offset.x < x1 * w + w,
    ;
    assert(y0 <= cy <= y1) by (nonlinear_arith)
        requires
            h > 0,
            cy * h <= y - offset.y < cy * h + h,
            y0 * h <= y - offset.y,
            y - offset.y < y1 * h + h,
    ;
    let cell: TileIndex = (cx as i32, cy as i32);
    let numbers = tiles.map_values(|t: TileIndex| cell_number(t, x0, y0, rows));
    assert forall|i: int| 0 <= i < numbers.len() implies 0 <= #[trigger] numbers[i] < n by {
        lemma_cell_number(tiles[i], x0, y0, cols, rows);
    }
    assert(numbers.no_duplicates()) by {
        assert forall|i: int, j: int|
            0 <= i < numbers.len() && 0 <= j < numbers.len() && i != j implies numbers[i]
            != numbers[j] by {
            if numbers[i] == numbers[j] {
                assert(x0 <= tiles[i].0 && x0 <= tiles[j].0);
                lemma_cell_number_injective(tiles[i], tiles[j], x0, y0, rows);
            }
        }
    }
    lemma_cell_number(cell, x0, y0, cols, rows);
    lemma_pigeonhole(numbers, n, cell_number(cell, x0, y0, rows));
    let k = choose|k: int|
        0 <= k < numbers.len() && numbers[k] == cell_number(cell, x0, y0, rows);
    assert(x0 <= tiles[k].0);
    lemma_cell_number_injective(tiles[k], cell, x0, y0, rows);
    assert(rects[k].min.x == offset.x + tiles[k].0 * w);
    assert(tile_rect(offset, size, tiles[k]) == rects[k]);
}

} // verus!
