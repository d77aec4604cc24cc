//! Tile grids: where a tile lies in its surface's virtual space, which tiles a surface has, which
//! of them a frame has fully drawn, and the extent that they span together.
use vstd::prelude::*;

use crate::geometry::{DeviceIntPoint, DeviceIntRect, DeviceIntSize};
use crate::region::{bounding, bounding_union};

verus! {

/// A tile of a surface, by its column and row.
pub type TileIndex = (i32, i32);

/// The tile's rectangle can be computed without leaving the range of a coordinate.
pub open spec fn tile_in_range(offset: DeviceIntPoint, size: DeviceIntSize, tile: TileIndex) -> bool {
    &&& i32::MIN <= tile.0 * size.width <= i32::MAX
    &&& i32::MIN <= tile.1 * size.height <= i32::MAX
    &&& i32::MIN <= offset.x + tile.0 * size.width <= i32::MAX
    &&& i32::MIN <= offset.y + tile.1 * size.height <= i32::MAX
    &&& i32::MIN <= offset.x + tile.0 * size.width + size.width <= i32::MAX
    &&& i32::MIN <= offset.y + tile.1 * size.height + size.height <= i32::MAX
}

/// The pixels of a tile in the virtual space of its surface.
pub open spec fn tile_rect(
    offset: DeviceIntPoint,
    size: DeviceIntSize,
    tile: TileIndex,
) -> DeviceIntRect {
    DeviceIntRect {
        min: DeviceIntPoint {
            x: (offset.x + tile.0 * size.width) as i32,
            y: (offset.y + tile.1 * size.height) as i32,
        },
        max: DeviceIntPoint {
            x: (offset.x + tile.0 * size.width + size.width) as i32,
            y: (offset.y + tile.1 * size.height + size.height) as i32,
        },
    }
}

proof fn lemma_i32_product(a: i32, b: i32)
    ensures
        -0x4000_0000_0000_0000 <= a * b <= 0x4000_0000_0000_0000,
{
    assert(-0x4000_0000_0000_0000 <= a * b <= 0x4000_0000_0000_0000) by (nonlinear_arith)
        requires
            -0x8000_0000 <= a <= 0x7fff_ffff,
            -0x8000_0000 <= b <= 0x7fff_ffff,
    ;
}

/// Whether the rectangle of the tile stays within the range of a coordinate.
pub fn tile_fits(
    virtual_offset: DeviceIntPoint,
    tile_size: DeviceIntSize,
    tile_x: i32,
    tile_y: i32,
) -> (b: bool)
    ensures
        b == tile_in_range(virtual_offset, tile_size, (tile_x, tile_y)),
{
    proof {
        lemma_i32_product(tile_x, tile_size.width);
        lemma_i32_product(tile_y, tile_size.height);
    }
    let lo: i64 = i32::MIN as i64;
    let hi: i64 = i32::MAX as i64;
    let dx: i64 = tile_x as i64 * tile_size.width as i64;
    let dy: i64 = tile_y as i64 * tile_size.height as i64;
    let x: i64 = virtual_offset.x as i64 + dx;
    let y: i64 = virtual_offset.y as i64 + dy;
    let x1: i64 = x + tile_size.width as i64;
    let y1: i64 = y + tile_size.height as i64;
    lo <= dx && dx <= hi && lo <= dy && dy <= hi && lo <= x && x <= hi && lo <= y && y <= hi && lo
        <= x1 && x1 <= hi && lo <= y1 && y1 <= hi
}

/// The rectangle of the tile at column `tile_x` and row `tile_y`, where `virtual_offset` is the
/// surface's origin in the virtual space.
pub fn tile_virtual_rect(
    virtual_offset: DeviceIntPoint,
    tile_size: DeviceIntSize,
    tile_x: i32,
    tile_y: i32,
) -> (r: DeviceIntRect)
    requires
        tile_in_range(virtual_offset, tile_size, (tile_x, tile_y)),
    ensures
        r == tile_rect(virtual_offset, tile_size, (tile_x, tile_y)),
        r.min.x == virtual_offset.x + tile_x * tile_size.width,
        r.min.y == virtual_offset.y + tile_y * tile_size.height,
        r.max.x == r.min.x + tile_size.width,
        r.max.y == r.min.y + tile_size.height,
{
    let origin = DeviceIntPoint::new(
        virtual_offset.x + tile_x * tile_size.width,
        virtual_offset.y + tile_y * tile_size.height,
    );
    DeviceIntRect::from_origin_and_size(origin, tile_size)
}

/// The rectangle moved by `(dx, dy)`.
pub open spec fn moved(r: DeviceIntRect, dx: int, dy: int) -> DeviceIntRect {
    DeviceIntRect {
        min: DeviceIntPoint { x: (r.min.x + dx) as i32, y: (r.min.y + dy) as i32 },
        max: DeviceIntPoint { x: (r.max.x + dx) as i32, y: (r.max.y + dy) as i32 },
    }
}

/// Moving the rectangle by `(dx, dy)` leaves it within the range of a coordinate.
pub open spec fn can_move(r: DeviceIntRect, dx: int, dy: int) -> bool {
    &&& i32::MIN <= r.min.x + dx <= i32::MAX
    &&& i32::MIN <= r.min.y + dy <= i32::MAX
    &&& i32::MIN <= r.max.x + dx <= i32::MAX
    &&& i32::MIN <= r.max.y + dy <= i32::MAX
}

/// Whether `r` can be moved by `(dx, dy)`.
pub fn rect_can_move(r: DeviceIntRect, dx: i64, dy: i64) -> (b: bool)
    requires
        -0x1_0000_0000_0000 <= dx <= 0x1_0000_0000_0000,
        -0x1_0000_0000_0000 <= dy <= 0x1_0000_0000_0000,
    ensures
        b == can_move(r, dx as int, dy as int),
{
    let lo: i64 = i32::MIN as i64;
    let hi: i64 = i32::MAX as i64;
    let x0: i64 = r.min.x as i64 + dx;
    let y0: i64 = r.min.y as i64 + dy;
    let x1: i64 = r.max.x as i64 + dx;
    let y1: i64 = r.max.y as i64 + dy;
    lo <= x0 && x0 <= hi && lo <= y0 && y0 <= hi && lo <= x1 && x1 <= hi && lo <= y1 && y1 <= hi
}

/// The rectangle moved by `(dx, dy)`.
pub fn move_rect(r: DeviceIntRect, dx: i32, dy: i32) -> (out: DeviceIntRect)
    requires
        can_move(r, dx as int, dy as int),
    ensures
        out == moved(r, dx as int, dy as int),
        out.min.x == r.min.x + dx,
        out.min.y == r.min.y + dy,
        out.max.x == r.max.x + dx,
        out.max.y == r.max.y + dy,
{
    DeviceIntRect::new(
        DeviceIntPoint::new(r.min.x + dx, r.min.y + dy),
        DeviceIntPoint::new(r.max.x + dx, r.max.y + dy),
    )
}

/// The part of `whole` inside `part`, or all of `whole` where they do not meet.
pub open spec fn meet_or_whole(whole: DeviceIntRect, part: DeviceIntRect) -> DeviceIntRect {
    if whole.meet(part).empty() {
        whole
    } else {
        whole.meet(part)
    }
}

/// The clip of the surface can be carried over to the virtual space.
pub open spec fn clip_in_range(
    clip_device: Option<DeviceIntRect>,
    transform_offset: (i32, i32),
    virtual_offset: DeviceIntPoint,
) -> bool {
    let dx = virtual_offset.x - transform_offset.0;
    let dy = virtual_offset.y - transform_offset.1;
    clip_device matches Some(clip) ==> i32::MIN <= dx <= i32::MAX && i32::MIN <= dy <= i32::MAX
        && can_move(clip, dx, dy)
}

/// The visible part of a tile: the tile without what the surface's clip cuts away.
pub open spec fn visible_part(
    tile: DeviceIntRect,
    clip_device: Option<DeviceIntRect>,
    transform_offset: (i32, i32),
    virtual_offset: DeviceIntPoint,
) -> DeviceIntRect {
    match clip_device {
        None => tile,
        Some(clip) => meet_or_whole(
            tile,
            moved(
                clip,
                virtual_offset.x - transform_offset.0,
                virtual_offset.y - transform_offset.1,
            ),
        ),
    }
}

/// The visible part of a tile in the virtual space. `clip_device` is in device coordinates and
/// `transform_offset` is the surface's device offset, rounded to whole pixels. Without a clip,
/// or where the clip misses the tile, the whole tile counts as visible: drawing too much is
/// safe.
pub fn tile_visible_virtual_rect(
    tile_rect: DeviceIntRect,
    clip_device: Option<DeviceIntRect>,
    transform_offset: (i32, i32),
    virtual_offset: DeviceIntPoint,
) -> (r: DeviceIntRect)
    requires
        clip_in_range(clip_device, transform_offset, virtual_offset),
    ensures
        r == visible_part(tile_rect, clip_device, transform_offset, virtual_offset),
{
    let clip = match clip_device {
        Some(clip) => clip,
        None => return tile_rect,
    };
    let dx: i32 = virtual_offset.x - transform_offset.0;
    let dy: i32 = virtual_offset.y - transform_offset.1;
    let clip_v = move_rect(clip, dx, dy);
    match tile_rect.intersection(&clip_v) {
        Some(r) => r,
        None => tile_rect,
    }
}

/// The clip of an opaque surface narrowed to what it has drawn; see `refine_opaque_clip`.
pub open spec fn refined_clip(
    clip_rect: DeviceIntRect,
    is_opaque: bool,
    content_valid_union: Option<DeviceIntRect>,
) -> DeviceIntRect {
    match content_valid_union {
        Some(u) if is_opaque => meet_or_whole(clip_rect, u),
        _ => clip_rect,
    }
}

/// Narrows the clip of an opaque surface to the region that the surface has drawn, so that
/// memory it never painted is not composited. A surface that is not opaque, one whose drawn
/// region is not known yet, and one whose drawn region misses the clip keep the clip as it is.
pub fn refine_opaque_clip(
    clip_rect: DeviceIntRect,
    is_opaque: bool,
    content_valid_union: Option<DeviceIntRect>,
) -> (r: DeviceIntRect)
    ensures
        r == refined_clip(clip_rect, is_opaque, content_valid_union),
{
    if !is_opaque {
        return clip_rect;
    }
    match content_valid_union {
        Some(u) => match clip_rect.intersection(&u) {
            Some(r) => r,
            None => clip_rect,
        },
        None => clip_rect,
    }
}

/// A refined clip never reaches outside the clip that it was made from, and is solid where that
/// clip is.
pub proof fn law_refined_clip_stays_inside(
    clip_rect: DeviceIntRect,
    is_opaque: bool,
    content_valid_union: Option<DeviceIntRect>,
)
    ensures
        clip_rect.covers(refined_clip(clip_rect, is_opaque, content_valid_union)),
        !clip_rect.empty() ==> !refined_clip(clip_rect, is_opaque, content_valid_union).empty(),
{
}

/// A set of tiles.
#[derive(Debug)]
pub struct TileSet {
    pub tiles: Vec<TileIndex>,
}

impl View for TileSet {
    type V = Set<TileIndex>;

    open spec fn view(&self) -> Set<TileIndex> {
        self.tiles@.to_set()
    }
}

impl Default for TileSet {
    fn default() -> (s: TileSet)
        ensures
            s.wf(),
            s.tiles@ == Seq::<TileIndex>::empty(),
            s@ == Set::<TileIndex>::empty(),
    {
        TileSet::new()
    }
}

impl TileSet {
    /// No tile is held twice.
    pub open spec fn wf(self) -> bool {
        self.tiles@.no_duplicates()
    }

    pub fn new() -> (s: TileSet)
        ensures
            s.wf(),
            s.tiles@ == Seq::<TileIndex>::empty(),
            s@ == Set::<TileIndex>::empty(),
    {
        let s = TileSet { tiles: Vec::new() };
        assert(s@ =~= Set::<TileIndex>::empty());
        s
    }

    pub fn len(&self) -> (n: usize)
        ensures
            n == self.tiles@.len(),
            self.wf() ==> n == self@.len(),
    {
        proof {
            if self.wf() {
                self.tiles@.unique_seq_to_set();
            }
        }
        self.tiles.len()
    }

    pub fn is_empty(&self) -> (b: bool)
        ensures
            b == (self.tiles@.len() == 0),
            b == (self@ == Set::<TileIndex>::empty()),
    {
        proof {
            if self.tiles@.len() > 0 {
                assert(self@.contains(self.tiles@[0]));
            } else {
                assert(self@ =~= Set::<TileIndex>::empty());
            }
        }
        self.tiles.len() == 0
    }

    /// The position of the tile in the list.
    fn position(&self, tile: TileIndex) -> (p: Option<usize>)
        ensures
            match p {
                Some(i) => i < self.tiles@.len() && self.tiles@[i as int] == tile,
                None => !self@.contains(tile),
            },
    {
        let mut i: usize = 0;
        while i < self.tiles.len()
            invariant
                i <= self.tiles@.len(),
                forall|k: int| 0 <= k < i ==> self.tiles@[k] != tile,
            decreases self.tiles@.len() - i,
        {
            if self.tiles[i].0 == tile.0 && self.tiles[i].1 == tile.1 {
                return Some(i);
            }
            i = i + 1;
        }
        None
    }

    pub fn contains(&self, tile: TileIndex) -> (b: bool)
        ensures
            b == self@.contains(tile),
    {
        match self.position(tile) {
            Some(i) => {
                assert(self.tiles@.contains(self.tiles@[i as int]));
                true
            },
            None => false,
        }
    }

    pub fn insert(&mut self, tile: TileIndex)
        requires
            old(self).wf(),
        ensures
            final(self).wf(),
            final(self)@ == old(self)@.insert(tile),
            final(self).tiles@ == (if old(self)@.contains(tile) {
                old(self).tiles@
            } else {
                old(self).tiles@.push(tile)
            }),
    {
        if self.contains(tile) {
            assert(self@ =~= self@.insert(tile));
            return;
        }
        let ghost before = self.tiles@;
        self.tiles.push(tile);
        proof {
            let after = self.tiles@;
            assert(after =~= before.push(tile));
            assert forall|t: TileIndex| #[trigger] after.contains(t) <==> before.contains(t) || t
                == tile by {
                if before.contains(t) {
                    let k = choose|k: int| 0 <= k < before.len() && before[k] == t;
                    assert(after[k] == t);
                }
                if t == tile {
                    assert(after[before.len() as int] == t);
                }
            }
            assert(after.to_set() =~= before.to_set().insert(tile));
        }
    }

    pub fn remove(&mut self, tile: TileIndex)
        requires
            old(self).wf(),
        ensures
            final(self).wf(),
            final(self)@ == old(self)@.remove(tile),
            !old(self)@.contains(tile) ==> final(self).tiles@ == old(self).tiles@,
            forall|i: int|
                0 <= i < old(self).tiles@.len() && old(self).tiles@[i] == tile
                    ==> final(self).tiles@ == #[trigger] old(self).tiles@.remove(i),
    {
        let ghost before = self.tiles@;
        match self.position(tile) {
            Some(i) => {
                let _ = self.tiles.remove(i);
                proof {
                    let after = self.tiles@;
                    assert(after =~= before.remove(i as int));
                    assert forall|t: TileIndex| #[trigger] after.contains(t) <==> before.contains(t)
                        && t != tile by {
                        if after.contains(t) {
                            let k = choose|k: int| 0 <= k < after.len() && after[k] == t;
                            if k < i {
                                assert(before[k] == t);
                            } else {
                                assert(before[k + 1] == t);
                            }
                        }
                        if before.contains(t) && t != tile {
                            let k = choose|k: int| 0 <= k < before.len() && before[k] == t;
                            if k < i {
                                assert(after[k] == t);
                            } else {
                                assert(after[k - 1] == t);
                            }
                        }
                    }
                    assert(after.to_set() =~= before.to_set().remove(tile));
                }
            },
            None => {
                assert(self@ =~= self@.remove(tile));
                assert forall|i: int| 0 <= i < before.len() implies before[i] != tile by {
                    assert(before.contains(before[i]));
                }
            },
        }
    }

    pub fn clear(&mut self)
        ensures
            final(self).wf(),
            final(self).tiles@ == Seq::<TileIndex>::empty(),
            final(self)@ == Set::<TileIndex>::empty(),
    {
        self.tiles.clear();
        assert(self@ =~= Set::<TileIndex>::empty());
    }
}

/// The tiles whose content the back buffer holds completely, gathered until it is presented. A
/// tile counts only where the dirty region of one bind covers all of its valid region: a tile
/// that was drawn in part counts as not covered.
#[derive(Debug)]
pub struct FrameCoverage {
    pub covered_tiles: TileSet,
}

impl View for FrameCoverage {
    type V = Set<TileIndex>;

    open spec fn view(&self) -> Set<TileIndex> {
        self.covered_tiles@
    }
}

impl Default for FrameCoverage {
    fn default() -> (c: FrameCoverage)
        ensures
            c.wf(),
            c@ == Set::<TileIndex>::empty(),
            c.covered_tiles.tiles@.len() == 0,
    {
        FrameCoverage { covered_tiles: TileSet::new() }
    }
}

impl FrameCoverage {
    pub open spec fn wf(self) -> bool {
        self.covered_tiles.wf()
    }

    pub fn reset(&mut self)
        ensures
            final(self).wf(),
            final(self)@ == Set::<TileIndex>::empty(),
            final(self).covered_tiles.tiles@.len() == 0,
    {
        self.covered_tiles.clear();
    }

    /// Records one bind of `tile`.
    pub fn note_tile(&mut self, tile: TileIndex, dirty: DeviceIntRect, valid: DeviceIntRect)
        requires
            old(self).wf(),
        ensures
            final(self).wf(),
            final(self)@ == (if dirty.covers(valid) {
                old(self)@.insert(tile)
            } else {
                old(self)@
            }),
    {
        if dirty.contains_box(&valid) {
            self.covered_tiles.insert(tile);
        }
    }

    /// Whether there is a tile and every tile is covered.
    pub fn is_full(&self, tiles: &TileSet) -> (b: bool)
        ensures
            b == covers_all(self@, tiles@),
    {
        if tiles.is_empty() {
            return false;
        }
        let mut i: usize = 0;
        while i < tiles.tiles.len()
            invariant
                i <= tiles.tiles@.len(),
                forall|k: int| 0 <= k < i ==> self@.contains(#[trigger] tiles.tiles@[k]),
                tiles@ != Set::<TileIndex>::empty(),
            decreases tiles.tiles@.len() - i,
        {
            if !self.covered_tiles.contains(tiles.tiles[i]) {
                proof {
                    assert(tiles@.contains(tiles.tiles@[i as int]));
                }
                return false;
            }
            i = i + 1;
        }
        proof {
            assert forall|t: TileIndex| tiles@.contains(t) implies self@.contains(t) by {
                let k = choose|k: int| 0 <= k < tiles.tiles@.len() && tiles.tiles@[k] == t;
                assert(self@.contains(tiles.tiles@[k]));
            }
        }
        true
    }
}

/// The coverage is complete: there are tiles, and all of them are covered.
pub open spec fn covers_all(covered: Set<TileIndex>, tiles: Set<TileIndex>) -> bool {
    tiles != Set::<TileIndex>::empty() && forall|t: TileIndex|
        tiles.contains(t) ==> #[trigger] covered.contains(t)
}

/// The rectangles of the tiles of a list.
pub open spec fn tile_rects(
    tiles: Seq<TileIndex>,
    offset: DeviceIntPoint,
    size: DeviceIntSize,
) -> Seq<DeviceIntRect> {
    tiles.map_values(|t: TileIndex| tile_rect(offset, size, t))
}

/// Every tile of the list has a rectangle within the range of a coordinate.
pub open spec fn tiles_in_range(
    tiles: Seq<TileIndex>,
    offset: DeviceIntPoint,
    size: DeviceIntSize,
) -> bool {
    forall|i: int| 0 <= i < tiles.len() ==> tile_in_range(offset, size, #[trigger] tiles[i])
}

/// The bounding rectangle of the tiles, `None` where there is no tile.
pub open spec fn extent_of(
    tiles: Seq<TileIndex>,
    offset: DeviceIntPoint,
    size: DeviceIntSize,
) -> Option<DeviceIntRect> {
    if tiles.len() == 0 {
        None
    } else {
        Some(bounding(tile_rects(tiles, offset, size)))
    }
}

/// The extent that the tiles span in the virtual space.
pub fn surface_extent(
    tiles: &TileSet,
    virtual_offset: DeviceIntPoint,
    tile_size: DeviceIntSize,
) -> (r: Option<DeviceIntRect>)
    requires
        tiles_in_range(tiles.tiles@, virtual_offset, tile_size),
    ensures
        r == extent_of(tiles.tiles@, virtual_offset, tile_size),
{
    let mut rects: Vec<DeviceIntRect> = Vec::new();
    let mut i: usize = 0;
    while i < tiles.tiles.len()
        invariant
            i <= tiles.tiles@.len(),
            tiles_in_range(tiles.tiles@, virtual_offset, tile_size),
            rects@.len() == i,
            forall|k: int|
                0 <= k < i ==> rects@[k] == tile_rect(virtual_offset, tile_size, tiles.tiles@[k]),
        decreases tiles.tiles@.len() - i,
    {
        let t = tiles.tiles[i];
        rects.push(tile_virtual_rect(virtual_offset, tile_size, t.0, t.1));
        i = i + 1;
    }
    assert(rects@ =~= tile_rects(tiles.tiles@, virtual_offset, tile_size));
    bounding_union(rects.as_slice())
}

/// Whether as many tiles as `tile_count` fill the extent exactly. A tile set with holes would
/// leave pixels of the extent undefined.
pub fn tiles_are_dense(
    tile_count: usize,
    tile_size: DeviceIntSize,
    extent_size: DeviceIntSize,
) -> (b: bool)
    ensures
        b == (tile_count * (tile_size.width * tile_size.height) == extent_size.width
            * extent_size.height),
{
    proof {
        lemma_i32_product(tile_size.width, tile_size.height);
        lemma_i32_product(extent_size.width, extent_size.height);
        let a: int = tile_size.width * tile_size.height;
        assert(-0x4000_0000_0000_0000_0000_0000_0000_0000 <= tile_count * a
            <= 0x4000_0000_0000_0000_0000_0000_0000_0000) by (nonlinear_arith)
            requires
                0 <= tile_count <= 0xffff_ffff_ffff_ffff,
                -0x4000_0000_0000_0000 <= a <= 0x4000_0000_0000_0000,
        ;
    }
    let tile_area: i128 = tile_size.width as i128 * tile_size.height as i128;
    tile_count as i128 * tile_area == extent_size.width as i128 * extent_size.height as i128
}

/// The extent holds every pixel of every tile.
pub proof fn law_extent_holds_every_tile(
    tiles: Seq<TileIndex>,
    offset: DeviceIntPoint,
    size: DeviceIntSize,
    i: int,
    x: int,
    y: int,
)
    requires
        0 <= i < tiles.len(),
        tile_rect(offset, size, tiles[i]).has(x, y),
    ensures
        extent_of(tiles, offset, size) matches Some(extent) && extent.has(x, y),
{
    let rects = tile_rects(tiles, offset, size);
    assert(rects[i].has(x, y));
    crate::region::law_bounding_covers(rects, x, y);
}

} // verus!
