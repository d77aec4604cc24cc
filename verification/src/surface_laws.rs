//! Where the pixels of a surface go: content keeps its place whatever holds it.
//!
//! A pixel of a tile lies at one point of the virtual space. Drawing, promoting, demoting and
//! placing carry it between the virtual space, the buffer of a flip chain and the texture of a
//! virtual surface; the laws here say that it comes back to the same point.
use vstd::prelude::*;

use crate::geometry::{DeviceIntPoint, DeviceIntRect, DeviceIntSize};
use crate::region::{law_clipping_is_exact, law_collapse_only_widens, law_region_difference, region_has};
use crate::stale::MAX_STALE_RECTS;
use crate::surface::{
    cooldown_frames, present_hint, DemotionPlan, EndFrameAction, FrameContext, SeedCopy, StorageMode,
    SwapChainStorage,
};
use crate::surface_entry::{SurfaceEntry, SurfaceStorage, VirtualBind};
use crate::tiles::{
    extent_of, refined_clip, tile_in_range, tile_rect, tiles_in_range, visible_part, TileIndex,
    TileSet,
};

verus! {

/// The point of the virtual space lies in the tile: each tile is as large as the next, and they lie
/// side by side from the surface's offset on.
pub open spec fn in_tile(
    offset: DeviceIntPoint,
    size: DeviceIntSize,
    tile: TileIndex,
    x: int,
    y: int,
) -> bool {
    &&& 0 <= x - offset.x - tile.0 * size.width < size.width
    &&& 0 <= y - offset.y - tile.1 * size.height < size.height
}

/// The buffer of the flip chain lies where the extent does, and is as large.
pub open spec fn spans(s: SwapChainStorage, extent: Option<DeviceIntRect>) -> bool {
    &&& extent matches Some(e)
    &&& e.min == s.anchor
    &&& e.max.x == s.anchor.x + s.size.width
    &&& e.max.y == s.anchor.y + s.size.height
}

/// A copy for a tile that needs one stands in the list of copies, and every copy is one of those.
proof fn lemma_seed_copies(
    s: SwapChainStorage,
    tiles: Seq<TileIndex>,
    offset: DeviceIntPoint,
    size: DeviceIntSize,
)
    ensures
        forall|i: int|
            0 <= i < tiles.len() && s.needs_seed(offset, size, #[trigger] tiles[i])
                ==> s.seed_copies(tiles, offset, size).contains(
                s.seed_copy(offset, size, tiles[i]),
            ),
        forall|c: SeedCopy| #[trigger]
            s.seed_copies(tiles, offset, size).contains(c) ==> exists|i: int|
                0 <= i < tiles.len() && s.needs_seed(offset, size, #[trigger] tiles[i]) && c
                    == s.seed_copy(offset, size, tiles[i]),
    decreases tiles.len(),
{
    if tiles.len() > 0 {
        let front = tiles.drop_last();
        lemma_seed_copies(s, front, offset, size);
        let before = s.seed_copies(front, offset, size);
        let all = s.seed_copies(tiles, offset, size);
        assert forall|i: int|
            0 <= i < tiles.len() && s.needs_seed(
                offset,
                size,
                #[trigger] tiles[i],
            ) implies all.contains(s.seed_copy(offset, size, tiles[i])) by {
            if i < front.len() {
                assert(front[i] == tiles[i]);
                let k = choose|k: int|
                    0 <= k < before.len() && before[k] == s.seed_copy(offset, size, tiles[i]);
                assert(all[k] == before[k]);
            } else {
                assert(all.last() == s.seed_copy(offset, size, tiles[i]));
            }
        }
        assert forall|c: SeedCopy| #[trigger] all.contains(c) implies exists|i: int|
            0 <= i < tiles.len() && s.needs_seed(offset, size, #[trigger] tiles[i]) && c
                == s.seed_copy(offset, size, tiles[i]) by {
            let k = choose|k: int| 0 <= k < all.len() && all[k] == c;
            if k < before.len() {
                assert(before.contains(before[k]));
                let i = choose|i: int|
                    0 <= i < front.len() && s.needs_seed(offset, size, #[trigger] front[i]) && c
                        == s.seed_copy(offset, size, front[i]);
                assert(tiles[i] == front[i]);
            } else {
                assert(tiles[tiles.len() - 1] == tiles.last());
            }
        }
    }
}

/// A demotion copies content in place: each buffer pixel `q` goes to the point `q` plus the anchor
/// of the virtual space, by a copy that is as wide and as high on both sides.
pub proof fn law_demotion_copies_in_place(
    s: SwapChainStorage,
    tiles: Seq<TileIndex>,
    offset: DeviceIntPoint,
    size: DeviceIntSize,
    resize_active: bool,
    has_context: bool,
    plan: DemotionPlan,
    after: SwapChainStorage,
    copy: SeedCopy,
)
    requires
        s.wf(),
        tiles_in_range(tiles, offset, size),
        s.tiles_reachable(tiles, offset, size),
        s.demotion_planned(tiles, offset, size, resize_active, has_context, plan, after),
        match plan {
            DemotionPlan::Keep => false,
            DemotionPlan::SeedFallback { copies, .. } => copies@.contains(copy),
            DemotionPlan::SeedNew { copy: c } => c == copy,
        },
    ensures
        copy.update.min.x - copy.source.min.x == s.anchor.x,
        copy.update.min.y - copy.source.min.y == s.anchor.y,
        copy.update.max.x - copy.source.max.x == s.anchor.x,
        copy.update.max.y - copy.source.max.y == s.anchor.y,
{
    if let DemotionPlan::SeedFallback { copies, .. } = plan {
        lemma_seed_copies(s, tiles, offset, size);
        let i = choose|i: int|
            0 <= i < tiles.len() && s.needs_seed(offset, size, #[trigger] tiles[i]) && copy
                == s.seed_copy(offset, size, tiles[i]);
        assert(crate::tiles::can_move(
            tile_rect(offset, size, tiles[i]),
            -s.anchor.x,
            -s.anchor.y,
        ));
    }
}

/// A new virtual surface takes the whole buffer over. Where the flip chain spans the extent of the
/// tiles, every pixel of every tile is among what is copied, and at its own place.
pub proof fn law_demotion_to_a_new_surface_is_complete(
    s: SwapChainStorage,
    tiles: Seq<TileIndex>,
    offset: DeviceIntPoint,
    size: DeviceIntSize,
    resize_active: bool,
    has_context: bool,
    plan: DemotionPlan,
    after: SwapChainStorage,
    i: int,
    x: int,
    y: int,
)
    requires
        s.wf(),
        tiles_in_range(tiles, offset, size),
        s.demotion_planned(tiles, offset, size, resize_active, has_context, plan, after),
        plan is SeedNew,
    ensures
        ({
            let c = plan->SeedNew_copy;
            &&& forall|qx: int, qy: int|
                0 <= qx < s.size.width && 0 <= qy < s.size.height ==> #[trigger] c.source.has(
                    qx,
                    qy,
                ) && c.update.min.x <= qx + s.anchor.x < c.update.max.x && c.update.min.y <= qy
                    + s.anchor.y < c.update.max.y
            &&& 0 <= i < tiles.len() && in_tile(offset, size, tiles[i], x, y) && spans(
                s,
                extent_of(tiles, offset, size),
            ) ==> c.update.has(x, y)
        }),
{
    if 0 <= i < tiles.len() {
        assert(crate::tiles::tile_in_range(offset, size, tiles[i]));
        if in_tile(offset, size, tiles[i], x, y) {
            crate::tiles::law_extent_holds_every_tile(tiles, offset, size, i, x, y);
        }
    }
}

/// The virtual surface that is still on display is brought up to date: a tile that was drawn in full,
/// or that some pixel drawn since lies in, is copied, all of it; and nothing else is.
pub proof fn law_demotion_to_the_fallback_is_complete(
    s: SwapChainStorage,
    tiles: Seq<TileIndex>,
    offset: DeviceIntPoint,
    size: DeviceIntSize,
    resize_active: bool,
    has_context: bool,
    plan: DemotionPlan,
    after: SwapChainStorage,
)
    requires
        s.wf(),
        tiles_in_range(tiles, offset, size),
        s.demotion_planned(tiles, offset, size, resize_active, has_context, plan, after),
        plan is SeedFallback,
    ensures
        s.fallback_virtual == Some(plan->SeedFallback_fallback),
        forall|i: int, d: int, qx: int, qy: int|
            #![trigger tiles[i], s.frame_dirty@[d].has(qx, qy)]
            0 <= i < tiles.len() && 0 <= d < s.frame_dirty@.len() && s.frame_dirty@[d].has(qx, qy)
                && in_tile(offset, size, tiles[i], qx + s.anchor.x, qy + s.anchor.y) ==> copies_tile(
                plan->SeedFallback_copies@,
                offset,
                size,
                tiles[i],
            ),
        forall|i: int|
            0 <= i < tiles.len() && s.coverage@.contains(#[trigger] tiles[i]) ==> copies_tile(
                plan->SeedFallback_copies@,
                offset,
                size,
                tiles[i],
            ),
        forall|k: int|
            0 <= k < plan->SeedFallback_copies@.len() ==> exists|i: int|
                0 <= i < tiles.len() && is_of_tile(
                    #[trigger] plan->SeedFallback_copies@[k],
                    offset,
                    size,
                    #[trigger] tiles[i],
                ) && (s.coverage@.contains(tiles[i]) || s.frame_dirty@.len() > 0),
{
    lemma_seed_copies(s, tiles, offset, size);
    let copies = plan->SeedFallback_copies@;
    assert forall|i: int, d: int, qx: int, qy: int|
        #![trigger tiles[i], s.frame_dirty@[d].has(qx, qy)]
        0 <= i < tiles.len() && 0 <= d < s.frame_dirty@.len() && s.frame_dirty@[d].has(qx, qy)
            && in_tile(offset, size, tiles[i], qx + s.anchor.x, qy + s.anchor.y) implies copies_tile(
        copies,
        offset,
        size,
        tiles[i],
    ) by {
        let rect = tile_rect(offset, size, tiles[i]);
        let there = crate::tiles::moved(s.frame_dirty@[d], s.anchor.x as int, s.anchor.y as int);
        assert(crate::tiles::tile_in_range(offset, size, tiles[i]));
        assert(crate::tiles::can_move(s.frame_dirty@[d], s.anchor.x as int, s.anchor.y as int));
        assert(rect.has(qx + s.anchor.x, qy + s.anchor.y));
        assert(there.has(qx + s.anchor.x, qy + s.anchor.y));
        crate::geometry::law_corners_decide_pixels(rect, there);
        assert(!rect.meet(there).empty());
        assert(s.needs_seed(offset, size, tiles[i]));
        let k = choose|k: int|
            0 <= k < copies.len() && copies[k] == s.seed_copy(offset, size, tiles[i]);
        assert(is_of_tile(copies[k], offset, size, tiles[i]));
    }
    assert forall|i: int|
        0 <= i < tiles.len() && s.coverage@.contains(#[trigger] tiles[i]) implies copies_tile(
        copies,
        offset,
        size,
        tiles[i],
    ) by {
        assert(crate::tiles::tile_in_range(offset, size, tiles[i]));
        assert(s.needs_seed(offset, size, tiles[i]));
        let k = choose|k: int|
            0 <= k < copies.len() && copies[k] == s.seed_copy(offset, size, tiles[i]);
        assert(is_of_tile(copies[k], offset, size, tiles[i]));
    }
    assert forall|k: int| 0 <= k < copies.len() implies exists|i: int|
        0 <= i < tiles.len() && is_of_tile(
            #[trigger] copies[k],
            offset,
            size,
            #[trigger] tiles[i],
        ) && (s.coverage@.contains(tiles[i]) || s.frame_dirty@.len() > 0) by {
        assert(copies.contains(copies[k]));
        let i = choose|i: int|
            0 <= i < tiles.len() && s.needs_seed(offset, size, #[trigger] tiles[i]) && copies[k]
                == s.seed_copy(offset, size, tiles[i]);
        assert(crate::tiles::tile_in_range(offset, size, tiles[i]));
        assert(is_of_tile(copies[k], offset, size, tiles[i]));
    }
}

/// The copy updates exactly the pixels of the tile.
pub open spec fn is_of_tile(
    copy: SeedCopy,
    offset: DeviceIntPoint,
    size: DeviceIntSize,
    tile: TileIndex,
) -> bool {
    &&& copy.update.min.x == offset.x + tile.0 * size.width
    &&& copy.update.min.y == offset.y + tile.1 * size.height
    &&& copy.update.max.x == offset.x + tile.0 * size.width + size.width
    &&& copy.update.max.y == offset.y + tile.1 * size.height + size.height
}

/// Some copy updates the pixels of the tile.
pub open spec fn copies_tile(
    copies: Seq<SeedCopy>,
    offset: DeviceIntPoint,
    size: DeviceIntSize,
    tile: TileIndex,
) -> bool {
    exists|k: int| 0 <= k < copies.len() && is_of_tile(#[trigger] copies[k], offset, size, tile)
}

/// A flip chain that can be read is demoted whenever the window is being resized, and else wherever
/// something complete is on display: its own content or the fallback. The surface on display
/// stays the one that is filled.
pub proof fn law_demotion_happens_where_it_can(
    s: SwapChainStorage,
    tiles: Seq<TileIndex>,
    offset: DeviceIntPoint,
    size: DeviceIntSize,
    resize_active: bool,
    has_context: bool,
    plan: DemotionPlan,
    after: SwapChainStorage,
)
    requires
        s.demotion_planned(tiles, offset, size, resize_active, has_context, plan, after),
    ensures
        has_context && !s.demote_blocked && (resize_active || s.content_attached
            || s.fallback_virtual is Some) ==> !(plan is Keep),
        !has_context || s.demote_blocked ==> plan is Keep,
        !resize_active && !s.content_attached && s.fallback_virtual is None ==> plan is Keep
            && after.demote_blocked,
        s.content_attached ==> !(plan is SeedFallback),
        !s.content_attached && s.fallback_virtual is Some ==> !(plan is SeedNew),
        after == (SwapChainStorage { demote_blocked: after.demote_blocked, ..s }),
        !(plan is Keep) ==> after == s,
{
}

/// The rectangle of a tile holds exactly the pixels of the tile.
pub proof fn law_tiles_lie_side_by_side(
    offset: DeviceIntPoint,
    size: DeviceIntSize,
    tile: TileIndex,
    x: int,
    y: int,
)
    requires
        tile_in_range(offset, size, tile),
    ensures
        tile_rect(offset, size, tile).has(x, y) <==> in_tile(offset, size, tile, x, y),
{
}

/// The extent reaches no farther than the tiles do: a rectangle that holds all of them holds it.
pub proof fn law_extent_is_the_least(
    tiles: Seq<TileIndex>,
    offset: DeviceIntPoint,
    size: DeviceIntSize,
    around: DeviceIntRect,
)
    requires
        tiles_in_range(tiles, offset, size),
        size.width > 0,
        size.height > 0,
        tiles.len() > 0,
        forall|i: int|
            0 <= i < tiles.len() ==> around.min.x <= offset.x + (#[trigger] tiles[i]).0 * size.width
                && around.min.y <= offset.y + tiles[i].1 * size.height && offset.x + tiles[i].0
                * size.width + size.width <= around.max.x && offset.y + tiles[i].1 * size.height
                + size.height <= around.max.y,
    ensures
        extent_of(tiles, offset, size) matches Some(e) && around.min.x <= e.min.x && around.min.y
            <= e.min.y && e.max.x <= around.max.x && e.max.y <= around.max.y && !e.empty(),
    decreases tiles.len(),
{
    let rects = crate::tiles::tile_rects(tiles, offset, size);
    assert(tile_in_range(offset, size, tiles[tiles.len() - 1]));
    assert(rects[tiles.len() - 1] == tile_rect(offset, size, tiles[tiles.len() - 1]));
    if tiles.len() > 1 {
        let front = tiles.drop_last();
        assert forall|i: int| 0 <= i < front.len() implies around.min.x <= offset.x + (
        #[trigger] front[i]).0 * size.width && around.min.y <= offset.y + front[i].1 * size.height
            && offset.x + front[i].0 * size.width + size.width <= around.max.x && offset.y
            + front[i].1 * size.height + size.height <= around.max.y by {
            assert(tiles[i] == front[i]);
        }
        assert(tiles_in_range(front, offset, size)) by {
            assert forall|i: int| 0 <= i < front.len() implies tile_in_range(
                offset,
                size,
                #[trigger] front[i],
            ) by {
                assert(tile_in_range(offset, size, tiles[i]));
            }
        }
        law_extent_is_the_least(front, offset, size, around);
        assert(crate::tiles::tile_rects(front, offset, size) =~= rects.drop_last());
    }
}

/// A tile of a virtual surface is drawn where it lies: the texture point at a pixel of the tile is the
/// one at the opened part's origin, moved by how far the pixel lies from that origin in the
/// virtual space. The dirty region is found at the same place, in its own size, and exactly the
/// opened part is cleared where the tile is cleared.
pub proof fn law_virtual_tile_is_drawn_in_place(
    e: SurfaceEntry,
    tile: TileIndex,
    dirty: DeviceIntRect,
    valid: DeviceIntRect,
    at: DeviceIntPoint,
    px: int,
    py: int,
)
    requires
        e.storage is Virtual,
        e.bind_fits(tile, dirty, valid),
        e.virtual_bind_fits(tile, dirty, valid, at),
    ensures
        ({
            let update = e.update_rect(tile, dirty, valid);
            let bind = e.virtual_bind(tile, dirty, valid, at);
            let (tx, ty) = (
                e.virtual_offset.x + tile.0 * e.tile_size.width,
                e.virtual_offset.y + tile.1 * e.tile_size.height,
            );
            &&& bind.origin.x + px == at.x + (tx + px - update.min.x)
            &&& bind.origin.y + py == at.y + (ty + py - update.min.y)
            &&& bind.dirty_origin.x - bind.origin.x == dirty.min.x
            &&& bind.dirty_origin.y - bind.origin.y == dirty.min.y
            &&& bind.dirty_size.width == dirty.max.x - dirty.min.x
            &&& bind.dirty_size.height == dirty.max.y - dirty.min.y
            &&& bind.clear is Some <==> !e.is_opaque && dirty == valid
            &&& bind.clear is Some && crate::surface::size_in_range(update) ==> bind.clear->0.origin
                == at && bind.clear->0.size.width == update.max.x - update.min.x
                && bind.clear->0.size.height == update.max.y - update.min.y
        }),
{
}

/// The opened part holds every dirty pixel of the tile, at its place in the virtual space, and no
/// other. Where the tile is cleared it holds every pixel of the tile that the clip leaves
/// visible, all of them without a clip, and none outside the tile.
pub proof fn law_opened_part_is_what_is_drawn(
    e: SurfaceEntry,
    tile: TileIndex,
    dirty: DeviceIntRect,
    valid: DeviceIntRect,
    px: int,
    py: int,
)
    requires
        e.storage is Virtual,
        e.bind_fits(tile, dirty, valid),
        e.tile_size.width > 0,
        e.tile_size.height > 0,
    ensures
        ({
            let update = e.update_rect(tile, dirty, valid);
            let (tx, ty) = (
                e.virtual_offset.x + tile.0 * e.tile_size.width,
                e.virtual_offset.y + tile.1 * e.tile_size.height,
            );
            let whole = 0 <= px < e.tile_size.width && 0 <= py < e.tile_size.height;
            &&& e.is_opaque || dirty != valid ==> (update.has(tx + px, ty + py) <==> dirty.has(
                px,
                py,
            ))
            &&& !e.is_opaque && dirty == valid ==> {
                &&& update.has(tx + px, ty + py) ==> whole
                &&& e.last_placement is None && whole ==> update.has(tx + px, ty + py)
                &&& e.last_placement is Some && whole && e.last_placement->0.clip_rect.has(
                    tile.0 * e.tile_size.width + px + e.last_placement->0.transform_offset.0,
                    tile.1 * e.tile_size.height + py + e.last_placement->0.transform_offset.1,
                ) ==> update.has(tx + px, ty + py)
            }
        }),
{
    let rect = tile_rect(e.virtual_offset, e.tile_size, tile);
    if !e.is_opaque && dirty == valid {
        if let Some(p) = e.last_placement {
            let there = crate::tiles::moved(
                p.clip_rect,
                e.virtual_offset.x - p.transform_offset.0,
                e.virtual_offset.y - p.transform_offset.1,
            );
            crate::geometry::law_corners_decide_pixels(rect, there);
        }
    }
}

/// The bounds of what was drawn hold all that they held, and the valid part of the tile at its place on
/// the device; an empty part adds nothing.
pub proof fn law_drawn_bounds_grow(
    e: SurfaceEntry,
    tile: TileIndex,
    valid: DeviceIntRect,
    px: int,
    py: int,
)
    requires
        !valid.empty() ==> crate::tiles::can_move(
            valid,
            tile.0 * e.tile_size.width,
            tile.1 * e.tile_size.height,
        ),
    ensures
        ({
            let after = e.grown_union(tile, valid);
            &&& valid.has(px, py) ==> after is Some && after->0.has(
                px + tile.0 * e.tile_size.width,
                py + tile.1 * e.tile_size.height,
            )
            &&& e.content_valid_union is Some && e.content_valid_union->0.has(px, py)
                ==> after is Some && after->0.has(px, py)
            &&& valid.empty() ==> after == e.content_valid_union
            &&& !valid.empty() && e.content_valid_union is None ==> after is Some && (after->0.has(
                px + tile.0 * e.tile_size.width,
                py + tile.1 * e.tile_size.height,
            ) <==> valid.has(px, py))
        }),
{
    if let Some(u) = e.content_valid_union {
        let there = crate::tiles::moved(
            valid,
            tile.0 * e.tile_size.width,
            tile.1 * e.tile_size.height,
        );
        crate::geometry::law_corners_decide_pixels(u, there);
    }
}

/// A refined clip keeps every pixel of the clip that was drawn; where anything of an opaque surface was
/// drawn within the clip, it keeps nothing else; and the clip of any other surface stays as it is.
pub proof fn law_refined_clip_keeps_what_was_drawn(
    clip: DeviceIntRect,
    is_opaque: bool,
    drawn: Option<DeviceIntRect>,
    x: int,
    y: int,
    qx: int,
    qy: int,
)
    ensures
        !is_opaque || drawn is None ==> refined_clip(clip, is_opaque, drawn) == clip,
        drawn matches Some(u) ==> {
            &&& clip.has(x, y) && u.has(x, y) ==> refined_clip(clip, is_opaque, drawn).has(x, y)
            &&& is_opaque && clip.has(qx, qy) && u.has(qx, qy) && refined_clip(
                clip,
                is_opaque,
                drawn,
            ).has(x, y) ==> clip.has(x, y) && u.has(x, y)
            &&& is_opaque && (forall|a: int, b: int| clip.has(a, b) ==> !u.has(a, b))
                ==> refined_clip(clip, is_opaque, drawn) == clip
        },
{
    if let Some(u) = drawn {
        crate::geometry::law_corners_decide_pixels(clip, u);
        if !clip.meet(u).empty() {
            let m = clip.meet(u);
            assert(m.has(m.min.x as int, m.min.y as int));
            assert(clip.has(m.min.x as int, m.min.y as int));
        } else {
            assert(!clip.meet(u).has(qx, qy));
        }
    }
}

/// What a flip chain does at the end of a frame. While the window is being resized it is demoted. When
/// its tiles span another extent it is made anew, where that is allowed and they leave no hole,
/// and is never presented. Else a frame in which every tile was drawn in full is presented, and
/// attached where it is not yet; a frame drawn in part is presented in part where that works, and
/// kept back where not; thirty of those in a row ask for a demotion.
pub proof fn law_chain_presents_what_is_complete(
    s: SwapChainStorage,
    tiles: TileSet,
    offset: DeviceIntPoint,
    size: DeviceIntSize,
    ctx: FrameContext,
    action: EndFrameAction,
    after: SwapChainStorage,
)
    requires
        s.planned(tiles, offset, size, ctx, action, after),
        extent_of(tiles.tiles@, offset, size) matches Some(e) ==> crate::surface::size_in_range(e),
    ensures
        ({
            let extent = extent_of(tiles.tiles@, offset, size);
            let same = extent is None || spans(s, extent);
            let full = tiles.tiles@.len() > 0 && forall|i: int|
                0 <= i < tiles.tiles@.len() ==> s.coverage@.contains(#[trigger] tiles.tiles@[i]);
            let steady = !ctx.resize_active && same;
            &&& action is Demote <==> ctx.resize_active
            &&& action is Regenerate ==> !same && !ctx.regen_disabled
            &&& action matches EndFrameAction::Regenerate(x) ==> extent == Some(x)
            &&& !ctx.resize_active && !same && !ctx.regen_disabled && crate::surface::dense(
                tiles.tiles@,
                size,
                extent->0,
            ) ==> action is Regenerate
            &&& action is PresentFull <==> steady && s.drawn_this_frame && full
            &&& action matches EndFrameAction::PresentFull { attach } ==> attach
                == !s.content_attached
            &&& action is PresentPartial <==> steady && s.drawn_this_frame && !full
                && s.content_attached && s.partial_present
            &&& action is Withhold <==> steady && s.drawn_this_frame && !full && !(
            s.content_attached && s.partial_present)
            &&& action matches EndFrameAction::Withhold { demote } ==> after.withheld_frames
                == s.withheld_frames + 1 && (demote <==> s.withheld_frames >= 29)
            &&& !(action is Promote)
            &&& after.swapchain == s.swapchain && after.anchor == s.anchor && after.size == s.size
                && after.content_attached == s.content_attached && after.fallback_virtual
                == s.fallback_virtual && after.stale == s.stale && after.coverage == s.coverage
        }),
{
    let extent = extent_of(tiles.tiles@, offset, size);
    assert(crate::tiles::covers_all(s.coverage@, tiles@) <==> (tiles.tiles@.len() > 0 && forall|
        i: int,
    |
        0 <= i < tiles.tiles@.len() ==> s.coverage@.contains(#[trigger] tiles.tiles@[i]))) by {
        if tiles.tiles@.len() > 0 {
            assert(tiles@.contains(tiles.tiles@[0]));
        } else {
            assert(tiles@ =~= Set::<TileIndex>::empty());
        }
        if crate::tiles::covers_all(s.coverage@, tiles@) {
            assert forall|i: int| 0 <= i < tiles.tiles@.len() implies s.coverage@.contains(
                #[trigger] tiles.tiles@[i],
            ) by {
                assert(tiles@.contains(tiles.tiles@[i]));
            }
        }
    }
}

/// A partial present shows the newest picture: what is copied over from the buffer on display is exactly
/// what the back buffer has missed and this frame did not draw, within the buffer. The hint names
/// what was drawn, or the whole buffer, by naming nothing; it never names more rectangles than are
/// taken.
pub proof fn law_partial_present_catches_up(
    s: SwapChainStorage,
    tiles: TileSet,
    offset: DeviceIntPoint,
    size: DeviceIntSize,
    ctx: FrameContext,
    action: EndFrameAction,
    after: SwapChainStorage,
    x: int,
    y: int,
)
    requires
        s.planned(tiles, offset, size, ctx, action, after),
        action is PresentPartial,
    ensures
        ({
            let inside = 0 <= x < s.size.width && 0 <= y < s.size.height;
            let (copy, catchup, hint) = (
                action->PresentPartial_copy,
                action->PresentPartial_catchup@,
                action->PresentPartial_hint@,
            );
            &&& region_has(catchup, x, y) <==> inside && region_has(s.stale.missed(), x, y)
                && !region_has(s.frame_dirty@, x, y)
            &&& region_has(s.stale.missed(), x, y) && !region_has(s.frame_dirty@, x, y) ==> copy
            &&& hint.len() <= 16
            &&& hint.len() > 0 ==> (region_has(hint, x, y) <==> inside && region_has(
                s.frame_dirty@,
                x,
                y,
            ))
            &&& after.frame_dirty@ == s.frame_dirty@
        }),
{
    let rest = crate::region::without_all(s.stale.missed(), s.frame_dirty@);
    let full = crate::surface::buffer_of(s.size);
    law_region_difference(s.stale.missed(), s.frame_dirty@, x, y);
    law_clipping_is_exact(rest, full, x, y);
    law_clipping_is_exact(s.frame_dirty@, full, x, y);
}

/// After a present the buffer that comes next has missed all that was drawn since it was on display; at the
/// first present of a flip chain, everything, since it was never drawn to. Nothing counts as drawn
/// any more. A present that failed keeps what was drawn.
pub proof fn law_present_records_what_the_other_buffer_missed(
    s: SwapChainStorage,
    presented: bool,
    content_set: bool,
    partial_ok: bool,
    after: SwapChainStorage,
    x: int,
    y: int,
)
    requires
        s.after_full_present(presented, content_set, partial_ok, after),
    ensures
        presented && s.content_attached && region_has(s.frame_dirty@, x, y) ==> region_has(
            after.stale.missed(),
            x,
            y,
        ),
        presented && !s.content_attached && 0 <= x < s.size.width && 0 <= y < s.size.height
            ==> region_has(after.stale.missed(), x, y),
        presented ==> after.frame_dirty@.len() == 0 && after.withheld_frames == 0 && forall|
            t: TileIndex,
        |
            !after.coverage@.contains(t),
        !presented && region_has(s.frame_dirty@, x, y) ==> region_has(after.frame_dirty@, x, y),
        !presented ==> after == (SwapChainStorage { frame_dirty: after.frame_dirty, ..s }),
        after.content_attached <==> s.content_attached || (presented && content_set),
        !s.content_attached && after.content_attached ==> after.displayed_anchor == Some(s.anchor)
            && after.fallback_virtual is None && !after.demote_blocked && after.partial_present
            == partial_ok,
        s.content_attached == after.content_attached ==> after.displayed_anchor
            == s.displayed_anchor && after.fallback_virtual == s.fallback_virtual
            && after.partial_present == s.partial_present && after.demote_blocked
            == s.demote_blocked,
        after.swapchain == s.swapchain && after.anchor == s.anchor && after.size == s.size,
{
    if region_has(s.frame_dirty@, x, y) {
        law_collapse_only_widens(s.frame_dirty@, MAX_STALE_RECTS as int, x, y);
    }
    let full = seq![crate::surface::buffer_of(s.size)];
    if 0 <= x < s.size.width && 0 <= y < s.size.height {
        assert(full[0].has(x, y));
        assert(region_has(full, x, y));
        law_collapse_only_widens(full, MAX_STALE_RECTS as int, x, y);
    }
}

/// The same after a partial present. One that failed turns partial presents off and changes nothing of
/// what the buffers hold.
pub proof fn law_partial_present_records_what_the_other_buffer_missed(
    s: SwapChainStorage,
    presented: bool,
    after: SwapChainStorage,
    x: int,
    y: int,
)
    requires
        s.after_partial_present(presented, after),
    ensures
        presented && region_has(s.frame_dirty@, x, y) ==> region_has(after.stale.missed(), x, y),
        presented ==> after.partial_present == s.partial_present && after.withheld_frames == 0
            && forall|t: TileIndex| !after.coverage@.contains(t),
        !presented ==> !after.partial_present && after.stale == s.stale && after.coverage
            == s.coverage,
        after.frame_dirty@.len() == 0,
        after.swapchain == s.swapchain && after.anchor == s.anchor && after.size == s.size
            && after.content_attached == s.content_attached && after.displayed_anchor
            == s.displayed_anchor && after.fallback_virtual == s.fallback_virtual,
{
    if region_has(s.frame_dirty@, x, y) {
        law_collapse_only_widens(s.frame_dirty@, MAX_STALE_RECTS as int, x, y);
    }
}

/// A virtual surface that has earned a flip chain is promoted: opaque, in the mode that allows it, with
/// tiles that leave no hole, and repainted in full for the third time in a row since it was drawn
/// in more than thirty frames and its cooldown passed, unless the window is being resized or no
/// flip chain can be made. A frame that does not repaint it in full starts the row anew.
pub proof fn law_earned_promotion_is_given(
    e: SurfaceEntry,
    ctx: FrameContext,
    action: EndFrameAction,
    after: SurfaceEntry,
)
    requires
        e.storage is Virtual,
        e.promote_streak < u32::MAX,
        e.planned(ctx, action, after),
    ensures
        ({
            let full = e.tiles.tiles@.len() > 0 && forall|i: int|
                0 <= i < e.tiles.tiles@.len() ==> e.frame_coverage@.contains(
                    #[trigger] e.tiles.tiles@[i],
                );
            let rested = ctx.frame_counter >= e.promote_blocked_until;
            let drawn = e.frame_drawn_partial || exists|t: TileIndex| e.frame_coverage@.contains(t);
            &&& after.promote_streak == (if full && rested && after.drawn_frames > 30 {
                e.promote_streak + 1
            } else {
                0
            })
            &&& e.drawn_frames < u32::MAX ==> after.drawn_frames == e.drawn_frames + (if drawn {
                1int
            } else {
                0
            })
            &&& action is Promote <==> after.promote_streak >= 3 && e.is_opaque
                && !ctx.resize_active && ctx.mode == StorageMode::Hybrid && !ctx.promote_disabled
                && ctx.has_factory && e.extent() is Some && crate::surface::dense(
                e.tiles.tiles@,
                e.tile_size,
                e.extent()->0,
            )
            &&& action matches EndFrameAction::Promote(x) ==> Some(x) == extent_of(
                e.tiles.tiles@,
                e.virtual_offset,
                e.tile_size,
            )
            &&& !(action is Promote) ==> action is Nothing
            &&& after.storage == e.storage && after.tiles == e.tiles && after.visual == e.visual
            &&& !after.frame_drawn_partial && forall|t: TileIndex| !after.frame_coverage@.contains(t)
            &&& after.promote_blocked_until == e.promote_blocked_until && after.demote_count
                == e.demote_count && after.content_valid_union == e.content_valid_union
        }),
{
    assert(crate::tiles::covers_all(e.frame_coverage@, e.tiles@) <==> (e.tiles.tiles@.len() > 0
        && forall|i: int|
        0 <= i < e.tiles.tiles@.len() ==> e.frame_coverage@.contains(
            #[trigger] e.tiles.tiles@[i],
        ))) by {
        if e.tiles.tiles@.len() > 0 {
            assert(e.tiles@.contains(e.tiles.tiles@[0]));
        } else {
            assert(e.tiles@ =~= Set::<TileIndex>::empty());
        }
        if crate::tiles::covers_all(e.frame_coverage@, e.tiles@) {
            assert forall|i: int| 0 <= i < e.tiles.tiles@.len() implies e.frame_coverage@.contains(
                #[trigger] e.tiles.tiles@[i],
            ) by {
                assert(e.tiles@.contains(e.tiles.tiles@[i]));
            }
        }
    }
    if e.frame_coverage@ != Set::<TileIndex>::empty() {
        if forall|t: TileIndex| !e.frame_coverage@.contains(t) {
            assert(e.frame_coverage@ =~= Set::<TileIndex>::empty());
        }
    }
}

/// The cooldown starts at three hundred frames and doubles with each demotion, up to three thousand six
/// hundred. A demotion that a resize asked for has none.
pub proof fn law_cooldown_doubles(n: int)
    ensures
        cooldown_frames(1) == 300,
        n >= 1 && 2 * cooldown_frames(n) <= 3600 ==> cooldown_frames(n + 1) == 2 * cooldown_frames(n),
        n >= 1 && 2 * cooldown_frames(n) > 3600 ==> cooldown_frames(n + 1) == 3600,
{
}

/// A demoted surface shows the virtual surface that was filled, counts from anew, and may be promoted
/// again once its cooldown has passed; at once where a resize asked for the demotion, which is
/// not held against it.
pub proof fn law_demoted_surface_starts_anew(
    e: SurfaceEntry,
    new_virtual: u64,
    resize_active: bool,
    frame: u64,
    after: SurfaceEntry,
)
    requires
        e.demoted(new_virtual, resize_active, frame, after),
        e.demote_count < u32::MAX,
        frame + 3600 <= u64::MAX,
    ensures
        after.storage == (SurfaceStorage::Virtual { virtual_surface: new_virtual }),
        after.promote_streak == 0,
        forall|t: TileIndex| !after.frame_coverage@.contains(t),
        resize_active ==> after.demote_count == e.demote_count && after.promote_blocked_until <= frame,
        !resize_active ==> after.demote_count == e.demote_count + 1 && after.promote_blocked_until
            == frame + cooldown_frames(e.demote_count + 1),
        after.tiles == e.tiles && after.visual == e.visual && after.virtual_offset
            == e.virtual_offset && after.tile_size == e.tile_size && after.is_opaque == e.is_opaque
            && after.last_placement == e.last_placement && after.content_valid_union
            == e.content_valid_union && after.drawn_frames == e.drawn_frames,
{
    crate::surface::law_cooldown_grows_to_the_cap(e.demote_count + 1, e.demote_count + 1);
}

/// The visuals of a frame are those of its surfaces that are still there, each at its turn: none is left
/// out, none is added, and their order is that of the surfaces.
pub proof fn law_frame_shows_its_surfaces_in_order(
    c: crate::dcomp_compositor::DCompNativeCompositor,
    ids: Seq<u64>,
    more: u64,
)
    ensures
        c.surfaces@.contains_key(more) ==> c.shown_visuals(ids.push(more)) == c.shown_visuals(
            ids,
        ).push(c.surfaces@[more].visual),
        !c.surfaces@.contains_key(more) ==> c.shown_visuals(ids.push(more)) == c.shown_visuals(ids),
        c.shown_visuals(Seq::empty()).len() == 0,
        (forall|i: int| 0 <= i < ids.len() ==> c.surfaces@.contains_key(#[trigger] ids[i])) ==> {
            &&& c.shown_visuals(ids).len() == ids.len()
            &&& forall|i: int|
                0 <= i < ids.len() ==> #[trigger] c.shown_visuals(ids)[i]
                    == c.surfaces@[ids[i]].visual
        },
    decreases ids.len(),
{
    assert(ids.push(more).drop_last() =~= ids);
    if ids.len() > 0 {
        let front = ids.drop_last();
        law_frame_shows_its_surfaces_in_order(c, front, more);
        if forall|i: int| 0 <= i < ids.len() ==> c.surfaces@.contains_key(#[trigger] ids[i]) {
            assert forall|i: int| 0 <= i < front.len() implies c.surfaces@.contains_key(
                #[trigger] front[i],
            ) by {
                assert(ids[i] == front[i]);
            }
            assert(c.surfaces@.contains_key(ids[ids.len() - 1]));
            assert forall|i: int| 0 <= i < ids.len() implies #[trigger] c.shown_visuals(ids)[i]
                == c.surfaces@[ids[i]].visual by {
                if i < front.len() {
                    assert(c.shown_visuals(front)[i] == c.surfaces@[front[i]].visual);
                }
            }
        }
    }
}

/// A surface is shown where its flip chain was when it was last attached; any other surface at the origin. A
/// new surface has no tiles, was never drawn or placed, and has nothing held against it.
pub proof fn law_surface_is_shown_where_it_was_attached(e: SurfaceEntry, t: TileIndex)
    ensures
        e.storage is SwapChain && (e.storage->SwapChain_0).displayed_anchor is Some
            ==> e.shown_anchor() == (e.storage->SwapChain_0).displayed_anchor->0,
        !(e.storage is SwapChain) || (e.storage->SwapChain_0).displayed_anchor is None
            ==> e.shown_anchor().x == 0 && e.shown_anchor().y == 0,
        e.is_fresh() ==> !e.tiles@.contains(t) && !e.frame_coverage@.contains(t)
            && !e.frame_drawn_partial && e.promote_streak == 0 && e.drawn_frames == 0
            && e.demote_count == 0 && e.promote_blocked_until == 0 && e.last_placement is None
            && e.content_valid_union is None,
{
}

/// A pixel that this frame drew lies in the tile.
pub open spec fn drawn_in_tile(
    s: SwapChainStorage,
    offset: DeviceIntPoint,
    size: DeviceIntSize,
    tile: TileIndex,
) -> bool {
    exists|d: int, qx: int, qy: int|
        #![trigger s.frame_dirty@[d].has(qx, qy)]
        0 <= d < s.frame_dirty@.len() && s.frame_dirty@[d].has(qx, qy) && in_tile(
            offset,
            size,
            tile,
            qx + s.anchor.x,
            qy + s.anchor.y,
        )
}

/// A demotion to the fallback overwrites nothing that is still good: a copy is made only of a tile that this
/// frame drew in full, or drew a pixel of.
pub proof fn law_demotion_overwrites_only_what_was_drawn(
    s: SwapChainStorage,
    tiles: Seq<TileIndex>,
    offset: DeviceIntPoint,
    size: DeviceIntSize,
    resize_active: bool,
    has_context: bool,
    plan: DemotionPlan,
    after: SwapChainStorage,
    k: int,
)
    requires
        s.wf(),
        tiles_in_range(tiles, offset, size),
        s.demotion_planned(tiles, offset, size, resize_active, has_context, plan, after),
        plan is SeedFallback,
        0 <= k < plan->SeedFallback_copies@.len(),
    ensures
        exists|i: int|
            0 <= i < tiles.len() && is_of_tile(
                plan->SeedFallback_copies@[k],
                offset,
                size,
                #[trigger] tiles[i],
            ) && (s.coverage@.contains(tiles[i]) || drawn_in_tile(s, offset, size, tiles[i])),
{
    lemma_seed_copies(s, tiles, offset, size);
    let c = plan->SeedFallback_copies@[k];
    assert(s.seed_copies(tiles, offset, size).contains(c));
    let i = choose|i: int|
        0 <= i < tiles.len() && s.needs_seed(offset, size, #[trigger] tiles[i]) && c == s.seed_copy(
            offset,
            size,
            tiles[i],
        );
    let t = tiles[i];
    assert(tile_in_range(offset, size, t));
    if !s.coverage@.contains(t) {
        let rect = tile_rect(offset, size, t);
        let (ax, ay) = (s.anchor.x as int, s.anchor.y as int);
        let d = choose|d: int|
            0 <= d < s.frame_dirty@.len() && !rect.meet(
                crate::tiles::moved(#[trigger] s.frame_dirty@[d], ax, ay),
            ).empty();
        let r = s.frame_dirty@[d];
        assert(crate::tiles::can_move(r, ax, ay));
        let there = crate::tiles::moved(r, ax, ay);
        let m = rect.meet(there);
        let (x, y) = (m.min.x as int, m.min.y as int);
        assert(m.has(x, y));
        assert(rect.has(x, y) && there.has(x, y));
        assert(r.has(x - ax, y - ay));
        assert(in_tile(offset, size, t, (x - ax) + s.anchor.x, (y - ay) + s.anchor.y));
        assert(drawn_in_tile(s, offset, size, t));
    }
}

} // verus!
