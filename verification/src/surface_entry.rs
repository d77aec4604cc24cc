//! A surface of the compositor: its tiles, its storage, and its way between the storages.
use vstd::prelude::*;

use crate::external_surface::ExternalStorage;
use crate::geometry::{DeviceIntPoint, DeviceIntRect, DeviceIntSize};
use crate::surface::{
    cooldown_frames, demote_cooldown, dense, size_in_range, EndFrameAction, FrameContext,
    StorageMode, SwapChainStorage, PROMOTE_MIN_AGE_FRAMES, PROMOTE_STREAK,
};
use crate::tiles::{
    can_move, clip_in_range, covers_all, extent_of, move_rect, moved, rect_can_move, surface_extent,
    tile_fits, tile_in_range, tile_rect, tile_virtual_rect, tile_visible_virtual_rect,
    tiles_are_dense, tiles_in_range, visible_part, FrameCoverage, TileIndex, TileSet,
};

verus! {

/// What holds the content of a surface.
#[derive(Debug)]
pub enum SurfaceStorage {
    Virtual { virtual_surface: u64 },
    SwapChain(SwapChainStorage),
    External(ExternalStorage),
}

/// Where the surface was placed last: its offset in whole device pixels and its clip.
#[derive(Clone, Copy, PartialEq, Eq, Debug)]
pub struct LastPlacement {
    pub transform_offset: (i32, i32),
    pub clip_rect: DeviceIntRect,
}

/// A surface of the compositor. `visual` names an object of the graphics system.
#[derive(Debug)]
pub struct SurfaceEntry {
    pub storage: SurfaceStorage,
    pub visual: u64,
    pub virtual_offset: DeviceIntPoint,
    pub tile_size: DeviceIntSize,
    pub is_opaque: bool,
    pub tiles: TileSet,
    /// The tiles of a virtual surface that this frame has drawn in full.
    pub frame_coverage: FrameCoverage,
    /// Full repaints in a row.
    pub promote_streak: u32,
    pub last_placement: Option<LastPlacement>,
    /// Frames in which the surface was drawn.
    pub drawn_frames: u32,
    pub demote_count: u32,
    /// No promotion before this frame.
    pub promote_blocked_until: u64,
    pub frame_drawn_partial: bool,
    /// The bounds of what the surface has drawn so far, in device coordinates.
    pub content_valid_union: Option<DeviceIntRect>,
}

/// Where a tile is drawn to.
#[derive(Clone, Copy, PartialEq, Eq, Debug, Structural)]
pub enum BindPlan {
    /// The surface takes no tiles.
    Rejected,
    /// Into the back buffer of a flip chain, over the drawing surface of this frame, if there is
    /// one already.
    SwapChain { swapchain: u64, pbuffer: Option<u64>, size: DeviceIntSize },
    /// Into the part `update` of a virtual surface, which is made transparent first where
    /// `clear` says so.
    Virtual { virtual_surface: u64, update: DeviceIntRect, clear: bool },
}

/// The part of a texture that is made transparent before a tile is drawn.
#[derive(Clone, Copy, PartialEq, Eq, Debug, Structural)]
pub struct ClearedPart {
    pub origin: DeviceIntPoint,
    pub size: DeviceIntSize,
}

/// Where a tile came to lie in the texture that it is drawn to.
#[derive(Clone, Copy, PartialEq, Eq, Debug, Structural)]
pub struct VirtualBind {
    /// The texture point at the tile's origin.
    pub origin: DeviceIntPoint,
    /// The texture point at the dirty region's origin.
    pub dirty_origin: DeviceIntPoint,
    pub dirty_size: DeviceIntSize,
    /// Exactly the opened part where the tile is cleared. The texture may hold other tiles, so
    /// nothing beside it is touched.
    pub clear: Option<ClearedPart>,
}

pub open spec fn saturating_inc(n: u32) -> u32 {
    if n < u32::MAX {
        (n + 1) as u32
    } else {
        n
    }
}

impl SurfaceEntry {
    pub open spec fn wf(self) -> bool {
        &&& self.tiles.wf()
        &&& self.frame_coverage.wf()
        &&& match self.storage {
            SurfaceStorage::SwapChain(sc) => sc.wf(),
            SurfaceStorage::External(ext) => ext.wf(),
            SurfaceStorage::Virtual { .. } => true,
        }
    }

    /// The extent of the tiles.
    pub open spec fn extent(self) -> Option<DeviceIntRect> {
        extent_of(self.tiles.tiles@, self.virtual_offset, self.tile_size)
    }

    /// All coordinates that the end of a frame computes stay within range.
    pub open spec fn coordinates_fit(self) -> bool {
        &&& tiles_in_range(self.tiles.tiles@, self.virtual_offset, self.tile_size)
        &&& self.extent() matches Some(e) ==> size_in_range(e)
        &&& self.storage matches SurfaceStorage::SwapChain(sc) ==> sc.tiles_reachable(
            self.tiles.tiles@,
            self.virtual_offset,
            self.tile_size,
        )
    }

    /// The frame counters can count one frame more.
    pub open spec fn counters_fit(self) -> bool {
        &&& self.promote_streak < u32::MAX
        &&& self.storage matches SurfaceStorage::SwapChain(sc) ==> sc.withheld_frames < u32::MAX
    }

    /// A surface on a virtual surface, without tiles.
    pub fn new_virtual(
        virtual_surface: u64,
        visual: u64,
        virtual_offset: DeviceIntPoint,
        tile_size: DeviceIntSize,
        is_opaque: bool,
    ) -> (e: SurfaceEntry)
        ensures
            e.wf(),
            e.storage == (SurfaceStorage::Virtual { virtual_surface }),
            e.visual == visual,
            e.virtual_offset == virtual_offset,
            e.tile_size == tile_size,
            e.is_opaque == is_opaque,
            e.is_fresh(),
    {
        SurfaceEntry {
            storage: SurfaceStorage::Virtual { virtual_surface },
            visual,
            virtual_offset,
            tile_size,
            is_opaque,
            tiles: TileSet::new(),
            frame_coverage: FrameCoverage::default(),
            promote_streak: 0,
            last_placement: None,
            drawn_frames: 0,
            demote_count: 0,
            promote_blocked_until: 0,
            frame_drawn_partial: false,
            content_valid_union: None,
        }
    }

    /// Nothing has happened to the surface yet.
    pub open spec fn is_fresh(self) -> bool {
        &&& self.tiles.tiles@.len() == 0
        &&& self.tiles@ == Set::<TileIndex>::empty()
        &&& self.frame_coverage@ == Set::<TileIndex>::empty()
        &&& self.promote_streak == 0
        &&& self.last_placement is None
        &&& self.drawn_frames == 0
        &&& self.demote_count == 0
        &&& self.promote_blocked_until == 0
        &&& !self.frame_drawn_partial
        &&& self.content_valid_union is None
    }

    /// An external surface without a flip chain.
    pub fn new_external(visual: u64, is_opaque: bool) -> (e: SurfaceEntry)
        ensures
            e.wf(),
            e.storage matches SurfaceStorage::External(ext) && ext.swapchain is None
                && ext.attached_external_id is None,
            e.visual == visual,
            e.virtual_offset == (DeviceIntPoint { x: 0, y: 0 }),
            e.tile_size == (DeviceIntSize { width: 0, height: 0 }),
            e.is_opaque == is_opaque,
            e.is_fresh(),
    {
        SurfaceEntry {
            storage: SurfaceStorage::External(ExternalStorage::new()),
            visual,
            virtual_offset: DeviceIntPoint::new(0, 0),
            tile_size: DeviceIntSize::new(0, 0),
            is_opaque,
            tiles: TileSet::new(),
            frame_coverage: FrameCoverage::default(),
            promote_streak: 0,
            last_placement: None,
            drawn_frames: 0,
            demote_count: 0,
            promote_blocked_until: 0,
            frame_drawn_partial: false,
            content_valid_union: None,
        }
    }

    /// Enters a tile.
    pub fn create_tile(&mut self, tile: TileIndex)
        requires
            old(self).wf(),
        ensures
            final(self).wf(),
            final(self).tiles@ == old(self).tiles@.insert(tile),
            *final(self) == (SurfaceEntry { tiles: final(self).tiles, ..*old(self) }),
    {
        self.tiles.insert(tile);
    }

    /// Strikes a tile out. The bounds of what was drawn are gathered anew from then on.
    pub fn destroy_tile(&mut self, tile: TileIndex)
        requires
            old(self).wf(),
        ensures
            final(self).wf(),
            final(self).tiles@ == old(self).tiles@.remove(tile),
            *final(self) == (SurfaceEntry {
                tiles: final(self).tiles,
                content_valid_union: None,
                ..*old(self)
            }),
    {
        self.tiles.remove(tile);
        self.content_valid_union = None;
    }

    /// Whether the coordinates of the end of a frame stay within range.
    pub fn check_coordinates(&self) -> (b: bool)
        ensures
            b == self.coordinates_fit(),
    {
        let mut i: usize = 0;
        while i < self.tiles.tiles.len()
            invariant
                i <= self.tiles.tiles@.len(),
                forall|k: int|
                    0 <= k < i ==> tile_in_range(
                        self.virtual_offset,
                        self.tile_size,
                        #[trigger] self.tiles.tiles@[k],
                    ),
            decreases self.tiles.tiles@.len() - i,
        {
            let t = self.tiles.tiles[i];
            if !tile_fits(self.virtual_offset, self.tile_size, t.0, t.1) {
                assert(!tile_in_range(
                    self.virtual_offset,
                    self.tile_size,
                    self.tiles.tiles@[i as int],
                ));
                return false;
            }
            i = i + 1;
        }
        if let Some(e) = surface_extent(&self.tiles, self.virtual_offset, self.tile_size) {
            let w: i64 = e.max.x as i64 - e.min.x as i64;
            let h: i64 = e.max.y as i64 - e.min.y as i64;
            if w > i32::MAX as i64 || h > i32::MAX as i64 || w < i32::MIN as i64 || h
                < i32::MIN as i64 {
                return false;
            }
        }
        if let SurfaceStorage::SwapChain(sc) = &self.storage {
            let dx: i64 = -(sc.anchor.x as i64);
            let dy: i64 = -(sc.anchor.y as i64);
            let mut k: usize = 0;
            while k < self.tiles.tiles.len()
                invariant
                    k <= self.tiles.tiles@.len(),
                    self.storage matches SurfaceStorage::SwapChain(s) && s == *sc,
                    dx == -sc.anchor.x,
                    dy == -sc.anchor.y,
                    tiles_in_range(self.tiles.tiles@, self.virtual_offset, self.tile_size),
                    forall|j: int|
                        0 <= j < k ==> can_move(
                            tile_rect(
                                self.virtual_offset,
                                self.tile_size,
                                #[trigger] self.tiles.tiles@[j],
                            ),
                            dx as int,
                            dy as int,
                        ),
                decreases self.tiles.tiles@.len() - k,
            {
                let t = self.tiles.tiles[k];
                let r = tile_virtual_rect(self.virtual_offset, self.tile_size, t.0, t.1);
                if !rect_can_move(r, dx, dy) {
                    assert(!can_move(
                        tile_rect(
                            self.virtual_offset,
                            self.tile_size,
                            self.tiles.tiles@[k as int],
                        ),
                        dx as int,
                        dy as int,
                    ));
                    return false;
                }
                k = k + 1;
            }
        }
        true
    }

    /// A virtual surface after a frame: its counters, and whether it is promoted.
    pub open spec fn virtual_planned(
        self,
        ctx: FrameContext,
        action: EndFrameAction,
        after: SurfaceEntry,
    ) -> bool {
        let drawn = self.frame_coverage@ != Set::<TileIndex>::empty() || self.frame_drawn_partial;
        let full = covers_all(self.frame_coverage@, self.tiles@);
        let drawn_frames = if drawn {
            saturating_inc(self.drawn_frames)
        } else {
            self.drawn_frames
        };
        let streak = if full && drawn_frames > PROMOTE_MIN_AGE_FRAMES && ctx.frame_counter
            >= self.promote_blocked_until {
            (self.promote_streak + 1) as u32
        } else {
            0
        };
        let ready = !ctx.resize_active && ctx.mode == StorageMode::Hybrid && self.is_opaque
            && !ctx.promote_disabled && streak >= PROMOTE_STREAK && ctx.frame_counter
            >= self.promote_blocked_until && ctx.has_factory;
        &&& action == (if ready && self.extent() is Some && dense(
            self.tiles.tiles@,
            self.tile_size,
            self.extent()->0,
        ) {
            EndFrameAction::Promote(self.extent()->0)
        } else {
            EndFrameAction::Nothing
        })
        &&& after.frame_coverage@ == Set::<TileIndex>::empty()
        &&& after == (SurfaceEntry {
            frame_coverage: after.frame_coverage,
            frame_drawn_partial: false,
            drawn_frames,
            promote_streak: streak,
            ..self
        })
    }

    /// What a surface does at the end of a frame, and what it is left as.
    pub open spec fn planned(
        self,
        ctx: FrameContext,
        action: EndFrameAction,
        after: SurfaceEntry,
    ) -> bool {
        match self.storage {
            SurfaceStorage::Virtual { .. } => self.virtual_planned(ctx, action, after),
            SurfaceStorage::SwapChain(sc) => {
                &&& after.storage is SwapChain
                &&& sc.planned(
                    self.tiles,
                    self.virtual_offset,
                    self.tile_size,
                    ctx,
                    action,
                    after.storage->SwapChain_0,
                )
                &&& after == (SurfaceEntry { storage: after.storage, ..self })
            },
            SurfaceStorage::External(_) => action is Nothing && after == self,
        }
    }

    /// Decides what is done for the surface at the end of a frame.
    pub fn plan_end_frame(&mut self, ctx: &FrameContext) -> (action: EndFrameAction)
        requires
            old(self).wf(),
            old(self).coordinates_fit(),
            old(self).counters_fit(),
        ensures
            final(self).wf(),
            old(self).planned(*ctx, action, *final(self)),
    {
        match &mut self.storage {
            SurfaceStorage::SwapChain(sc) => {
                return sc.plan(&self.tiles, self.virtual_offset, self.tile_size, ctx);
            },
            SurfaceStorage::External(_) => {
                return EndFrameAction::Nothing;
            },
            SurfaceStorage::Virtual { .. } => {},
        }
        let frame_drawn = !self.frame_coverage.covered_tiles.is_empty() || self.frame_drawn_partial;
        let frame_full = self.frame_coverage.is_full(&self.tiles);
        self.frame_coverage.reset();
        self.frame_drawn_partial = false;
        if frame_drawn {
            self.drawn_frames = self.drawn_frames.saturating_add(1);
        }
        self.promote_streak = if frame_full && self.drawn_frames > PROMOTE_MIN_AGE_FRAMES
            && ctx.frame_counter >= self.promote_blocked_until {
            self.promote_streak + 1
        } else {
            0
        };
        if !ctx.resize_active && ctx.mode == StorageMode::Hybrid && self.is_opaque
            && !ctx.promote_disabled && self.promote_streak >= PROMOTE_STREAK && ctx.frame_counter
            >= self.promote_blocked_until && ctx.has_factory {
            if let Some(extent) = surface_extent(
                &self.tiles,
                self.virtual_offset,
                self.tile_size,
            ) {
                if tiles_are_dense(self.tiles.len(), self.tile_size, extent.size()) {
                    return EndFrameAction::Promote(extent);
                }
            }
        }
        EndFrameAction::Nothing
    }

    /// Puts a flip chain for `extent` in place of the virtual surface, which stays on display
    /// until the flip chain is attached.
    pub fn promote(&mut self, swapchain: u64, extent: DeviceIntRect)
        requires
            old(self).wf(),
            old(self).storage is Virtual,
            size_in_range(extent),
        ensures
            final(self).wf(),
            final(self).storage matches SurfaceStorage::SwapChain(sc) && sc.swapchain == swapchain
                && sc.anchor == extent.min && sc.size == crate::surface::size_of_extent(extent)
                && sc.fallback_virtual == Some(old(self).storage->virtual_surface)
                && sc.displayed_anchor is None && !sc.content_attached && !sc.drawn_this_frame
                && !sc.partial_present && !sc.demote_blocked && sc.withheld_frames == 0
                && sc.frame_pbuffer is None && sc.coverage@ == Set::<TileIndex>::empty()
                && sc.frame_dirty@.len() == 0 && sc.stale.missed().len() == 0,
            *final(self) == (SurfaceEntry {
                storage: final(self).storage,
                promote_streak: 0,
                ..*old(self)
            }),
    {
        if let SurfaceStorage::Virtual { virtual_surface } = self.storage {
            self.storage =
            SurfaceStorage::SwapChain(
                SwapChainStorage::promoted(swapchain, extent, virtual_surface),
            );
        }
        self.promote_streak = 0;
    }

    /// The surface after its demotion to `new_virtual`. A resize is no fault of the surface: it
    /// has no cooldown and may be promoted again at once.
    pub open spec fn demoted(
        self,
        new_virtual: u64,
        resize_active: bool,
        frame_counter: u64,
        after: SurfaceEntry,
    ) -> bool {
        let count = if resize_active {
            self.demote_count
        } else {
            saturating_inc(self.demote_count)
        };
        &&& after.frame_coverage@ == Set::<TileIndex>::empty()
        &&& after == (SurfaceEntry {
            storage: SurfaceStorage::Virtual { virtual_surface: new_virtual },
            promote_blocked_until: if resize_active {
                0
            } else {
                (frame_counter + cooldown_frames(count as int)) as u64
            },
            demote_count: count,
            promote_streak: 0,
            frame_coverage: after.frame_coverage,
            ..self
        })
    }

    /// Takes in the outcome of seeding: the virtual surface that now holds the content, or
    /// `None` where the seeding failed and the flip chain stays.
    pub fn settle_demotion(
        &mut self,
        seeded: Option<u64>,
        resize_active: bool,
        frame_counter: u64,
    )
        requires
            old(self).wf(),
            frame_counter + crate::surface::DEMOTE_COOLDOWN_CAP <= u64::MAX,
        ensures
            final(self).wf(),
            match seeded {
                Some(v) => old(self).demoted(v, resize_active, frame_counter, *final(self)),
                None => *final(self) == *old(self),
            },
    {
        let new_virtual: u64 = match seeded {
            Some(v) => v,
            None => return ,
        };
        self.storage = SurfaceStorage::Virtual { virtual_surface: new_virtual };
        if resize_active {
            self.promote_blocked_until = 0;
        } else {
            self.demote_count = self.demote_count.saturating_add(1);
            proof {
                crate::surface::law_cooldown_grows_to_the_cap(
                    self.demote_count as int,
                    self.demote_count as int,
                );
            }
            let cooldown: u64 = demote_cooldown(self.demote_count);
            self.promote_blocked_until = frame_counter + cooldown;
        }
        self.promote_streak = 0;
        self.frame_coverage.reset();
    }

    /// A virtual surface that is not opaque and whose tile is repainted in full: the whole
    /// visible part of the tile is made transparent before it is drawn, so that nothing old
    /// shows beside the new content.
    pub open spec fn clears_tile(self, dirty: DeviceIntRect, valid: DeviceIntRect) -> bool {
        !self.is_opaque && dirty == valid
    }

    /// The clip and the offset of the last placement.
    pub open spec fn placed_clip(self) -> (Option<DeviceIntRect>, (i32, i32)) {
        match self.last_placement {
            Some(p) => (Some(p.clip_rect), p.transform_offset),
            None => (None, (0i32, 0i32)),
        }
    }

    /// All coordinates that drawing the tile computes stay within range.
    pub open spec fn bind_fits(
        self,
        tile: TileIndex,
        dirty: DeviceIntRect,
        valid: DeviceIntRect,
    ) -> bool {
        let rect = tile_rect(self.virtual_offset, self.tile_size, tile);
        let at_tile = can_move(dirty, rect.min.x as int, rect.min.y as int);
        &&& tile_in_range(self.virtual_offset, self.tile_size, tile)
        &&& !valid.empty() ==> can_move(
            valid,
            tile.0 * self.tile_size.width,
            tile.1 * self.tile_size.height,
        )
        &&& match self.storage {
            SurfaceStorage::SwapChain(sc) => at_tile && can_move(
                moved(dirty, rect.min.x as int, rect.min.y as int),
                -sc.anchor.x,
                -sc.anchor.y,
            ) && i32::MIN <= rect.min.x - sc.anchor.x <= i32::MAX && i32::MIN <= rect.min.y
                - sc.anchor.y <= i32::MAX,
            SurfaceStorage::Virtual { .. } => if self.clears_tile(dirty, valid) {
                clip_in_range(self.placed_clip().0, self.placed_clip().1, self.virtual_offset)
            } else {
                at_tile
            },
            SurfaceStorage::External(_) => true,
        }
    }

    /// Whether the coordinates that drawing the tile computes stay within range.
    pub fn check_bind(&self, tile: TileIndex, dirty: DeviceIntRect, valid: DeviceIntRect) -> (b:
        bool)
        ensures
            b == self.bind_fits(tile, dirty, valid),
    {
        if !tile_fits(self.virtual_offset, self.tile_size, tile.0, tile.1) {
            return false;
        }
        let dev_ox: i32 = tile.0 * self.tile_size.width;
        let dev_oy: i32 = tile.1 * self.tile_size.height;
        if !valid.is_empty() && !rect_can_move(valid, dev_ox as i64, dev_oy as i64) {
            return false;
        }
        let lo: i64 = i32::MIN as i64;
        let hi: i64 = i32::MAX as i64;
        let rect = tile_virtual_rect(self.virtual_offset, self.tile_size, tile.0, tile.1);
        let at_tile = rect_can_move(dirty, rect.min.x as i64, rect.min.y as i64);
        match &self.storage {
            SurfaceStorage::SwapChain(sc) => {
                if !at_tile {
                    return false;
                }
                let drawn = move_rect(dirty, rect.min.x, rect.min.y);
                let dx: i64 = -(sc.anchor.x as i64);
                let dy: i64 = -(sc.anchor.y as i64);
                let x: i64 = rect.min.x as i64 + dx;
                let y: i64 = rect.min.y as i64 + dy;
                rect_can_move(drawn, dx, dy) && lo <= x && x <= hi && lo <= y && y <= hi
            },
            SurfaceStorage::Virtual { .. } => {
                if self.is_opaque || dirty != valid {
                    return at_tile;
                }
                match self.last_placement {
                    Some(p) => {
                        let dx: i64 = self.virtual_offset.x as i64 - p.transform_offset.0 as i64;
                        let dy: i64 = self.virtual_offset.y as i64 - p.transform_offset.1 as i64;
                        lo <= dx && dx <= hi && lo <= dy && dy <= hi && rect_can_move(
                            p.clip_rect,
                            dx,
                            dy,
                        )
                    },
                    None => true,
                }
            },
            SurfaceStorage::External(_) => true,
        }
    }

    /// The bounds of what the surface has drawn, after one more tile.
    pub open spec fn grown_union(self, tile: TileIndex, valid: DeviceIntRect) -> Option<
        DeviceIntRect,
    > {
        let at_device = moved(
            valid,
            tile.0 * self.tile_size.width,
            tile.1 * self.tile_size.height,
        );
        if valid.empty() {
            self.content_valid_union
        } else {
            match self.content_valid_union {
                Some(u) => Some(u.join(at_device)),
                None => Some(at_device),
            }
        }
    }

    /// The part of the virtual surface that drawing the tile updates.
    pub open spec fn update_rect(
        self,
        tile: TileIndex,
        dirty: DeviceIntRect,
        valid: DeviceIntRect,
    ) -> DeviceIntRect {
        let rect = tile_rect(self.virtual_offset, self.tile_size, tile);
        if self.clears_tile(dirty, valid) {
            visible_part(rect, self.placed_clip().0, self.placed_clip().1, self.virtual_offset)
        } else {
            moved(dirty, rect.min.x as int, rect.min.y as int)
        }
    }

    /// Decides where the tile is drawn to and enters what it draws into the surface's bounds.
    pub fn plan_bind(
        &mut self,
        tile: TileIndex,
        dirty: DeviceIntRect,
        valid: DeviceIntRect,
    ) -> (plan: BindPlan)
        requires
            old(self).wf(),
            old(self).bind_fits(tile, dirty, valid),
        ensures
            final(self).wf(),
            *final(self) == (SurfaceEntry {
                content_valid_union: old(self).grown_union(tile, valid),
                ..*old(self)
            }),
            plan == (match old(self).storage {
                SurfaceStorage::SwapChain(sc) => BindPlan::SwapChain {
                    swapchain: sc.swapchain,
                    pbuffer: sc.frame_pbuffer,
                    size: sc.size,
                },
                SurfaceStorage::Virtual { virtual_surface } => BindPlan::Virtual {
                    virtual_surface,
                    update: old(self).update_rect(tile, dirty, valid),
                    clear: old(self).clears_tile(dirty, valid),
                },
                SurfaceStorage::External(_) => BindPlan::Rejected,
            }),
    {
        let rect = tile_virtual_rect(self.virtual_offset, self.tile_size, tile.0, tile.1);
        let (clip, transform_offset) = match self.last_placement {
            Some(p) => (Some(p.clip_rect), p.transform_offset),
            None => (None, (0i32, 0i32)),
        };
        if !valid.is_empty() {
            let dev_ox: i32 = tile.0 * self.tile_size.width;
            let dev_oy: i32 = tile.1 * self.tile_size.height;
            let dvalid = move_rect(valid, dev_ox, dev_oy);
            self.content_valid_union =
            Some(
                match self.content_valid_union {
                    Some(u) => u.union(&dvalid),
                    None => dvalid,
                },
            );
        }
        match &self.storage {
            SurfaceStorage::SwapChain(sc) => BindPlan::SwapChain {
                swapchain: sc.swapchain,
                pbuffer: sc.frame_pbuffer,
                size: sc.size,
            },
            SurfaceStorage::Virtual { virtual_surface } => {
                let clear = !self.is_opaque && dirty == valid;
                let update = if clear {
                    tile_visible_virtual_rect(rect, clip, transform_offset, self.virtual_offset)
                } else {
                    move_rect(dirty, rect.min.x, rect.min.y)
                };
                BindPlan::Virtual { virtual_surface: *virtual_surface, update, clear }
            },
            SurfaceStorage::External(_) => BindPlan::Rejected,
        }
    }

    /// Takes in the outcome of opening the back buffer for a tile: `pbuffer` is the drawing
    /// surface that was made where the frame had none yet, and `current` says whether drawing
    /// goes there now. Returns the buffer point at the tile's origin, or `None` where the tile
    /// is given up.
    pub fn settle_bind_swapchain(
        &mut self,
        tile: TileIndex,
        dirty: DeviceIntRect,
        valid: DeviceIntRect,
        pbuffer: Option<u64>,
        current: bool,
    ) -> (origin: Option<DeviceIntPoint>)
        requires
            old(self).wf(),
            old(self).storage is SwapChain,
            old(self).bind_fits(tile, dirty, valid),
        ensures
            final(self).wf(),
            final(self).storage is SwapChain,
            *final(self) == (SurfaceEntry { storage: final(self).storage, ..*old(self) }),
            ({
                let before = old(self).storage->SwapChain_0;
                let after = final(self).storage->SwapChain_0;
                let rect = tile_rect(old(self).virtual_offset, old(self).tile_size, tile);
                let opened = if before.frame_pbuffer is Some {
                    before.frame_pbuffer
                } else {
                    pbuffer
                };
                if opened is None || !current {
                    origin is None && after == (SwapChainStorage { frame_pbuffer: opened, ..before })
                } else {
                    &&& origin == Some(
                        DeviceIntPoint {
                            x: (rect.min.x - before.anchor.x) as i32,
                            y: (rect.min.y - before.anchor.y) as i32,
                        },
                    )
                    &&& after.coverage@ == (if dirty.covers(valid) {
                        before.coverage@.insert(tile)
                    } else {
                        before.coverage@
                    })
                    &&& after.frame_dirty@ == before.frame_dirty@.push(
                        moved(
                            dirty,
                            rect.min.x - before.anchor.x,
                            rect.min.y - before.anchor.y,
                        ),
                    )
                    &&& after == (SwapChainStorage {
                        frame_pbuffer: opened,
                        coverage: after.coverage,
                        frame_dirty: after.frame_dirty,
                        drawn_this_frame: true,
                        ..before
                    })
                }
            }),
            origin matches Some(o) ==> o.x + (old(self).storage->SwapChain_0).anchor.x
                == old(self).virtual_offset.x + tile.0 * old(self).tile_size.width && o.y + (
            old(self).storage->SwapChain_0).anchor.y == old(self).virtual_offset.y + tile.1
                * old(self).tile_size.height,
            origin is Some ==> (final(self).storage->SwapChain_0).frame_dirty@.len() == (
            old(self).storage->SwapChain_0).frame_dirty@.len() + 1,
            origin matches Some(o) ==> forall|px: int, py: int|
                (final(self).storage->SwapChain_0).frame_dirty@.last().has(o.x + px, o.y + py)
                    <==> #[trigger] dirty.has(px, py),
            origin is Some ==> ((final(self).storage->SwapChain_0).coverage@.contains(tile) <==> (
            old(self).storage->SwapChain_0).coverage@.contains(tile) || forall|px: int, py: int|
                #[trigger] valid.has(px, py) ==> dirty.has(px, py)),
    {
        let rect = tile_virtual_rect(self.virtual_offset, self.tile_size, tile.0, tile.1);
        if let SurfaceStorage::SwapChain(sc) = &mut self.storage {
            if sc.frame_pbuffer.is_none() {
                match pbuffer {
                    Some(p) => {
                        sc.frame_pbuffer = Some(p);
                    },
                    None => {
                        return None;
                    },
                }
            }
            if !current {
                return None;
            }
            sc.coverage.note_tile(tile, dirty, valid);
            let at_tile = move_rect(dirty, rect.min.x, rect.min.y);
            let dirty_buf = DeviceIntRect::new(
                DeviceIntPoint::new(at_tile.min.x - sc.anchor.x, at_tile.min.y - sc.anchor.y),
                DeviceIntPoint::new(at_tile.max.x - sc.anchor.x, at_tile.max.y - sc.anchor.y),
            );
            sc.frame_dirty.push(dirty_buf);
            sc.drawn_this_frame = true;
            proof {
                crate::geometry::law_corners_decide_pixels(dirty, valid);
            }
            return Some(
                DeviceIntPoint::new(rect.min.x - sc.anchor.x, rect.min.y - sc.anchor.y),
            );
        }
        None
    }

    /// Where a tile of a virtual surface lies in the texture that was opened for it, whose point
    /// `offset` is the origin of the updated part.
    pub open spec fn virtual_bind(
        self,
        tile: TileIndex,
        dirty: DeviceIntRect,
        valid: DeviceIntRect,
        offset: DeviceIntPoint,
    ) -> VirtualBind {
        let rect = tile_rect(self.virtual_offset, self.tile_size, tile);
        let update = self.update_rect(tile, dirty, valid);
        let rx = update.min.x - rect.min.x;
        let ry = update.min.y - rect.min.y;
        VirtualBind {
            origin: DeviceIntPoint { x: (offset.x - rx) as i32, y: (offset.y - ry) as i32 },
            dirty_origin: DeviceIntPoint {
                x: (offset.x + dirty.min.x - rx) as i32,
                y: (offset.y + dirty.min.y - ry) as i32,
            },
            dirty_size: DeviceIntSize {
                width: (dirty.max.x - dirty.min.x) as i32,
                height: (dirty.max.y - dirty.min.y) as i32,
            },
            clear: if self.clears_tile(dirty, valid) {
                Some(
                    ClearedPart {
                        origin: offset,
                        size: DeviceIntSize {
                            width: (update.max.x - update.min.x) as i32,
                            height: (update.max.y - update.min.y) as i32,
                        },
                    },
                )
            } else {
                None
            },
        }
    }

    /// The coordinates of `virtual_bind` stay within range.
    pub open spec fn virtual_bind_fits(
        self,
        tile: TileIndex,
        dirty: DeviceIntRect,
        valid: DeviceIntRect,
        offset: DeviceIntPoint,
    ) -> bool {
        let rect = tile_rect(self.virtual_offset, self.tile_size, tile);
        let update = self.update_rect(tile, dirty, valid);
        let rx = update.min.x - rect.min.x;
        let ry = update.min.y - rect.min.y;
        &&& i32::MIN <= rx <= i32::MAX
        &&& i32::MIN <= ry <= i32::MAX
        &&& i32::MIN <= offset.x - rx <= i32::MAX
        &&& i32::MIN <= offset.y - ry <= i32::MAX
        &&& i32::MIN <= offset.x + dirty.min.x <= i32::MAX
        &&& i32::MIN <= offset.y + dirty.min.y <= i32::MAX
        &&& i32::MIN <= offset.x + dirty.min.x - rx <= i32::MAX
        &&& i32::MIN <= offset.y + dirty.min.y - ry <= i32::MAX
        &&& size_in_range(dirty)
    }

    /// Whether the coordinates of `virtual_bind` stay within range, where `update` is the part of
    /// the surface that was opened.
    pub fn check_virtual_bind(
        &self,
        tile: TileIndex,
        dirty: DeviceIntRect,
        valid: DeviceIntRect,
        update: DeviceIntRect,
        offset: DeviceIntPoint,
    ) -> (b: bool)
        requires
            self.bind_fits(tile, dirty, valid),
            update == self.update_rect(tile, dirty, valid),
        ensures
            b == self.virtual_bind_fits(tile, dirty, valid, offset),
    {
        let lo: i64 = i32::MIN as i64;
        let hi: i64 = i32::MAX as i64;
        let rect = tile_virtual_rect(self.virtual_offset, self.tile_size, tile.0, tile.1);
        let rx: i64 = update.min.x as i64 - rect.min.x as i64;
        let ry: i64 = update.min.y as i64 - rect.min.y as i64;
        let ox: i64 = offset.x as i64;
        let oy: i64 = offset.y as i64;
        let dx: i64 = ox + dirty.min.x as i64;
        let dy: i64 = oy + dirty.min.y as i64;
        let w: i64 = dirty.max.x as i64 - dirty.min.x as i64;
        let h: i64 = dirty.max.y as i64 - dirty.min.y as i64;
        lo <= rx && rx <= hi && lo <= ry && ry <= hi && lo <= ox - rx && ox - rx <= hi && lo <= oy
            - ry && oy - ry <= hi && lo <= dx && dx <= hi && lo <= dy && dy <= hi && lo <= dx - rx
            && dx - rx <= hi && lo <= dy - ry && dy - ry <= hi && lo <= w && w <= hi && lo <= h && h
            <= hi
    }

    /// Takes in that a virtual surface was opened for drawing a tile.
    pub fn settle_bind_virtual(
        &mut self,
        tile: TileIndex,
        dirty: DeviceIntRect,
        valid: DeviceIntRect,
        update: DeviceIntRect,
        offset: DeviceIntPoint,
    ) -> (bind: VirtualBind)
        requires
            old(self).wf(),
            old(self).storage is Virtual,
            old(self).bind_fits(tile, dirty, valid),
            update == old(self).update_rect(tile, dirty, valid),
            old(self).virtual_bind_fits(tile, dirty, valid, offset),
        ensures
            final(self).wf(),
            bind == old(self).virtual_bind(tile, dirty, valid, offset),
            final(self).frame_coverage@ == (if dirty.covers(valid) {
                old(self).frame_coverage@.insert(tile)
            } else {
                old(self).frame_coverage@
            }),
            *final(self) == (SurfaceEntry {
                frame_coverage: final(self).frame_coverage,
                frame_drawn_partial: true,
                ..*old(self)
            }),
    {
        let rect = tile_virtual_rect(self.virtual_offset, self.tile_size, tile.0, tile.1);
        let r_min_x: i32 = update.min.x - rect.min.x;
        let r_min_y: i32 = update.min.y - rect.min.y;
        self.frame_coverage.note_tile(tile, dirty, valid);
        self.frame_drawn_partial = true;
        VirtualBind {
            origin: DeviceIntPoint::new(offset.x - r_min_x, offset.y - r_min_y),
            dirty_origin: DeviceIntPoint::new(
                offset.x + dirty.min.x - r_min_x,
                offset.y + dirty.min.y - r_min_y,
            ),
            dirty_size: dirty.size(),
            clear: if !self.is_opaque && dirty == valid {
                Some(ClearedPart { origin: offset, size: update.size() })
            } else {
                None
            },
        }
    }

    /// The anchor of the content that the visual shows.
    pub open spec fn shown_anchor(self) -> DeviceIntPoint {
        match self.storage {
            SurfaceStorage::SwapChain(sc) if sc.displayed_anchor is Some
                => sc.displayed_anchor->0,
            _ => DeviceIntPoint { x: 0, y: 0 },
        }
    }

    /// Places the surface: remembers the offset and the refined clip, and returns the anchor of
    /// the content on display, which the visual's offset is computed from. This is the anchor of
    /// what is attached, not of what is being drawn to.
    pub fn place(&mut self, transform_offset: (i32, i32), clip_rect: DeviceIntRect) -> (r: (
        LastPlacement,
        DeviceIntPoint,
    ))
        requires
            old(self).wf(),
        ensures
            final(self).wf(),
            r.0 == (LastPlacement {
                transform_offset,
                clip_rect: crate::tiles::refined_clip(
                    clip_rect,
                    old(self).is_opaque,
                    old(self).content_valid_union,
                ),
            }),
            r.1 == old(self).shown_anchor(),
            *final(self) == (SurfaceEntry { last_placement: Some(r.0), ..*old(self) }),
    {
        let content_anchor = match &self.storage {
            SurfaceStorage::SwapChain(sc) => match sc.displayed_anchor {
                Some(a) => a,
                None => DeviceIntPoint::new(0, 0),
            },
            _ => DeviceIntPoint::new(0, 0),
        };
        let clip_rect = crate::tiles::refine_opaque_clip(
            clip_rect,
            self.is_opaque,
            self.content_valid_union,
        );
        let placement = LastPlacement { transform_offset, clip_rect };
        self.last_placement = Some(placement);
        (placement, content_anchor)
    }
}

/// The visual's offset follows the content that is on display: the anchor of the flip chain once
/// that is attached, and the virtual space while the fallback is shown.
pub proof fn law_anchor_follows_the_display(entry: SurfaceEntry)
    requires
        entry.wf(),
    ensures
        entry.storage matches SurfaceStorage::SwapChain(sc) ==> {
            &&& sc.content_attached ==> entry.shown_anchor() == sc.anchor
            &&& sc.fallback_virtual is Some ==> entry.shown_anchor() == (DeviceIntPoint {
                x: 0,
                y: 0,
            })
        },
        !(entry.storage is SwapChain) ==> entry.shown_anchor() == (DeviceIntPoint { x: 0, y: 0 }),
{
}

/// A flip chain is attached to its visual only by a frame that has drawn every tile in full, so
/// what comes on display is complete.
pub proof fn law_only_complete_content_is_attached(
    before: SurfaceEntry,
    ctx: FrameContext,
    action: EndFrameAction,
    after: SurfaceEntry,
)
    requires
        before.planned(ctx, action, after),
        action is PresentFull,
    ensures
        before.storage matches SurfaceStorage::SwapChain(sc) && covers_all(
            sc.coverage@,
            before.tiles@,
        ) && sc.drawn_this_frame && !sc.geometry_changed(before.extent()),
{
    if let SurfaceStorage::SwapChain(sc) = before.storage {
        assert(sc.planned(
            before.tiles,
            before.virtual_offset,
            before.tile_size,
            ctx,
            action,
            after.storage->SwapChain_0,
        ));
    }
}

/// No surface is promoted before its cooldown has passed, while its window is being resized, or
/// where it is not opaque; and none before it has been drawn in enough frames, and repainted in full
/// in enough of them in a row.
pub proof fn law_promotion_is_earned(
    before: SurfaceEntry,
    ctx: FrameContext,
    action: EndFrameAction,
    after: SurfaceEntry,
)
    requires
        before.planned(ctx, action, after),
        before.promote_streak < u32::MAX,
        action is Promote,
    ensures
        before.storage is Virtual,
        before.is_opaque,
        !ctx.resize_active,
        ctx.mode == StorageMode::Hybrid,
        ctx.frame_counter >= before.promote_blocked_until,
        covers_all(before.frame_coverage@, before.tiles@),
        before.promote_streak + 1 >= PROMOTE_STREAK,
        after.drawn_frames > PROMOTE_MIN_AGE_FRAMES,
        !ctx.promote_disabled,
        ctx.has_factory,
        before.extent() == Some(action->Promote_0),
        dense(before.tiles.tiles@, before.tile_size, action->Promote_0),
{
    if let SurfaceStorage::SwapChain(sc) = before.storage {
        assert(sc.planned(
            before.tiles,
            before.virtual_offset,
            before.tile_size,
            ctx,
            action,
            after.storage->SwapChain_0,
        ));
    }
}

/// A demotion that no resize asked for keeps the surface from being promoted for the whole of
/// its cooldown, whatever it draws meanwhile.
pub proof fn law_demotion_blocks_promotion(
    before: SurfaceEntry,
    demoted: SurfaceEntry,
    new_virtual: u64,
    demoted_at: u64,
    ctx: FrameContext,
    action: EndFrameAction,
    after: SurfaceEntry,
)
    requires
        demoted_at + crate::surface::DEMOTE_COOLDOWN_CAP <= u64::MAX,
        before.demoted(new_virtual, false, demoted_at, demoted),
        demoted.planned(ctx, action, after),
        ctx.frame_counter < demoted_at + cooldown_frames(
            saturating_inc(before.demote_count) as int,
        ),
    ensures
        !(action is Promote),
        after.promote_streak == 0,
        after.promote_blocked_until == demoted.promote_blocked_until,
{
    crate::surface::law_cooldown_grows_to_the_cap(
        saturating_inc(before.demote_count) as int,
        saturating_inc(before.demote_count) as int,
    );
}

/// The end of one frame of a surface: what it was, what was done, and what it is left as.
pub struct EndedFrame {
    pub before: SurfaceEntry,
    pub ctx: FrameContext,
    pub action: EndFrameAction,
    pub after: SurfaceEntry,
}

impl EndedFrame {
    /// A frame of a virtual surface whose counters can still count.
    pub open spec fn valid(self) -> bool {
        &&& self.before.storage is Virtual
        &&& self.before.promote_streak < u32::MAX
        &&& self.before.planned(self.ctx, self.action, self.after)
    }

    /// Something was drawn.
    pub open spec fn drawn(self) -> bool {
        self.before.frame_coverage@ != Set::<TileIndex>::empty() || self.before.frame_drawn_partial
    }

    /// A frame that counts for a promotion: every tile was repainted in full, the surface is old
    /// enough, and it is not in its cooldown.
    pub open spec fn counts(self) -> bool {
        &&& covers_all(self.before.frame_coverage@, self.before.tiles@)
        &&& self.after.drawn_frames > PROMOTE_MIN_AGE_FRAMES
        &&& self.ctx.frame_counter >= self.before.promote_blocked_until
    }
}

/// The ends of the frames of a virtual surface in a row, from where it was made, or came back from a
/// flip chain. What is drawn in between leaves the counters alone.
pub open spec fn frames_in_a_row(run: Seq<EndedFrame>) -> bool
    decreases run.len(),
{
    if run.len() == 0 {
        true
    } else {
        &&& run.last().valid()
        &&& frames_in_a_row(run.drop_last())
        &&& if run.len() == 1 {
            run[0].before.promote_streak == 0
        } else {
            let last = run[run.len() - 2].after;
            run.last().before.promote_streak == last.promote_streak
                && run.last().before.drawn_frames == last.drawn_frames
        }
    }
}

/// How many of the frames were drawn in.
pub open spec fn frames_drawn(run: Seq<EndedFrame>) -> nat
    decreases run.len(),
{
    if run.len() == 0 {
        0
    } else {
        frames_drawn(run.drop_last()) + if run.last().drawn() {
            1nat
        } else {
            0
        }
    }
}

/// The streak is the number of frames up to now that count, all in a row, and the age grows by the
/// frames that were drawn in.
pub proof fn lemma_streak_counts_frames(run: Seq<EndedFrame>)
    requires
        run.len() > 0,
        frames_in_a_row(run),
    ensures
        run.last().after.promote_streak <= run.len(),
        forall|i: int|
            run.len() - run.last().after.promote_streak <= i < run.len() ==> (
            #[trigger] run[i]).counts(),
        run.last().after.drawn_frames <= run[0].before.drawn_frames + frames_drawn(run),
    decreases run.len(),
{
    let last = run.last();
    let rest = run.drop_last();
    assert(last == run[run.len() - 1]);
    if run.len() > 1 {
        lemma_streak_counts_frames(rest);
        assert(rest.last() == run[run.len() - 2]);
        assert forall|i: int|
            run.len() - last.after.promote_streak <= i < run.len() implies (
        #[trigger] run[i]).counts() by {
            if i < run.len() - 1 {
                assert(rest[i].counts());
            }
        }
    } else {
        reveal_with_fuel(frames_drawn, 2);
    }
}

/// A surface is promoted only at the end of a frame that is at least the third in a row in which
/// every one of its tiles was repainted in full, outside of its cooldown; and only once it was drawn
/// in more frames than the least age, those before this run among them.
pub proof fn law_promotion_needs_full_frames_in_a_row(run: Seq<EndedFrame>)
    requires
        run.len() > 0,
        frames_in_a_row(run),
        run.last().action is Promote,
    ensures
        run.len() >= PROMOTE_STREAK,
        forall|i: int|
            run.len() - PROMOTE_STREAK <= i < run.len() ==> (#[trigger] run[i]).counts(),
        run[0].before.drawn_frames + frames_drawn(run) > PROMOTE_MIN_AGE_FRAMES,
        !run.last().ctx.resize_active,
        run.last().ctx.mode == StorageMode::Hybrid,
        run.last().before.is_opaque,
{
    lemma_streak_counts_frames(run);
}

} // verus!
