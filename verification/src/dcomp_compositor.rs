//! The compositor of one window: its surfaces, the order in which they are shown, and the steps
//! of a frame.
//!
//! The graphics system itself is outside. Every call into it is asked for by a value that a
//! function here returns, and its outcome comes back as an argument of the next one. Objects of
//! the graphics system are named by numbers.
use std::collections::HashMap;
use vstd::prelude::*;

use crate::external_surface::ExternalStorage;
use crate::geometry::{DeviceIntPoint, DeviceIntRect, DeviceIntSize};
use crate::surface::{size_in_range, size_of_extent, SwapChainStorage};
use crate::surface_entry::{BindPlan, LastPlacement, SurfaceEntry, SurfaceStorage, VirtualBind};
use crate::table::{table_get_mut, table_ids};
use crate::tiles::TileIndex;

verus! {

broadcast use vstd::std_specs::hash::group_hash_axioms;

/// The side of the virtual space that a virtual surface spans.
pub const VIRTUAL_SURFACE_SIZE: i32 = 32768;

/// Which steps of setting the compositor up have succeeded.
#[derive(Clone, Copy, Debug)]
pub struct DeviceProbe {
    pub window: bool,
    pub d3d11_device: bool,
    pub d3d11_context: bool,
    pub d3d11_context1: bool,
    pub dxgi_device: bool,
    pub dxgi_adapter: bool,
    pub dxgi_factory: bool,
    pub dcomp_device: bool,
    pub target: bool,
    pub root_visual: bool,
    pub root_set: bool,
}

/// The tile that is being drawn into a virtual surface.
#[derive(Clone, Copy, Debug)]
pub struct BoundTile {
    pub surface_id: u64,
    pub pbuffer: u64,
    pub texture: u64,
    pub tile: TileIndex,
    pub dirty_origin: DeviceIntPoint,
    pub dirty_size: DeviceIntSize,
    pub texture_size: DeviceIntSize,
}

/// What has to be done when a tile has been drawn.
#[derive(Clone, Copy, PartialEq, Eq, Debug)]
pub struct UnbindAction {
    /// The virtual surface whose drawing ends.
    pub end_draw: Option<u64>,
    pub pbuffer: u64,
    pub texture: u64,
}

/// Whether the pass that converts video frames is there.
#[derive(Clone, Copy, PartialEq, Eq, Debug, Structural)]
pub enum ConvertPass {
    NotTried,
    Ready,
    Failed,
}

/// The compositor of one window.
#[derive(Debug)]
pub struct DCompNativeCompositor {
    /// The composition device and the root visual are there.
    pub alive: bool,
    pub has_context: bool,
    pub has_context1: bool,
    pub has_factory: bool,
    pub surfaces: HashMap<u64, SurfaceEntry>,
    pub bound: Option<BoundTile>,
    /// The surfaces of this frame, from bottom to top.
    pub frame_surfaces: Vec<u64>,
    pub promote_disabled: bool,
    pub regen_disabled: bool,
    pub frame_counter: u64,
    pub convert_pass: ConvertPass,
    pub external_batch_active: bool,
}

/// All that a compositor cannot do without is there.
pub open spec fn can_create(p: DeviceProbe) -> bool {
    p.window && p.d3d11_device && p.dxgi_device && p.dcomp_device && p.target && p.root_visual
        && p.root_set
}

/// Makes the compositor, or `None` where a part that it cannot do without is missing and the
/// window has to be drawn the ordinary way. Without a factory no surface is promoted; without
/// the newer device context no video is converted.
pub fn maybe_create(probe: DeviceProbe) -> (r: Option<DCompNativeCompositor>)
    ensures
        r is Some == can_create(probe),
        r matches Some(c) ==> {
            &&& c.wf()
            &&& c.alive
            &&& c.has_context == probe.d3d11_context
            &&& c.has_context1 == (probe.d3d11_context && probe.d3d11_context1)
            &&& c.has_factory == (probe.dxgi_adapter && probe.dxgi_factory)
            &&& c.surfaces@ == Map::<u64, SurfaceEntry>::empty()
            &&& c.bound is None
            &&& c.frame_surfaces@.len() == 0
            &&& !c.promote_disabled
            &&& !c.regen_disabled
            &&& c.frame_counter == 0
            &&& c.convert_pass == ConvertPass::NotTried
            &&& !c.external_batch_active
        },
{
    if !probe.window || !probe.d3d11_device || !probe.dxgi_device || !probe.dcomp_device
        || !probe.target || !probe.root_visual || !probe.root_set {
        return None;
    }
    Some(
        DCompNativeCompositor {
            alive: true,
            has_context: probe.d3d11_context,
            has_context1: probe.d3d11_context && probe.d3d11_context1,
            has_factory: probe.dxgi_adapter && probe.dxgi_factory,
            surfaces: HashMap::new(),
            bound: None,
            frame_surfaces: Vec::new(),
            promote_disabled: false,
            regen_disabled: false,
            frame_counter: 0,
            convert_pass: ConvertPass::NotTried,
            external_batch_active: false,
        },
    )
}

/// Every entry of the table is well formed.
pub open spec fn all_wf(surfaces: Map<u64, SurfaceEntry>) -> bool {
    forall|id: u64| surfaces.contains_key(id) ==> (#[trigger] surfaces[id]).wf()
}

impl DCompNativeCompositor {
    pub open spec fn wf(self) -> bool {
        all_wf(self.surfaces@)
    }

    /// The coordinates and counters of every surface leave room for the end of a frame.
    pub open spec fn fits(self) -> bool {
        forall|id: u64|
            self.surfaces@.contains_key(id) ==> (#[trigger] self.surfaces@[id]).coordinates_fit()
                && self.surfaces@[id].counters_fit()
    }

    /// Whether `fits` holds.
    pub fn check_fits(&self) -> (b: bool)
        requires
            self.wf(),
        ensures
            b == self.fits(),
    {
        let ids = table_ids(&self.surfaces);
        let mut i: usize = 0;
        while i < ids.len()
            invariant
                self.wf(),
                i <= ids@.len(),
                ids@.to_set() == self.surfaces@.dom(),
                forall|k: int|
                    0 <= k < i ==> self.surfaces@[#[trigger] ids@[k]].coordinates_fit()
                        && self.surfaces@[ids@[k]].counters_fit(),
            decreases ids@.len() - i,
        {
            assert(ids@.to_set().contains(ids@[i as int]));
            if let Some(e) = self.surfaces.get(&ids[i]) {
                let withheld: u32 = match &e.storage {
                    SurfaceStorage::SwapChain(sc) => sc.withheld_frames,
                    _ => 0,
                };
                if !e.check_coordinates() || e.promote_streak == u32::MAX || withheld
                    == u32::MAX {
                    return false;
                }
            }
            i = i + 1;
        }
        proof {
            assert forall|id: u64| self.surfaces@.contains_key(id) implies (
            #[trigger] self.surfaces@[id]).coordinates_fit()
                && self.surfaces@[id].counters_fit() by {
                assert(ids@.to_set().contains(id));
                let k = choose|k: int| 0 <= k < ids@.len() && ids@[k] == id;
                assert(self.surfaces@[ids@[k]].coordinates_fit());
            }
        }
        true
    }

    /// Enters a surface for tiles. `made` names the virtual surface and the visual that were
    /// made for it, or is `None` where that failed.
    pub fn create_surface(
        &mut self,
        id: u64,
        virtual_offset: DeviceIntPoint,
        tile_size: DeviceIntSize,
        is_opaque: bool,
        made: Option<(u64, u64)>,
    )
        requires
            old(self).wf(),
        ensures
            final(self).wf(),
            *final(self) == (DCompNativeCompositor {
                surfaces: final(self).surfaces,
                ..*old(self)
            }),
            if old(self).alive && made is Some {
                &&& final(self).surfaces@ == old(self).surfaces@.insert(
                    id,
                    final(self).surfaces@[id],
                )
                &&& final(self).surfaces@[id].storage == (SurfaceStorage::Virtual {
                    virtual_surface: (made->0).0,
                })
                &&& final(self).surfaces@[id].visual == (made->0).1
                &&& final(self).surfaces@[id].virtual_offset == virtual_offset
                &&& final(self).surfaces@[id].tile_size == tile_size
                &&& final(self).surfaces@[id].is_opaque == is_opaque
                &&& final(self).surfaces@[id].is_fresh()
            } else {
                final(self).surfaces@ == old(self).surfaces@
            },
    {
        if !self.alive {
            return ;
        }
        if let Some(m) = made {
            let entry = SurfaceEntry::new_virtual(m.0, m.1, virtual_offset, tile_size, is_opaque);
            self.surfaces.insert(id, entry);
        }
    }

    /// Enters an external surface. `visual` is `None` where the visual could not be made.
    pub fn create_external_surface(&mut self, id: u64, is_opaque: bool, visual: Option<u64>)
        requires
            old(self).wf(),
        ensures
            final(self).wf(),
            *final(self) == (DCompNativeCompositor {
                surfaces: final(self).surfaces,
                ..*old(self)
            }),
            if old(self).alive && visual is Some {
                &&& final(self).surfaces@ == old(self).surfaces@.insert(
                    id,
                    final(self).surfaces@[id],
                )
                &&& final(self).surfaces@[id].storage matches SurfaceStorage::External(ext)
                    && ext.swapchain is None && ext.attached_external_id is None
                &&& final(self).surfaces@[id].visual == visual->0
                &&& final(self).surfaces@[id].is_opaque == is_opaque
                &&& final(self).surfaces@[id].is_fresh()
            } else {
                final(self).surfaces@ == old(self).surfaces@
            },
    {
        if !self.alive {
            return ;
        }
        if let Some(v) = visual {
            self.surfaces.insert(id, SurfaceEntry::new_external(v, is_opaque));
        }
    }

    /// Enters a tile of a surface; an unknown surface is left alone.
    pub fn create_tile(&mut self, id: u64, tile: TileIndex)
        requires
            old(self).wf(),
        ensures
            final(self).wf(),
            *final(self) == (DCompNativeCompositor {
                surfaces: final(self).surfaces,
                ..*old(self)
            }),
            if old(self).surfaces@.contains_key(id) {
                &&& final(self).surfaces@ == old(self).surfaces@.insert(
                    id,
                    final(self).surfaces@[id],
                )
                &&& final(self).surfaces@[id].tiles@ == old(self).surfaces@[id].tiles@.insert(tile)
                &&& final(self).surfaces@[id] == (SurfaceEntry {
                    tiles: final(self).surfaces@[id].tiles,
                    ..old(self).surfaces@[id]
                })
            } else {
                final(self).surfaces@ == old(self).surfaces@
            },
    {
        if let Some(entry) = table_get_mut(&mut self.surfaces, id) {
            entry.create_tile(tile);
        }
    }

    /// Strikes a tile of a surface out.
    pub fn destroy_tile(&mut self, id: u64, tile: TileIndex)
        requires
            old(self).wf(),
        ensures
            final(self).wf(),
            *final(self) == (DCompNativeCompositor {
                surfaces: final(self).surfaces,
                ..*old(self)
            }),
            if old(self).surfaces@.contains_key(id) {
                &&& final(self).surfaces@ == old(self).surfaces@.insert(
                    id,
                    final(self).surfaces@[id],
                )
                &&& final(self).surfaces@[id].tiles@ == old(self).surfaces@[id].tiles@.remove(tile)
                &&& final(self).surfaces@[id] == (SurfaceEntry {
                    tiles: final(self).surfaces@[id].tiles,
                    content_valid_union: None,
                    ..old(self).surfaces@[id]
                })
            } else {
                final(self).surfaces@ == old(self).surfaces@
            },
    {
        if let Some(entry) = table_get_mut(&mut self.surfaces, id) {
            entry.destroy_tile(tile);
        }
    }

    /// Whether the coordinates that drawing a tile computes stay within range.
    pub fn check_bind(
        &self,
        id: u64,
        tile: TileIndex,
        dirty: DeviceIntRect,
        valid: DeviceIntRect,
    ) -> (b: bool)
        requires
            self.wf(),
        ensures
            b == (self.surfaces@.contains_key(id) ==> self.surfaces@[id].bind_fits(
                tile,
                dirty,
                valid,
            )),
    {
        match self.surfaces.get(&id) {
            Some(entry) => entry.check_bind(tile, dirty, valid),
            None => true,
        }
    }

    /// Decides where a tile is drawn to. An unknown surface takes no tile.
    pub fn bind(
        &mut self,
        id: u64,
        tile: TileIndex,
        dirty: DeviceIntRect,
        valid: DeviceIntRect,
    ) -> (plan: BindPlan)
        requires
            old(self).wf(),
            old(self).surfaces@.contains_key(id) ==> old(self).surfaces@[id].bind_fits(
                tile,
                dirty,
                valid,
            ),
        ensures
            final(self).wf(),
            *final(self) == (DCompNativeCompositor {
                surfaces: final(self).surfaces,
                ..*old(self)
            }),
            if old(self).surfaces@.contains_key(id) {
                let e = old(self).surfaces@[id];
                &&& final(self).surfaces@ == old(self).surfaces@.insert(
                    id,
                    SurfaceEntry { content_valid_union: e.grown_union(tile, valid), ..e },
                )
                &&& plan == (match e.storage {
                    SurfaceStorage::SwapChain(sc) => BindPlan::SwapChain {
                        swapchain: sc.swapchain,
                        pbuffer: sc.frame_pbuffer,
                        size: sc.size,
                    },
                    SurfaceStorage::Virtual { virtual_surface } => BindPlan::Virtual {
                        virtual_surface,
                        update: e.update_rect(tile, dirty, valid),
                        clear: e.clears_tile(dirty, valid),
                    },
                    SurfaceStorage::External(_) => BindPlan::Rejected,
                })
            } else {
                plan is Rejected && final(self).surfaces@ == old(self).surfaces@
            },
    {
        match table_get_mut(&mut self.surfaces, id) {
            Some(entry) => entry.plan_bind(tile, dirty, valid),
            None => BindPlan::Rejected,
        }
    }

    /// Takes in the outcome of opening a back buffer for a tile. Returns where the tile's origin
    /// lies in the buffer; the origin of the space where the tile is given up.
    pub fn bind_swapchain(
        &mut self,
        id: u64,
        tile: TileIndex,
        dirty: DeviceIntRect,
        valid: DeviceIntRect,
        pbuffer: Option<u64>,
        current: bool,
    ) -> (origin: Option<DeviceIntPoint>)
        requires
            old(self).wf(),
            old(self).surfaces@.contains_key(id),
            old(self).surfaces@[id].storage is SwapChain,
            old(self).surfaces@[id].bind_fits(tile, dirty, valid),
        ensures
            final(self).wf(),
            final(self).surfaces@ == old(self).surfaces@.insert(id, final(self).surfaces@[id]),
            ({
                let e = old(self).surfaces@[id];
                let before = e.storage->SwapChain_0;
                let entry = final(self).surfaces@[id];
                let after = entry.storage->SwapChain_0;
                let rect = crate::tiles::tile_rect(e.virtual_offset, e.tile_size, tile);
                let opened = if before.frame_pbuffer is Some {
                    before.frame_pbuffer
                } else {
                    pbuffer
                };
                let drawn = opened is Some && current;
                &&& entry.storage is SwapChain
                &&& entry == (SurfaceEntry { storage: entry.storage, ..e })
                &&& origin == (if drawn {
                    Some(
                        DeviceIntPoint {
                            x: (rect.min.x - before.anchor.x) as i32,
                            y: (rect.min.y - before.anchor.y) as i32,
                        },
                    )
                } else {
                    None
                })
                &&& drawn ==> after.drawn_this_frame && after.frame_dirty@
                    == before.frame_dirty@.push(
                    crate::tiles::moved(
                        dirty,
                        rect.min.x - before.anchor.x,
                        rect.min.y - before.anchor.y,
                    ),
                )
                &&& drawn ==> after.coverage@ == (if dirty.covers(valid) {
                    before.coverage@.insert(tile)
                } else {
                    before.coverage@
                })
                &&& after == (SwapChainStorage {
                    frame_pbuffer: opened,
                    coverage: after.coverage,
                    frame_dirty: after.frame_dirty,
                    drawn_this_frame: after.drawn_this_frame,
                    ..before
                })
                &&& !drawn ==> after == (SwapChainStorage { frame_pbuffer: opened, ..before })
            }),
            *final(self) == (DCompNativeCompositor {
                surfaces: final(self).surfaces,
                bound: if origin is Some {
                    None
                } else {
                    old(self).bound
                },
                ..*old(self)
            }),
            origin matches Some(o) ==> {
                let e = old(self).surfaces@[id];
                let before = e.storage->SwapChain_0;
                let after = final(self).surfaces@[id].storage->SwapChain_0;
                &&& o.x + before.anchor.x == e.virtual_offset.x + tile.0 * e.tile_size.width
                &&& o.y + before.anchor.y == e.virtual_offset.y + tile.1 * e.tile_size.height
                &&& after.frame_dirty@.len() == before.frame_dirty@.len() + 1
                &&& forall|px: int, py: int|
                    after.frame_dirty@.last().has(o.x + px, o.y + py) <==> #[trigger] dirty.has(
                        px,
                        py,
                    )
            },
    {
        let origin = match table_get_mut(&mut self.surfaces, id) {
            Some(entry) => entry.settle_bind_swapchain(tile, dirty, valid, pbuffer, current),
            None => None,
        };
        if origin.is_some() {
            self.bound = None;
        }
        origin
    }

    /// Takes in that a virtual surface was opened for a tile: `update` is the part that was
    /// opened, `offset` where it lies in the texture. Handed back is where the tile lies there
    /// and what has to be cleared first.
    pub fn bind_virtual(
        &mut self,
        id: u64,
        tile: TileIndex,
        dirty: DeviceIntRect,
        valid: DeviceIntRect,
        update: DeviceIntRect,
        opened: OpenedTile,
    ) -> (placed: VirtualBind)
        requires
            old(self).wf(),
            old(self).surfaces@.contains_key(id),
            old(self).surfaces@[id].storage is Virtual,
            old(self).surfaces@[id].bind_fits(tile, dirty, valid),
            update == old(self).surfaces@[id].update_rect(tile, dirty, valid),
            old(self).surfaces@[id].virtual_bind_fits(tile, dirty, valid, opened.offset),
        ensures
            final(self).wf(),
            ({
                let e = old(self).surfaces@[id];
                let entry = final(self).surfaces@[id];
                let bind = e.virtual_bind(tile, dirty, valid, opened.offset);
                &&& final(self).surfaces@ == old(self).surfaces@.insert(id, entry)
                &&& placed == bind
                &&& final(self).bound == Some(
                    BoundTile {
                        surface_id: id,
                        pbuffer: opened.pbuffer,
                        texture: opened.texture,
                        tile,
                        dirty_origin: bind.dirty_origin,
                        dirty_size: bind.dirty_size,
                        texture_size: opened.texture_size,
                    },
                )
                &&& entry.frame_coverage@ == (if dirty.covers(valid) {
                    e.frame_coverage@.insert(tile)
                } else {
                    e.frame_coverage@
                })
                &&& entry == (SurfaceEntry {
                    frame_coverage: entry.frame_coverage,
                    frame_drawn_partial: true,
                    ..e
                })
            }),
            *final(self) == (DCompNativeCompositor {
                surfaces: final(self).surfaces,
                bound: final(self).bound,
                ..*old(self)
            }),
    {
        let mut placed = VirtualBind {
            origin: DeviceIntPoint::new(0, 0),
            dirty_origin: DeviceIntPoint::new(0, 0),
            dirty_size: DeviceIntSize::new(0, 0),
            clear: None,
        };
        if let Some(entry) = table_get_mut(&mut self.surfaces, id) {
            let bind = entry.settle_bind_virtual(tile, dirty, valid, update, opened.offset);
            placed = bind;
            self.bound =
            Some(
                BoundTile {
                    surface_id: id,
                    pbuffer: opened.pbuffer,
                    texture: opened.texture,
                    tile,
                    dirty_origin: bind.dirty_origin,
                    dirty_size: bind.dirty_size,
                    texture_size: opened.texture_size,
                },
            );
        }
        placed
    }

    /// Ends the drawing of the tile that is bound, if any. The drawing of a virtual surface is
    /// ended; a surface that is gone has nothing to end.
    pub fn unbind(&mut self) -> (action: Option<UnbindAction>)
        requires
            old(self).wf(),
        ensures
            *final(self) == (DCompNativeCompositor { bound: None, ..*old(self) }),
            action == (match old(self).bound {
                Some(b) => Some(
                    UnbindAction {
                        end_draw: if old(self).surfaces@.contains_key(b.surface_id)
                            && old(self).surfaces@[b.surface_id].storage is Virtual {
                            Some(old(self).surfaces@[b.surface_id].storage->virtual_surface)
                        } else {
                            None
                        },
                        pbuffer: b.pbuffer,
                        texture: b.texture,
                    },
                ),
                None => None,
            }),
    {
        match self.bound.take() {
            Some(b) => {
                let end_draw = match self.surfaces.get(&b.surface_id) {
                    Some(entry) => match &entry.storage {
                        SurfaceStorage::Virtual { virtual_surface } => Some(*virtual_surface),
                        _ => None,
                    },
                    None => None,
                };
                Some(UnbindAction { end_draw, pbuffer: b.pbuffer, texture: b.texture })
            },
            None => None,
        }
    }
}

/// What opening a virtual surface for drawing gave.
#[derive(Clone, Copy, PartialEq, Eq, Debug, Structural)]
pub struct OpenedTile {
    pub pbuffer: u64,
    pub texture: u64,
    pub offset: DeviceIntPoint,
    pub texture_size: DeviceIntSize,
}

/// The texture that a virtual surface hands out when drawing begins.
#[derive(Clone, Copy, PartialEq, Eq, Debug, Structural)]
pub struct BegunDraw {
    pub texture: u64,
    pub offset: DeviceIntPoint,
    pub texture_size: DeviceIntSize,
}

/// How far the opening of a virtual surface came before it failed.
#[derive(Clone, Copy, PartialEq, Eq, Debug, Structural)]
pub enum OpenStage {
    /// Drawing did not begin.
    NotBegun,
    /// Drawing began; its texture could not be wrapped.
    NotWrapped,
    /// The texture was wrapped; it could not be made current.
    NotCurrent,
}

/// What the host does to take a failed opening back.
#[derive(Clone, Copy, PartialEq, Eq, Debug, Structural)]
pub struct BindCleanup {
    pub destroy_pbuffer: bool,
    pub release_texture: bool,
    pub end_draw: bool,
    /// The renderer is told to draw here: nowhere in particular.
    pub origin: DeviceIntPoint,
}

/// Whether a virtual surface is open for drawing: drawing has begun, its texture is wrapped and
/// current. A step that was not reached does not count.
pub fn open_virtual(begun: Option<BegunDraw>, pbuffer: Option<u64>, current: bool) -> (r: Result<
    OpenedTile,
    OpenStage,
>)
    ensures
        r == (match (begun, pbuffer) {
            (None, _) => Err(OpenStage::NotBegun),
            (Some(_), None) => Err(OpenStage::NotWrapped),
            (Some(b), Some(p)) => if current {
                Ok(
                    OpenedTile {
                        pbuffer: p,
                        texture: b.texture,
                        offset: b.offset,
                        texture_size: b.texture_size,
                    },
                )
            } else {
                Err(OpenStage::NotCurrent)
            },
        }),
        r matches Err(stage) ==> (stage !is NotBegun <==> begun is Some) && (stage is NotCurrent
            <==> begun is Some && pbuffer is Some),
{
    let b = match begun {
        Some(b) => b,
        None => {
            return Err(OpenStage::NotBegun);
        },
    };
    let p: u64 = match pbuffer {
        Some(p) => p,
        None => {
            return Err(OpenStage::NotWrapped);
        },
    };
    if !current {
        return Err(OpenStage::NotCurrent);
    }
    Ok(
        OpenedTile {
            pbuffer: p,
            texture: b.texture,
            offset: b.offset,
            texture_size: b.texture_size,
        },
    )
}

/// A tile of a virtual surface is given up: what was opened for it is closed again. Drawing that
/// has begun is ended in any case, or the surface could not be drawn to again.
pub fn bind_virtual_failed(stage: OpenStage) -> (c: BindCleanup)
    ensures
        c == (BindCleanup {
            destroy_pbuffer: stage is NotCurrent,
            release_texture: stage !is NotBegun,
            end_draw: stage !is NotBegun,
            origin: DeviceIntPoint { x: 0, y: 0 },
        }),
{
    BindCleanup {
        destroy_pbuffer: matches!(stage, OpenStage::NotCurrent),
        release_texture: !matches!(stage, OpenStage::NotBegun),
        end_draw: !matches!(stage, OpenStage::NotBegun),
        origin: DeviceIntPoint::new(0, 0),
    }
}

/// What placing a surface asks for.
#[derive(Clone, Copy, PartialEq, Eq, Debug)]
pub enum AddSurface {
    /// Nothing is placed.
    Skipped,
    /// Place the visual for content with this anchor.
    Placed { placement: LastPlacement, virtual_offset: DeviceIntPoint, anchor: DeviceIntPoint },
    /// Place the visual at the clip and show the attached image, if any, at its size.
    External { attached: Option<u64>, size: DeviceIntSize },
}

impl DCompNativeCompositor {
    /// The batch of video conversions is open and can be closed.
    pub open spec fn batch_to_end(self) -> bool {
        self.external_batch_active && self.convert_pass == ConvertPass::Ready && self.has_context1
    }

    /// Closes the batch of video conversions. Returns whether the converter has to end it. This
    /// comes before any other drawing: while the batch is open, the device is in the
    /// converter's state.
    pub fn close_external_batch(&mut self) -> (end: bool)
        ensures
            end == old(self).batch_to_end(),
            *final(self) == (DCompNativeCompositor { external_batch_active: false, ..*old(self) }),
    {
        let end = self.external_batch_active && self.convert_pass == ConvertPass::Ready
            && self.has_context1;
        self.external_batch_active = false;
        end
    }

    /// Opens the batch of video conversions at the first one of a frame. Returns whether the
    /// converter has to begin it.
    pub fn open_external_batch(&mut self) -> (begin: bool)
        ensures
            begin == !old(self).external_batch_active,
            *final(self) == (DCompNativeCompositor { external_batch_active: true, ..*old(self) }),
    {
        let begin = !self.external_batch_active;
        self.external_batch_active = true;
        begin
    }

    /// Begins a frame: closes a batch that was left open, counts the frame and forgets the
    /// surfaces of the one before it. Returns whether the converter has to end the batch.
    pub fn begin_frame(&mut self) -> (end_batch: bool)
        requires
            old(self).wf(),
            old(self).frame_counter < u64::MAX,
        ensures
            final(self).wf(),
            end_batch == old(self).batch_to_end(),
            final(self).frame_counter == (if old(self).alive {
                old(self).frame_counter + 1
            } else {
                old(self).frame_counter as int
            }),
            final(self).frame_surfaces@ == (if old(self).alive {
                Seq::<u64>::empty()
            } else {
                old(self).frame_surfaces@
            }),
            *final(self) == (DCompNativeCompositor {
                external_batch_active: false,
                frame_counter: final(self).frame_counter,
                frame_surfaces: final(self).frame_surfaces,
                ..*old(self)
            }),
    {
        let end_batch = self.close_external_batch();
        if self.alive {
            self.frame_counter = self.frame_counter + 1;
            self.frame_surfaces.clear();
        }
        end_batch
    }

    /// Tiles are drawn from here on: the batch of video conversions is closed. Returns whether
    /// the converter has to end it.
    pub fn start_compositing(&mut self) -> (end_batch: bool)
        ensures
            end_batch == old(self).batch_to_end(),
            *final(self) == (DCompNativeCompositor { external_batch_active: false, ..*old(self) }),
    {
        self.close_external_batch()
    }

    /// Places a surface on top of those placed before it in this frame. An external surface with
    /// an empty clip is left out of the frame, and so is an unknown surface.
    pub fn add_surface(
        &mut self,
        id: u64,
        transform_offset: (i32, i32),
        clip_rect: DeviceIntRect,
    ) -> (r: AddSurface)
        requires
            old(self).wf(),
            size_in_range(clip_rect),
        ensures
            final(self).wf(),
            ({
                let known = old(self).surfaces@.contains_key(id);
                let e = old(self).surfaces@[id];
                let external = known && e.storage is External;
                let refined = crate::tiles::refined_clip(
                    clip_rect,
                    e.is_opaque,
                    e.content_valid_union,
                );
                let placement = LastPlacement { transform_offset, clip_rect: refined };
                let skipped = !known || (external && clip_rect.empty());
                &&& r == (if skipped {
                    AddSurface::Skipped
                } else if external {
                    AddSurface::External {
                        attached: e.storage->External_0.attached_external_id,
                        size: size_of_extent(clip_rect),
                    }
                } else {
                    AddSurface::Placed {
                        placement,
                        virtual_offset: e.virtual_offset,
                        anchor: e.shown_anchor(),
                    }
                })
                &&& final(self).frame_surfaces@ == (if skipped {
                    old(self).frame_surfaces@
                } else {
                    old(self).frame_surfaces@.push(id)
                })
                &&& final(self).surfaces@ == (if known && !external {
                    old(self).surfaces@.insert(
                        id,
                        SurfaceEntry { last_placement: Some(placement), ..e },
                    )
                } else {
                    old(self).surfaces@
                })
            }),
            *final(self) == (DCompNativeCompositor {
                surfaces: final(self).surfaces,
                frame_surfaces: final(self).frame_surfaces,
                ..*old(self)
            }),
    {
        let mut external: Option<Option<u64>> = None;
        match self.surfaces.get(&id) {
            Some(entry) => {
                if let SurfaceStorage::External(ext) = &entry.storage {
                    external = Some(ext.attached_external_id);
                }
            },
            None => {
                return AddSurface::Skipped;
            },
        }
        if let Some(attached) = external {
            if clip_rect.is_empty() {
                return AddSurface::Skipped;
            }
            self.frame_surfaces.push(id);
            return AddSurface::External { attached, size: clip_rect.size() };
        }
        let mut result = AddSurface::Skipped;
        if let Some(entry) = table_get_mut(&mut self.surfaces, id) {
            let virtual_offset = entry.virtual_offset;
            let (placement, anchor) = entry.place(transform_offset, clip_rect);
            result = AddSurface::Placed { placement, virtual_offset, anchor };
        }
        self.frame_surfaces.push(id);
        result
    }

    /// Remembers the image that an external surface shows.
    pub fn attach_external_image(&mut self, id: u64, external_id: u64)
        requires
            old(self).wf(),
        ensures
            final(self).wf(),
            *final(self) == (DCompNativeCompositor {
                surfaces: final(self).surfaces,
                ..*old(self)
            }),
            if old(self).is_external(id) {
                final(self).surfaces@ == old(self).surfaces@.insert(
                    id,
                    SurfaceEntry {
                        storage: SurfaceStorage::External(
                            ExternalStorage {
                                attached_external_id: Some(external_id),
                                ..old(self).external(id)
                            },
                        ),
                        ..old(self).surfaces@[id]
                    },
                )
            } else {
                final(self).surfaces@ == old(self).surfaces@
            },
    {
        if let Some(entry) = table_get_mut(&mut self.surfaces, id) {
            if let SurfaceStorage::External(ext) = &mut entry.storage {
                ext.attach_image(external_id);
            }
        }
        proof {
            if old(self).surfaces@.contains_key(id) && !old(self).is_external(id) {
                assert(self.surfaces@ =~= old(self).surfaces@);
            }
        }
    }

    /// The id names an external surface.
    pub open spec fn is_external(self, id: u64) -> bool {
        self.surfaces@.contains_key(id) && self.surfaces@[id].storage is External
    }

    /// The storage of an external surface.
    pub open spec fn external(self, id: u64) -> ExternalStorage {
        self.surfaces@[id].storage->External_0
    }
}

/// The table with another storage of an external surface.
pub open spec fn with_external(
    surfaces: Map<u64, SurfaceEntry>,
    id: u64,
    ext: ExternalStorage,
) -> Map<u64, SurfaceEntry> {
    surfaces.insert(
        id,
        SurfaceEntry { storage: SurfaceStorage::External(ext), ..surfaces[id] },
    )
}

impl DCompNativeCompositor {
    /// Whether a flip chain of this size can be made at all.
    pub fn chain_can_be_made(&self, size: DeviceIntSize) -> (b: bool)
        ensures
            b == (self.has_factory && size.width > 0 && size.height > 0),
    {
        self.has_factory && size.width > 0 && size.height > 0
    }

    /// Whether the converter has to be made: at the first video, and never again after a
    /// failure.
    pub fn needs_convert_pass(&self) -> (b: bool)
        ensures
            b == (self.convert_pass == ConvertPass::NotTried),
    {
        self.convert_pass == ConvertPass::NotTried
    }

    /// Takes in whether the converter could be made.
    pub fn settle_convert_pass(&mut self, made: bool)
        ensures
            *final(self) == (DCompNativeCompositor {
                convert_pass: if old(self).convert_pass != ConvertPass::NotTried {
                    old(self).convert_pass
                } else if made {
                    ConvertPass::Ready
                } else {
                    ConvertPass::Failed
                },
                ..*old(self)
            }),
    {
        if self.convert_pass == ConvertPass::NotTried {
            self.convert_pass = if made {
                ConvertPass::Ready
            } else {
                ConvertPass::Failed
            };
        }
    }

    /// Whether an external surface needs a flip chain of `size`.
    pub fn external_needs_chain(&self, id: u64, size: DeviceIntSize, resize_active: bool) -> (b:
        bool)
        requires
            self.wf(),
        ensures
            b == (self.is_external(id) && (self.external(id).swapchain is None || self.external(
                id,
            ).swapchain_size != size) && !resize_active),
    {
        match self.surfaces.get(&id) {
            Some(entry) => match &entry.storage {
                SurfaceStorage::External(ext) => ext.needs_chain(size, resize_active),
                _ => false,
            },
            None => false,
        }
    }

    /// Takes in the outcome of making a flip chain of `size` for an external surface.
    pub fn install_external_chain(&mut self, id: u64, created: Option<u64>, size: DeviceIntSize)
        requires
            old(self).wf(),
            old(self).is_external(id),
        ensures
            final(self).wf(),
            final(self).is_external(id),
            final(self).surfaces@ == with_external(
                old(self).surfaces@,
                id,
                final(self).external(id),
            ),
            final(self).external(id).swapchain == created,
            final(self).external(id).swapchain_size == (if created is Some {
                size
            } else {
                DeviceIntSize { width: 0, height: 0 }
            }),
            !final(self).external(id).content_attached,
            final(self).external(id).last_presented is None,
            final(self).external(id).attached_external_id == old(self).external(
                id,
            ).attached_external_id,
            final(self).external(id).rtv_cache@ == Map::<u64, u64>::empty(),
            *final(self) == (DCompNativeCompositor {
                surfaces: final(self).surfaces,
                ..*old(self)
            }),
    {
        if let Some(entry) = table_get_mut(&mut self.surfaces, id) {
            if let SurfaceStorage::External(ext) = &mut entry.storage {
                ext.install_chain(created, size);
            }
        }
    }

    /// What the frame `seq` of ring `ring_id` is converted into: a flip chain and its size.
    /// There is none where the frame was presented already, or where the flip chain, the
    /// converter or the device context is missing.
    pub open spec fn external_target_of(self, id: u64, ring_id: u64, seq: u64) -> Option<
        (u64, DeviceIntSize),
    > {
        if self.is_external(id) && self.convert_pass == ConvertPass::Ready && self.has_context1 {
            self.external(id).target(ring_id, seq)
        } else {
            None
        }
    }

    pub fn external_target(&self, id: u64, ring_id: u64, seq: u64) -> (r: Option<
        (u64, DeviceIntSize),
    >)
        requires
            self.wf(),
        ensures
            r == self.external_target_of(id, ring_id, seq),
    {
        if self.convert_pass != ConvertPass::Ready || !self.has_context1 {
            return None;
        }
        match self.surfaces.get(&id) {
            Some(entry) => match &entry.storage {
                SurfaceStorage::External(ext) => ext.present_target(ring_id, seq),
                _ => None,
            },
            None => None,
        }
    }

    /// The render target that was made for a back buffer, if any.
    pub fn external_view(&self, id: u64, back: u64) -> (r: Option<u64>)
        requires
            self.wf(),
        ensures
            r == (if self.is_external(id) && self.external(id).rtv_cache@.contains_key(back) {
                Some(self.external(id).rtv_cache@[back])
            } else {
                None::<u64>
            }),
    {
        match self.surfaces.get(&id) {
            Some(entry) => match &entry.storage {
                SurfaceStorage::External(ext) => ext.cached_view(back),
                _ => None,
            },
            None => None,
        }
    }

    /// Remembers the render target of a back buffer.
    pub fn remember_external_view(&mut self, id: u64, back: u64, view: u64)
        requires
            old(self).wf(),
            old(self).is_external(id),
            old(self).external(id).swapchain is Some,
        ensures
            final(self).wf(),
            final(self).is_external(id),
            final(self).surfaces@ == with_external(
                old(self).surfaces@,
                id,
                final(self).external(id),
            ),
            final(self).external(id).rtv_cache@ == old(self).external(id).rtv_cache@.insert(
                back,
                view,
            ),
            final(self).external(id) == (ExternalStorage {
                rtv_cache: final(self).external(id).rtv_cache,
                ..old(self).external(id)
            }),
            *final(self) == (DCompNativeCompositor {
                surfaces: final(self).surfaces,
                ..*old(self)
            }),
    {
        if let Some(entry) = table_get_mut(&mut self.surfaces, id) {
            if let SurfaceStorage::External(ext) = &mut entry.storage {
                ext.remember_view(back, view);
            }
        }
    }

    /// Takes in the outcome of converting and presenting a frame of a video. Attaching the flip
    /// chain to the visual is asked for after its first present.
    pub fn settle_external_present(
        &mut self,
        id: u64,
        ring_id: u64,
        seq: u64,
        presented: bool,
        content_set: bool,
    )
        requires
            old(self).wf(),
            old(self).is_external(id),
            old(self).external(id).swapchain is Some,
        ensures
            final(self).wf(),
            final(self).surfaces@ == with_external(
                old(self).surfaces@,
                id,
                if presented {
                    ExternalStorage {
                        last_presented: Some((ring_id, seq)),
                        content_attached: old(self).external(id).content_attached || content_set,
                        ..old(self).external(id)
                    }
                } else {
                    old(self).external(id)
                },
            ),
            *final(self) == (DCompNativeCompositor {
                surfaces: final(self).surfaces,
                ..*old(self)
            }),
    {
        if let Some(entry) = table_get_mut(&mut self.surfaces, id) {
            if let SurfaceStorage::External(ext) = &mut entry.storage {
                ext.settle_present(ring_id, seq, presented, content_set);
            }
        }
    }

    /// Whether the flip chain of an external surface still has to be attached to its visual.
    pub fn external_needs_attach(&self, id: u64) -> (b: bool)
        requires
            self.wf(),
        ensures
            b == (self.is_external(id) && !self.external(id).content_attached),
    {
        match self.surfaces.get(&id) {
            Some(entry) => match &entry.storage {
                SurfaceStorage::External(ext) => !ext.content_attached,
                _ => false,
            },
            None => false,
        }
    }

    /// The visuals of the frame's surfaces that are still there, from bottom to top.
    pub open spec fn shown_visuals(self, ids: Seq<u64>) -> Seq<u64>
        decreases ids.len(),
    {
        if ids.len() == 0 {
            seq![]
        } else {
            let front = self.shown_visuals(ids.drop_last());
            if self.surfaces@.contains_key(ids.last()) {
                front.push(self.surfaces@[ids.last()].visual)
            } else {
                front
            }
        }
    }

    /// The visuals to show, from bottom to top: every surface that was placed in this frame, in
    /// the order in which it was placed. None is left out for being hidden behind another.
    pub fn frame_visuals(&self) -> (out: Vec<u64>)
        requires
            self.wf(),
        ensures
            out@ == (if self.alive {
                self.shown_visuals(self.frame_surfaces@)
            } else {
                Seq::<u64>::empty()
            }),
    {
        let mut out: Vec<u64> = Vec::new();
        if !self.alive {
            return out;
        }
        let mut i: usize = 0;
        while i < self.frame_surfaces.len()
            invariant
                self.wf(),
                i <= self.frame_surfaces@.len(),
                out@ == self.shown_visuals(self.frame_surfaces@.take(i as int)),
            decreases self.frame_surfaces@.len() - i,
        {
            proof {
                assert(self.frame_surfaces@.take(i + 1).drop_last() =~= self.frame_surfaces@.take(
                    i as int,
                ));
            }
            if let Some(entry) = self.surfaces.get(&self.frame_surfaces[i]) {
                out.push(entry.visual);
            }
            i = i + 1;
        }
        assert(self.frame_surfaces@.take(self.frame_surfaces@.len() as int)
            =~= self.frame_surfaces@);
        out
    }

    /// Strikes a surface out. Returns the tile that was being drawn into it, which is dropped
    /// without ending its drawing, and the drawing surface of its frame, if any.
    pub fn destroy_surface(&mut self, id: u64) -> (r: (Option<BoundTile>, Option<u64>))
        requires
            old(self).wf(),
        ensures
            final(self).wf(),
            final(self).surfaces@ == old(self).surfaces@.remove(id),
            ({
                let bound_here = old(self).bound is Some && (old(self).bound->0).surface_id == id;
                &&& r.0 == (if bound_here {
                    old(self).bound
                } else {
                    None
                })
                &&& final(self).bound == (if bound_here {
                    None
                } else {
                    old(self).bound
                })
            }),
            r.1 == (if old(self).surfaces@.contains_key(id) {
                pbuffer_of(old(self).surfaces@[id])
            } else {
                None
            }),
            *final(self) == (DCompNativeCompositor {
                surfaces: final(self).surfaces,
                bound: final(self).bound,
                ..*old(self)
            }),
    {
        let mut dropped: Option<BoundTile> = None;
        if let Some(b) = self.bound {
            if b.surface_id == id {
                dropped = Some(b);
                self.bound = None;
            }
        }
        let pbuffer = match self.surfaces.remove(&id) {
            Some(entry) => match entry.storage {
                SurfaceStorage::SwapChain(sc) => sc.frame_pbuffer,
                _ => None,
            },
            None => None,
        };
        (dropped, pbuffer)
    }

    /// Gives everything up. Returns the tile that was being drawn and the drawing surfaces of
    /// the frame, one for each surface that has one, in the order in which the table is walked; they
    /// are destroyed before the surfaces themselves. Doing it twice does no harm.
    pub fn release_all(&mut self) -> (r: (Option<BoundTile>, Vec<u64>))
        requires
            old(self).wf(),
        ensures
            final(self).wf(),
            !final(self).alive,
            final(self).surfaces@ == Map::<u64, SurfaceEntry>::empty(),
            final(self).bound is None,
            r.0 == old(self).bound,
            exists|ids: Seq<u64>|
                ids.no_duplicates() && ids.to_set() == old(self).surfaces@.dom() && r.1@
                    == #[trigger] pbuffers_of(old(self).surfaces@, ids),
            *final(self) == (DCompNativeCompositor {
                alive: false,
                surfaces: final(self).surfaces,
                bound: None,
                ..*old(self)
            }),
    {
        let dropped = self.bound.take();
        let mut pbuffers: Vec<u64> = Vec::new();
        let ids = table_ids(&self.surfaces);
        let mut i: usize = 0;
        assert(ids@.take(0) =~= Seq::<u64>::empty());
        while i < ids.len()
            invariant
                *self == (DCompNativeCompositor { bound: None, ..*old(self) }),
                i <= ids@.len(),
                ids@.to_set() == self.surfaces@.dom(),
                pbuffers@ == pbuffers_of(self.surfaces@, ids@.take(i as int)),
            decreases ids@.len() - i,
        {
            proof {
                assert(ids@.take(i + 1).drop_last() =~= ids@.take(i as int));
                assert(ids@.to_set().contains(ids@[i as int]));
            }
            if let Some(entry) = self.surfaces.get(&ids[i]) {
                if let SurfaceStorage::SwapChain(sc) = &entry.storage {
                    if let Some(p) = sc.frame_pbuffer {
                        pbuffers.push(p);
                    }
                }
            }
            i = i + 1;
        }
        assert(ids@.take(i as int) =~= ids@);
        assert(pbuffers@ == pbuffers_of(old(self).surfaces@, ids@));
        self.surfaces.clear();
        self.alive = false;
        (dropped, pbuffers)
    }
}

/// The drawing surface of the frame that a surface holds.
pub open spec fn pbuffer_of(entry: SurfaceEntry) -> Option<u64> {
    match entry.storage {
        SurfaceStorage::SwapChain(sc) => sc.frame_pbuffer,
        _ => None,
    }
}

/// The drawing surfaces that these surfaces hold, in their order.
pub open spec fn pbuffers_of(surfaces: Map<u64, SurfaceEntry>, ids: Seq<u64>) -> Seq<u64>
    decreases ids.len(),
{
    if ids.len() == 0 {
        Seq::empty()
    } else {
        let rest = pbuffers_of(surfaces, ids.drop_last());
        match pbuffer_of(surfaces[ids.last()]) {
            Some(p) => rest.push(p),
            None => rest,
        }
    }
}

/// Each surface gives its drawing surface once, and the others give none.
pub proof fn law_each_surface_gives_one_pbuffer(surfaces: Map<u64, SurfaceEntry>, ids: Seq<u64>)
    ensures
        pbuffers_of(surfaces, ids).len() == ids.filter(
            |id: u64| pbuffer_of(surfaces[id]) is Some,
        ).len(),
    decreases ids.len(),
{
    reveal(Seq::filter);
    if ids.len() > 0 {
        law_each_surface_gives_one_pbuffer(surfaces, ids.drop_last());
    }
}

} // verus!
