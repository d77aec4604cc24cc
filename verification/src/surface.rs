//! One compositor surface and the storage behind it.
//!
//! A surface starts on a virtual surface, which takes updates of any shape. An opaque surface
//! that is repainted in full for a while is promoted to a flip chain of two buffers; a flip
//! chain that cannot keep up with partial updates, or whose window is being resized, is demoted
//! again. What is on display must be complete and up to date at every moment, so the old
//! content stays attached until the new one has been presented in full.
use vstd::prelude::*;

use crate::geometry::{DeviceIntPoint, DeviceIntRect, DeviceIntSize};
use crate::region::{bounding, clip_rects, clipped_to, collapse_dirty_if_oversized, collapsed, without_all};
use crate::stale::{StaleTracker, MAX_STALE_RECTS};
use crate::tiles::{
    can_move, covers_all, extent_of, move_rect, moved, surface_extent, tile_in_range, tile_rect,
    tile_virtual_rect, tiles_are_dense, tiles_in_range, FrameCoverage, TileIndex, TileSet,
};

verus! {

/// Full repaints in a row after which a virtual surface is promoted.
pub const PROMOTE_STREAK: u32 = 3;

/// Frames a surface must have been drawn in before its full repaints count.
pub const PROMOTE_MIN_AGE_FRAMES: u32 = 30;

/// Withheld frames in a row after which a flip chain is demoted.
pub const DEMOTE_AFTER_WITHHOLD: u32 = 30;

/// Cooldown in frames after the first demotion.
pub const DEMOTE_COOLDOWN_BASE: u64 = 300;

/// The longest cooldown in frames.
pub const DEMOTE_COOLDOWN_CAP: u64 = 3600;

/// The most rectangles that a present takes as a hint.
pub const MAX_PRESENT_DIRTY_RECTS: usize = 16;

/// Whether flip chains are used at all.
#[derive(Clone, Copy, PartialEq, Eq, Debug, Structural)]
pub enum StorageMode {
    Hybrid,
    SurfaceOnly,
}

/// The cooldown after the `n`-th demotion: the base doubled up to four times, and capped.
pub open spec fn cooldown_frames(n: int) -> int {
    let frames = if n <= 1 {
        300int
    } else if n == 2 {
        600
    } else if n == 3 {
        1200
    } else if n == 4 {
        2400
    } else {
        4800
    };
    if frames <= DEMOTE_COOLDOWN_CAP {
        frames
    } else {
        DEMOTE_COOLDOWN_CAP as int
    }
}

/// How many frames must pass after the `demote_count`-th demotion before a surface may be
/// promoted again.
pub fn demote_cooldown(demote_count: u32) -> (frames: u64)
    ensures
        frames == cooldown_frames(demote_count as int),
{
    let n: u32 = demote_count.saturating_sub(1);
    let shift: u32 = if n < 4 { n } else { 4 };
    assert(300u64 << 0u32 == 300) by (bit_vector);
    assert(300u64 << 1u32 == 600) by (bit_vector);
    assert(300u64 << 2u32 == 1200) by (bit_vector);
    assert(300u64 << 3u32 == 2400) by (bit_vector);
    assert(300u64 << 4u32 == 4800) by (bit_vector);
    let frames: u64 = DEMOTE_COOLDOWN_BASE << shift;
    if frames <= DEMOTE_COOLDOWN_CAP {
        frames
    } else {
        DEMOTE_COOLDOWN_CAP
    }
}

/// A later demotion never has a shorter cooldown, and every cooldown lies between the base and
/// the cap.
pub proof fn law_cooldown_grows_to_the_cap(m: int, n: int)
    requires
        m <= n,
    ensures
        cooldown_frames(m) <= cooldown_frames(n),
        DEMOTE_COOLDOWN_BASE <= cooldown_frames(n) <= DEMOTE_COOLDOWN_CAP,
        n >= 5 ==> cooldown_frames(n) == DEMOTE_COOLDOWN_CAP,
{
}

/// A buffer of the given size, in its own coordinates.
pub open spec fn buffer_of(size: DeviceIntSize) -> DeviceIntRect {
    DeviceIntRect {
        min: DeviceIntPoint { x: 0, y: 0 },
        max: DeviceIntPoint { x: size.width, y: size.height },
    }
}

pub fn buffer_rect(size: DeviceIntSize) -> (r: DeviceIntRect)
    ensures
        r == buffer_of(size),
{
    DeviceIntRect::new(DeviceIntPoint::new(0, 0), DeviceIntPoint::new(size.width, size.height))
}

/// The dirty rectangles that a present is told of: those inside the buffer, or none where there
/// are too many of them.
pub open spec fn present_hint(dirty: Seq<DeviceIntRect>, size: DeviceIntSize) -> Seq<DeviceIntRect> {
    let inside = clipped_to(dirty, buffer_of(size));
    if inside.len() <= MAX_PRESENT_DIRTY_RECTS {
        inside
    } else {
        seq![]
    }
}

pub fn present_hint_rects(dirty: &[DeviceIntRect], size: DeviceIntSize) -> (out: Vec<DeviceIntRect>)
    ensures
        out@ == present_hint(dirty@, size),
{
    let inside = clip_rects(dirty, buffer_rect(size));
    if inside.len() <= MAX_PRESENT_DIRTY_RECTS {
        inside
    } else {
        Vec::new()
    }
}

/// What holds for all surfaces at the end of a frame.
#[derive(Clone, Copy, Debug)]
pub struct FrameContext {
    pub frame_counter: u64,
    pub mode: StorageMode,
    /// The window is being resized.
    pub resize_active: bool,
    /// A flip chain could not be made once: no promotion any more.
    pub promote_disabled: bool,
    /// A flip chain could not be made anew once: no regeneration any more.
    pub regen_disabled: bool,
    /// Flip chains can be made at all.
    pub has_factory: bool,
}

/// What is to be done for one surface at the end of a frame.
#[derive(Debug)]
pub enum EndFrameAction {
    Nothing,
    /// Make a flip chain that spans the extent.
    Promote(DeviceIntRect),
    /// Make the flip chain anew for the changed extent.
    Regenerate(DeviceIntRect),
    Demote,
    /// Present the back buffer; `attach` asks to attach the flip chain to the visual after it.
    PresentFull { attach: bool },
    /// Copy `catchup` from the buffer on display, where `copy` asks for it, and present with
    /// `hint`; an empty hint means the whole buffer.
    PresentPartial { copy: bool, catchup: Vec<DeviceIntRect>, hint: Vec<DeviceIntRect> },
    /// Keep the frame back.
    Withhold { demote: bool },
}

/// One copy out of the back buffer: `source` in buffer coordinates, `update` in the virtual
/// space.
#[derive(Clone, Copy, PartialEq, Eq, Debug, Structural)]
pub struct SeedCopy {
    pub update: DeviceIntRect,
    pub source: DeviceIntRect,
}

/// How a flip chain is turned back into a virtual surface.
#[derive(Debug)]
pub enum DemotionPlan {
    /// Keep the flip chain.
    Keep,
    /// Bring the virtual surface that is still on display up to date.
    SeedFallback { fallback: u64, copies: Vec<SeedCopy> },
    /// Fill a new virtual surface and attach it.
    SeedNew { copy: SeedCopy },
}

/// A flip chain behind a surface. The numbers `swapchain`, `frame_pbuffer` and
/// `fallback_virtual` name objects of the graphics system.
#[derive(Debug)]
pub struct SwapChainStorage {
    pub swapchain: u64,
    /// The point of the virtual space at the buffer's origin.
    pub anchor: DeviceIntPoint,
    pub size: DeviceIntSize,
    pub coverage: FrameCoverage,
    pub frame_pbuffer: Option<u64>,
    pub drawn_this_frame: bool,
    /// The visual shows this flip chain.
    pub content_attached: bool,
    pub withheld_frames: u32,
    /// The virtual surface that stays on display until the flip chain is attached.
    pub fallback_virtual: Option<u64>,
    /// The anchor of the flip chain on display; `None` while the fallback is.
    pub displayed_anchor: Option<DeviceIntPoint>,
    /// What was drawn since the last present, in buffer coordinates.
    pub frame_dirty: Vec<DeviceIntRect>,
    pub stale: StaleTracker,
    pub partial_present: bool,
    /// No fallback is left to demote to; wait for the next attachment or regeneration.
    pub demote_blocked: bool,
}

/// Every rectangle of the list can be moved by `(dx, dy)`.
pub open spec fn all_can_move(rects: Seq<DeviceIntRect>, dx: int, dy: int) -> bool {
    forall|i: int| 0 <= i < rects.len() ==> can_move(#[trigger] rects[i], dx, dy)
}

proof fn lemma_bounding_can_move(rects: Seq<DeviceIntRect>, dx: int, dy: int)
    requires
        rects.len() > 0,
        all_can_move(rects, dx, dy),
    ensures
        can_move(bounding(rects), dx, dy),
    decreases rects.len(),
{
    assert(can_move(rects[rects.len() - 1], dx, dy));
    if rects.len() > 1 {
        assert forall|i: int| 0 <= i < rects.drop_last().len() implies can_move(
            #[trigger] rects.drop_last()[i],
            dx,
            dy,
        ) by {
            assert(can_move(rects[i], dx, dy));
        }
        lemma_bounding_can_move(rects.drop_last(), dx, dy);
    }
}

proof fn lemma_collapsed_can_move(rects: Seq<DeviceIntRect>, dx: int, dy: int)
    requires
        all_can_move(rects, dx, dy),
    ensures
        all_can_move(collapsed(rects, MAX_STALE_RECTS as int), dx, dy),
{
    if rects.len() > MAX_STALE_RECTS {
        lemma_bounding_can_move(rects, dx, dy);
    }
}

/// The size of the extent can be computed.
pub open spec fn size_in_range(extent: DeviceIntRect) -> bool {
    extent.max.x - extent.min.x <= i32::MAX && extent.max.x - extent.min.x >= i32::MIN
        && extent.max.y - extent.min.y <= i32::MAX && extent.max.y - extent.min.y >= i32::MIN
}

/// The size of an extent.
pub open spec fn size_of_extent(extent: DeviceIntRect) -> DeviceIntSize {
    DeviceIntSize {
        width: (extent.max.x - extent.min.x) as i32,
        height: (extent.max.y - extent.min.y) as i32,
    }
}

/// As many tiles as there are fill the extent.
pub open spec fn dense(tiles: Seq<TileIndex>, tile_size: DeviceIntSize, extent: DeviceIntRect) -> bool {
    tiles.len() * (tile_size.width * tile_size.height) == size_of_extent(extent).width
        * size_of_extent(extent).height
}

impl SwapChainStorage {
    /// What every flip chain keeps: the visual shows it exactly where it is attached, and until
    /// then shows the fallback or the flip chain before it; partial presents need the
    /// attachment.
    pub open spec fn wf(self) -> bool {
        &&& self.coverage.wf()
        &&& self.stale.wf()
        &&& self.content_attached ==> self.displayed_anchor == Some(self.anchor)
        &&& self.displayed_anchor is None <==> self.fallback_virtual is Some
        &&& self.partial_present ==> self.content_attached
        &&& i32::MIN <= self.anchor.x + self.size.width <= i32::MAX
        &&& i32::MIN <= self.anchor.y + self.size.height <= i32::MAX
        &&& all_can_move(self.frame_dirty@, self.anchor.x as int, self.anchor.y as int)
    }

    /// The tiles span another extent than the flip chain was made for.
    pub open spec fn geometry_changed(self, extent: Option<DeviceIntRect>) -> bool {
        extent matches Some(e) && (e.min != self.anchor || size_of_extent(e) != self.size)
    }

    /// What a flip chain does at the end of a frame, and what it is left as.
    pub open spec fn planned(
        self,
        tiles: TileSet,
        virtual_offset: DeviceIntPoint,
        tile_size: DeviceIntSize,
        ctx: FrameContext,
        action: EndFrameAction,
        after: SwapChainStorage,
    ) -> bool {
        let extent = extent_of(tiles.tiles@, virtual_offset, tile_size);
        if ctx.resize_active {
            action is Demote && after == self
        } else if self.geometry_changed(extent) {
            &&& action == (if !ctx.regen_disabled && dense(tiles.tiles@, tile_size, extent->0) {
                EndFrameAction::Regenerate(extent->0)
            } else {
                EndFrameAction::Nothing
            })
            &&& after.frame_dirty@ == collapsed(self.frame_dirty@, MAX_STALE_RECTS as int)
            &&& after == (SwapChainStorage { frame_dirty: after.frame_dirty, ..self })
        } else if self.drawn_this_frame && covers_all(self.coverage@, tiles@) {
            action == EndFrameAction::PresentFull { attach: !self.content_attached } && after
                == self
        } else if self.drawn_this_frame && self.content_attached && self.partial_present {
            let catchup = without_all(self.stale.missed(), self.frame_dirty@);
            &&& action matches EndFrameAction::PresentPartial { copy, catchup: c, hint: h }
            &&& copy == (catchup.len() > 0)
            &&& c@ == clipped_to(catchup, buffer_of(self.size))
            &&& h@ == present_hint(self.frame_dirty@, self.size)
            &&& after == self
        } else if self.drawn_this_frame {
            &&& action == EndFrameAction::Withhold {
                demote: self.withheld_frames + 1 >= DEMOTE_AFTER_WITHHOLD,
            }
            &&& after.frame_dirty@ == Seq::<DeviceIntRect>::empty()
            &&& after.withheld_frames == self.withheld_frames + 1
            &&& after == (SwapChainStorage {
                frame_dirty: after.frame_dirty,
                withheld_frames: after.withheld_frames,
                ..self
            })
        } else {
            action is Nothing && after == self
        }
    }

    /// A flip chain for `extent`, with `fallback` on display until it is attached.
    pub fn promoted(swapchain: u64, extent: DeviceIntRect, fallback: u64) -> (s: SwapChainStorage)
        requires
            size_in_range(extent),
        ensures
            s.wf(),
            s.swapchain == swapchain,
            s.anchor == extent.min,
            s.size == size_of_extent(extent),
            s.coverage@ == Set::<TileIndex>::empty(),
            s.frame_pbuffer is None,
            !s.drawn_this_frame,
            !s.content_attached,
            s.withheld_frames == 0,
            s.fallback_virtual == Some(fallback),
            s.displayed_anchor is None,
            s.frame_dirty@ == Seq::<DeviceIntRect>::empty(),
            s.stale.missed() == Seq::<DeviceIntRect>::empty(),
            !s.partial_present,
            !s.demote_blocked,
    {
        SwapChainStorage {
            swapchain,
            anchor: extent.min,
            size: extent.size(),
            coverage: FrameCoverage::default(),
            frame_pbuffer: None,
            drawn_this_frame: false,
            content_attached: false,
            withheld_frames: 0,
            fallback_virtual: Some(fallback),
            displayed_anchor: None,
            frame_dirty: Vec::new(),
            stale: StaleTracker::default(),
            partial_present: false,
            demote_blocked: false,
        }
    }

    /// Decides what the flip chain does at the end of a frame.
    pub fn plan(
        &mut self,
        tiles: &TileSet,
        virtual_offset: DeviceIntPoint,
        tile_size: DeviceIntSize,
        ctx: &FrameContext,
    ) -> (action: EndFrameAction)
        requires
            old(self).wf(),
            tiles_in_range(tiles.tiles@, virtual_offset, tile_size),
            extent_of(tiles.tiles@, virtual_offset, tile_size) matches Some(e) ==> size_in_range(e),
            old(self).withheld_frames < u32::MAX,
        ensures
            final(self).wf(),
            old(self).planned(*tiles, virtual_offset, tile_size, *ctx, action, *final(self)),
    {
        let cur_extent = surface_extent(tiles, virtual_offset, tile_size);
        let geometry_changed = match cur_extent {
            Some(e) => e.min != self.anchor || e.size() != self.size,
            None => false,
        };
        if ctx.resize_active {
            EndFrameAction::Demote
        } else if geometry_changed {
            let mut action = EndFrameAction::Nothing;
            if !ctx.regen_disabled {
                if let Some(e) = cur_extent {
                    if tiles_are_dense(tiles.len(), tile_size, e.size()) {
                        action = EndFrameAction::Regenerate(e);
                    }
                }
            }
            proof {
                lemma_collapsed_can_move(
                    self.frame_dirty@,
                    self.anchor.x as int,
                    self.anchor.y as int,
                );
            }
            let mut dirty: Vec<DeviceIntRect> = Vec::new();
            core::mem::swap(&mut dirty, &mut self.frame_dirty);
            self.frame_dirty = collapse_dirty_if_oversized(dirty, MAX_STALE_RECTS);
            action
        } else if self.drawn_this_frame && self.coverage.is_full(tiles) {
            EndFrameAction::PresentFull { attach: !self.content_attached }
        } else if self.drawn_this_frame && self.content_attached && self.partial_present {
            let catchup = self.stale.catchup_rects(self.frame_dirty.as_slice());
            let copy = catchup.len() > 0;
            let clipped = clip_rects(catchup.as_slice(), buffer_rect(self.size));
            let hint = present_hint_rects(self.frame_dirty.as_slice(), self.size);
            EndFrameAction::PresentPartial { copy, catchup: clipped, hint }
        } else if self.drawn_this_frame {
            self.frame_dirty.clear();
            self.withheld_frames = self.withheld_frames + 1;
            EndFrameAction::Withhold { demote: self.withheld_frames >= DEMOTE_AFTER_WITHHOLD }
        } else {
            EndFrameAction::Nothing
        }
    }

    /// The state after a full present, whose outcome is `presented`; `content_set` is the
    /// outcome of attaching the flip chain, and `partial_ok` whether partial presents work.
    pub open spec fn after_full_present(
        self,
        presented: bool,
        content_set: bool,
        partial_ok: bool,
        after: SwapChainStorage,
    ) -> bool {
        if !presented {
            &&& after.frame_dirty@ == collapsed(self.frame_dirty@, MAX_STALE_RECTS as int)
            &&& after == (SwapChainStorage { frame_dirty: after.frame_dirty, ..self })
        } else {
            let attach = !self.content_attached && content_set;
            let seed = if self.content_attached {
                self.frame_dirty@
            } else {
                seq![buffer_of(self.size)]
            };
            &&& after.coverage@ == Set::<TileIndex>::empty()
            &&& after.frame_dirty@ == Seq::<DeviceIntRect>::empty()
            &&& after.stale.missed() == collapsed(seed, MAX_STALE_RECTS as int)
            &&& after == (SwapChainStorage {
                coverage: after.coverage,
                frame_dirty: after.frame_dirty,
                stale: after.stale,
                withheld_frames: 0,
                content_attached: self.content_attached || attach,
                fallback_virtual: if attach {
                    None
                } else {
                    self.fallback_virtual
                },
                demote_blocked: self.demote_blocked && !attach,
                displayed_anchor: if attach {
                    Some(self.anchor)
                } else {
                    self.displayed_anchor
                },
                partial_present: if attach {
                    partial_ok
                } else {
                    self.partial_present
                },
                ..self
            })
        }
    }

    /// Takes in the outcome of a full present. The first content that is presented seeds the
    /// other buffer as missed in full, since it was never drawn to. A failed present keeps what
    /// was drawn for the next one and asks for a demotion.
    ///
    /// Returns whether the flip chain was attached, so that the visual has to be placed anew.
    pub fn settle_full_present(
        &mut self,
        presented: bool,
        content_set: bool,
        partial_ok: bool,
    ) -> (attached: bool)
        requires
            old(self).wf(),
        ensures
            final(self).wf(),
            old(self).after_full_present(presented, content_set, partial_ok, *final(self)),
            attached == (presented && !old(self).content_attached && content_set),
    {
        let first_content_present = !self.content_attached;
        let mut dirty: Vec<DeviceIntRect> = Vec::new();
        core::mem::swap(&mut dirty, &mut self.frame_dirty);
        if !presented {
            proof {
                lemma_collapsed_can_move(dirty@, self.anchor.x as int, self.anchor.y as int);
            }
            self.frame_dirty = collapse_dirty_if_oversized(dirty, MAX_STALE_RECTS);
            return false;
        }
        self.coverage.reset();
        self.withheld_frames = 0;
        let full = buffer_rect(self.size);
        if first_content_present {
            let mut seed: Vec<DeviceIntRect> = Vec::new();
            seed.push(full);
            self.stale.on_present(seed.as_slice(), full);
            assert(seed@ =~= seq![buffer_of(self.size)]);
        } else {
            self.stale.on_present(dirty.as_slice(), full);
        }
        if !self.content_attached && content_set {
            self.content_attached = true;
            self.fallback_virtual = None;
            self.demote_blocked = false;
            self.displayed_anchor = Some(self.anchor);
            self.partial_present = partial_ok;
            return true;
        }
        false
    }

    /// The state after a partial present, whose outcome is `presented`.
    pub open spec fn after_partial_present(self, presented: bool, after: SwapChainStorage) -> bool {
        if presented {
            &&& after.coverage@ == Set::<TileIndex>::empty()
            &&& after.frame_dirty@ == Seq::<DeviceIntRect>::empty()
            &&& after.stale.missed() == collapsed(self.frame_dirty@, MAX_STALE_RECTS as int)
            &&& after == (SwapChainStorage {
                coverage: after.coverage,
                frame_dirty: after.frame_dirty,
                stale: after.stale,
                withheld_frames: 0,
                ..self
            })
        } else {
            &&& after.frame_dirty@ == Seq::<DeviceIntRect>::empty()
            &&& after == (SwapChainStorage {
                frame_dirty: after.frame_dirty,
                partial_present: false,
                ..self
            })
        }
    }

    /// Takes in the outcome of the catch-up copy and the partial present together. A failure
    /// turns partial presents off for good; the next present then needs full coverage, so what
    /// was drawn need not be kept.
    pub fn settle_partial_present(&mut self, presented: bool)
        requires
            old(self).wf(),
        ensures
            final(self).wf(),
            old(self).after_partial_present(presented, *final(self)),
    {
        let mut dirty: Vec<DeviceIntRect> = Vec::new();
        core::mem::swap(&mut dirty, &mut self.frame_dirty);
        if presented {
            self.coverage.reset();
            self.withheld_frames = 0;
            self.stale.on_present(dirty.as_slice(), buffer_rect(self.size));
        } else {
            self.partial_present = false;
        }
    }

    /// Closes the frame: nothing counts as drawn any more, and the frame's drawing surface is
    /// handed back to be destroyed.
    pub fn finish_frame(&mut self) -> (pbuffer: Option<u64>)
        requires
            old(self).wf(),
        ensures
            final(self).wf(),
            pbuffer == old(self).frame_pbuffer,
            *final(self) == (SwapChainStorage {
                frame_pbuffer: None,
                drawn_this_frame: false,
                ..*old(self)
            }),
    {
        let pbuffer = self.frame_pbuffer.take();
        self.drawn_this_frame = false;
        pbuffer
    }

    /// Replaces the flip chain by one for `extent`. What is on display stays there until the new
    /// one has been presented in full.
    pub fn regenerate(&mut self, swapchain: u64, extent: DeviceIntRect)
        requires
            old(self).wf(),
            size_in_range(extent),
        ensures
            final(self).wf(),
            final(self).coverage@ == Set::<TileIndex>::empty(),
            final(self).frame_dirty@ == Seq::<DeviceIntRect>::empty(),
            final(self).stale.missed() == Seq::<DeviceIntRect>::empty(),
            *final(self) == (SwapChainStorage {
                swapchain,
                anchor: extent.min,
                size: size_of_extent(extent),
                coverage: final(self).coverage,
                frame_pbuffer: None,
                drawn_this_frame: false,
                content_attached: false,
                withheld_frames: 0,
                frame_dirty: final(self).frame_dirty,
                stale: final(self).stale,
                partial_present: false,
                demote_blocked: false,
                ..*old(self)
            }),
    {
        self.frame_pbuffer = None;
        self.swapchain = swapchain;
        self.content_attached = false;
        self.partial_present = false;
        self.anchor = extent.min;
        self.size = extent.size();
        self.coverage.reset();
        self.withheld_frames = 0;
        self.drawn_this_frame = false;
        self.frame_dirty.clear();
        self.stale.reset();
        self.demote_blocked = false;
    }

    /// The tile has content in the back buffer that the fallback lacks.
    pub open spec fn needs_seed(
        self,
        virtual_offset: DeviceIntPoint,
        tile_size: DeviceIntSize,
        tile: TileIndex,
    ) -> bool {
        self.coverage@.contains(tile) || exists|i: int|
            0 <= i < self.frame_dirty@.len() && !tile_rect(virtual_offset, tile_size, tile).meet(
                moved(#[trigger] self.frame_dirty@[i], self.anchor.x as int, self.anchor.y as int),
            ).empty()
    }

    /// The copy that brings one tile up to date.
    pub open spec fn seed_copy(
        self,
        virtual_offset: DeviceIntPoint,
        tile_size: DeviceIntSize,
        tile: TileIndex,
    ) -> SeedCopy {
        let update = tile_rect(virtual_offset, tile_size, tile);
        SeedCopy { update, source: moved(update, -self.anchor.x, -self.anchor.y) }
    }

    /// The copies for all tiles that need one.
    pub open spec fn seed_copies(
        self,
        tiles: Seq<TileIndex>,
        virtual_offset: DeviceIntPoint,
        tile_size: DeviceIntSize,
    ) -> Seq<SeedCopy>
        decreases tiles.len(),
    {
        if tiles.len() == 0 {
            seq![]
        } else {
            let front = self.seed_copies(tiles.drop_last(), virtual_offset, tile_size);
            if self.needs_seed(virtual_offset, tile_size, tiles.last()) {
                front.push(self.seed_copy(virtual_offset, tile_size, tiles.last()))
            } else {
                front
            }
        }
    }

    /// Every tile can be carried over to buffer coordinates.
    pub open spec fn tiles_reachable(
        self,
        tiles: Seq<TileIndex>,
        virtual_offset: DeviceIntPoint,
        tile_size: DeviceIntSize,
    ) -> bool {
        forall|i: int|
            0 <= i < tiles.len() ==> can_move(
                tile_rect(virtual_offset, tile_size, #[trigger] tiles[i]),
                -self.anchor.x,
                -self.anchor.y,
            )
    }

    /// How a flip chain is demoted: not at all where it is blocked, or has to wait, or cannot
    /// be read; over its fallback where that is still on display; over a new virtual surface
    /// otherwise.
    pub open spec fn demotion_planned(
        self,
        tiles: Seq<TileIndex>,
        virtual_offset: DeviceIntPoint,
        tile_size: DeviceIntSize,
        resize_active: bool,
        has_context: bool,
        plan: DemotionPlan,
        after: SwapChainStorage,
    ) -> bool {
        let stranded = !self.content_attached && self.fallback_virtual is None && !resize_active;
        if self.demote_blocked {
            plan is Keep && after == self
        } else if stranded {
            plan is Keep && after == (SwapChainStorage { demote_blocked: true, ..self })
        } else if !has_context {
            plan is Keep && after == self
        } else if !self.content_attached && self.fallback_virtual is Some {
            &&& plan matches DemotionPlan::SeedFallback { fallback, copies }
            &&& fallback == self.fallback_virtual->0
            &&& copies@ == self.seed_copies(tiles, virtual_offset, tile_size)
            &&& after == self
        } else {
            &&& plan == (DemotionPlan::SeedNew {
                copy: SeedCopy {
                    update: moved(
                        buffer_of(self.size),
                        self.anchor.x as int,
                        self.anchor.y as int,
                    ),
                    source: buffer_of(self.size),
                },
            })
            &&& after == self
        }
    }

    /// Whether `tile` has to be copied into the fallback.
    fn tile_needs_seed(
        &self,
        virtual_offset: DeviceIntPoint,
        tile_size: DeviceIntSize,
        tile: TileIndex,
    ) -> (b: bool)
        requires
            self.wf(),
            tile_in_range(virtual_offset, tile_size, tile),
        ensures
            b == self.needs_seed(virtual_offset, tile_size, tile),
    {
        if self.coverage.covered_tiles.contains(tile) {
            return true;
        }
        let rect = tile_virtual_rect(virtual_offset, tile_size, tile.0, tile.1);
        let mut i: usize = 0;
        while i < self.frame_dirty.len()
            invariant
                self.wf(),
                i <= self.frame_dirty@.len(),
                rect == tile_rect(virtual_offset, tile_size, tile),
                !self.coverage@.contains(tile),
                forall|k: int|
                    0 <= k < i ==> rect.meet(
                        moved(
                            #[trigger] self.frame_dirty@[k],
                            self.anchor.x as int,
                            self.anchor.y as int,
                        ),
                    ).empty(),
            decreases self.frame_dirty@.len() - i,
        {
            let virt = move_rect(self.frame_dirty[i], self.anchor.x, self.anchor.y);
            if rect.intersection(&virt).is_some() {
                return true;
            }
            i = i + 1;
        }
        false
    }

    /// Decides how the flip chain is turned back into a virtual surface.
    pub fn plan_demotion(
        &mut self,
        tiles: &TileSet,
        virtual_offset: DeviceIntPoint,
        tile_size: DeviceIntSize,
        resize_active: bool,
        has_context: bool,
    ) -> (plan: DemotionPlan)
        requires
            old(self).wf(),
            tiles_in_range(tiles.tiles@, virtual_offset, tile_size),
            old(self).tiles_reachable(tiles.tiles@, virtual_offset, tile_size),
        ensures
            final(self).wf(),
            old(self).demotion_planned(
                tiles.tiles@,
                virtual_offset,
                tile_size,
                resize_active,
                has_context,
                plan,
                *final(self),
            ),
    {
        if self.demote_blocked {
            return DemotionPlan::Keep;
        }
        if !self.content_attached && self.fallback_virtual.is_none() && !resize_active {
            self.demote_blocked = true;
            return DemotionPlan::Keep;
        }
        if !has_context {
            return DemotionPlan::Keep;
        }
        if !self.content_attached {
            if let Some(fallback) = self.fallback_virtual {
                let mut copies: Vec<SeedCopy> = Vec::new();
                let mut i: usize = 0;
                while i < tiles.tiles.len()
                    invariant
                        *self == *old(self),
                        self.wf(),
                        i <= tiles.tiles@.len(),
                        tiles_in_range(tiles.tiles@, virtual_offset, tile_size),
                        self.tiles_reachable(tiles.tiles@, virtual_offset, tile_size),
                        copies@ == self.seed_copies(
                            tiles.tiles@.take(i as int),
                            virtual_offset,
                            tile_size,
                        ),
                    decreases tiles.tiles@.len() - i,
                {
                    let t = tiles.tiles[i];
                    assert(tile_in_range(virtual_offset, tile_size, tiles.tiles@[i as int]));
                    assert(tiles.tiles@.take(i + 1).drop_last() =~= tiles.tiles@.take(i as int));
                    if self.tile_needs_seed(virtual_offset, tile_size, t) {
                        let update = tile_virtual_rect(virtual_offset, tile_size, t.0, t.1);
                        let source = DeviceIntRect::new(
                            DeviceIntPoint::new(
                                update.min.x - self.anchor.x,
                                update.min.y - self.anchor.y,
                            ),
                            DeviceIntPoint::new(
                                update.max.x - self.anchor.x,
                                update.max.y - self.anchor.y,
                            ),
                        );
                        copies.push(SeedCopy { update, source });
                    }
                    i = i + 1;
                }
                assert(tiles.tiles@.take(tiles.tiles@.len() as int) =~= tiles.tiles@);
                return DemotionPlan::SeedFallback { fallback, copies };
            }
        }
        let source = buffer_rect(self.size);
        let update = move_rect(source, self.anchor.x, self.anchor.y);
        DemotionPlan::SeedNew { copy: SeedCopy { update, source } }
    }
}

} // verus!
