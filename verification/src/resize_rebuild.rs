//! Throwing the picture tiles away when a window is resized.
//!
//! The native compositor keeps what was drawn where nothing is drawn any more, so a resize leaves
//! ghosts. Changing the tile size makes the renderer destroy its surfaces: the first change of a
//! drag sends an alternate size, and once the size has been still for a number of frames the
//! steady one is sent again.
use crate::geometry::DeviceIntSize;
use crate::settings::{alternate_size, alternate_tile_size};
use vstd::prelude::*;

verus! {

/// How many frames the size has to be still before a drag counts as over.
pub const DCOMP_RESIZE_DEBOUNCE_FRAMES: u32 = 10;

#[derive(Clone, Copy, Debug, PartialEq, Eq, Structural)]
pub struct ResizeRebuild {
    /// The window is composed by the native compositor.
    pub native_active: bool,
    pub pending: bool,
    pub stable_frames: u32,
    /// The tile size of the steady state; none stands for the renderer's own.
    pub steady: Option<DeviceIntSize>,
    pub alternate: DeviceIntSize,
}

/// What the first change of a drag asks for.
#[derive(Clone, Copy, Debug, PartialEq, Eq, Structural)]
pub struct ResizeStart {
    /// Surfaces stop being flip chains while the drag lasts.
    pub set_resize_active: bool,
    pub tile_size: DeviceIntSize,
}

/// What a frame brings while a drag may be under way.
#[derive(Clone, Copy, Debug, PartialEq, Eq, Structural)]
pub enum ResizeTick {
    Nothing,
    /// The size is not still for long enough: another frame is needed.
    Waiting,
    /// The drag is over. The tile size goes back, and surfaces may be flip chains again.
    Settled { tile_size: Option<DeviceIntSize> },
}

impl ResizeRebuild {
    pub open spec fn wf(self) -> bool {
        &&& self.alternate == alternate_size(self.steady)
        &&& self.stable_frames < DCOMP_RESIZE_DEBOUNCE_FRAMES
        &&& !self.pending ==> self.stable_frames == 0
    }

    pub open spec fn resized(self, rebuild_disabled: bool, virtual_disabled: bool) -> (
        ResizeRebuild,
        Option<ResizeStart>,
    ) {
        if !self.native_active {
            (self, None)
        } else {
            (
                ResizeRebuild { pending: true, stable_frames: 0, ..self },
                if !self.pending && !rebuild_disabled {
                    Some(
                        ResizeStart {
                            set_resize_active: !virtual_disabled,
                            tile_size: self.alternate,
                        },
                    )
                } else {
                    None
                },
            )
        }
    }

    pub open spec fn ticked(self, rebuild_disabled: bool) -> (ResizeRebuild, ResizeTick) {
        if !self.native_active || !self.pending || rebuild_disabled {
            (self, ResizeTick::Nothing)
        } else if self.stable_frames + 1 < DCOMP_RESIZE_DEBOUNCE_FRAMES {
            (
                ResizeRebuild { stable_frames: (self.stable_frames + 1) as u32, ..self },
                ResizeTick::Waiting,
            )
        } else {
            (
                ResizeRebuild { pending: false, stable_frames: 0, ..self },
                ResizeTick::Settled { tile_size: self.steady },
            )
        }
    }

    /// The state after some frames without a change of size.
    pub open spec fn after_frames(self, n: nat) -> ResizeRebuild
        decreases n,
    {
        if n == 0 {
            self
        } else {
            self.after_frames((n - 1) as nat).ticked(false).0
        }
    }

    pub fn new(native_active: bool, steady: Option<DeviceIntSize>) -> (r: ResizeRebuild)
        ensures
            r.wf(),
            r == (ResizeRebuild {
                native_active,
                pending: false,
                stable_frames: 0,
                steady,
                alternate: alternate_size(steady),
            }),
    {
        ResizeRebuild {
            native_active,
            pending: false,
            stable_frames: 0,
            steady,
            alternate: alternate_tile_size(steady),
        }
    }

    /// The size of the window changes. The first change of a drag asks for a rebuild; each one
    /// starts the count of still frames anew.
    pub fn size_changed(&mut self, rebuild_disabled: bool, virtual_disabled: bool) -> (r: Option<
        ResizeStart,
    >)
        requires
            old(self).wf(),
        ensures
            final(self).wf(),
            (*final(self), r) == old(self).resized(rebuild_disabled, virtual_disabled),
    {
        if !self.native_active {
            return None;
        }
        let first_change: bool = !self.pending;
        self.pending = true;
        self.stable_frames = 0;
        if first_change && !rebuild_disabled {
            Some(
                ResizeStart { set_resize_active: !virtual_disabled, tile_size: self.alternate },
            )
        } else {
            None
        }
    }

    /// A frame is ready.
    pub fn tick(&mut self, rebuild_disabled: bool) -> (r: ResizeTick)
        requires
            old(self).wf(),
        ensures
            final(self).wf(),
            (*final(self), r) == old(self).ticked(rebuild_disabled),
    {
        if !self.native_active || !self.pending || rebuild_disabled {
            return ResizeTick::Nothing;
        }
        let stable: u32 = self.stable_frames + 1;
        if stable < DCOMP_RESIZE_DEBOUNCE_FRAMES {
            self.stable_frames = stable;
            return ResizeTick::Waiting;
        }
        self.pending = false;
        self.stable_frames = 0;
        ResizeTick::Settled { tile_size: self.steady }
    }
}

proof fn lemma_after_frames(r: ResizeRebuild, n: nat)
    requires
        r.native_active,
        r.pending,
        r.stable_frames == 0,
        n < DCOMP_RESIZE_DEBOUNCE_FRAMES,
    ensures
        r.after_frames(n) == (ResizeRebuild { stable_frames: n as u32, ..r }),
    decreases n,
{
    if n > 0 {
        lemma_after_frames(r, (n - 1) as nat);
    }
}

/// A drag rebuilds the tiles twice: at its first change, with a size other than the steady one,
/// and at the tenth still frame, with the steady one. A further change within the drag rebuilds
/// nothing; it starts the wait anew.
pub proof fn law_drag_rebuilds_twice(r: ResizeRebuild, virtual_disabled: bool, n: nat)
    requires
        r.wf(),
        r.native_active,
        !r.pending,
        n < DCOMP_RESIZE_DEBOUNCE_FRAMES,
    ensures
        ({
            let (dragged, start) = r.resized(false, virtual_disabled);
            let waited = dragged.after_frames(n);
            &&& start == Some(
                ResizeStart { set_resize_active: !virtual_disabled, tile_size: r.alternate },
            )
            &&& waited.resized(false, virtual_disabled) == (dragged, None::<ResizeStart>)
            &&& if n + 1 < DCOMP_RESIZE_DEBOUNCE_FRAMES {
                waited.ticked(false).1 == ResizeTick::Waiting
            } else {
                waited.ticked(false) == (r, ResizeTick::Settled { tile_size: r.steady })
            }
        }),
{
    let dragged = r.resized(false, virtual_disabled).0;
    lemma_after_frames(dragged, n);
}

} // verus!
