//! The storage behind an external surface: a video that is converted straight into a flip chain
//! of its own.
//!
//! The flip chain is made once the size is known, is attached to the visual after its first
//! present, and shows each frame of its source at most once.
use rustc_hash::FxHashMap;
use vstd::prelude::*;

use crate::fx::{fx_get, fx_insert};
use crate::geometry::DeviceIntSize;

verus! {

/// Whether the frame `seq` of ring `ring_id` is another one than was presented last. Another
/// ring means another source, another number a new frame.
pub fn external_needs_present(last: Option<(u64, u64)>, ring_id: u64, seq: u64) -> (b: bool)
    ensures
        b == (last != Some((ring_id, seq))),
{
    match last {
        Some(l) => !(l.0 == ring_id && l.1 == seq),
        None => true,
    }
}

/// The flip chain of an external surface. The numbers `swapchain` and those in `rtv_cache` name
/// objects of the graphics system.
#[derive(Debug)]
pub struct ExternalStorage {
    pub swapchain: Option<u64>,
    pub swapchain_size: DeviceIntSize,
    /// The visual shows the flip chain.
    pub content_attached: bool,
    /// The image that the surface shows.
    pub attached_external_id: Option<u64>,
    /// The ring and the number of the frame that was presented last.
    pub last_presented: Option<(u64, u64)>,
    /// The render target made for each back buffer of the flip chain.
    pub rtv_cache: FxHashMap<u64, u64>,
}

impl ExternalStorage {
    /// Without a flip chain nothing is attached, presented or cached.
    pub open spec fn wf(self) -> bool {
        self.swapchain is None ==> !self.content_attached && self.last_presented is None
            && self.swapchain_size == (DeviceIntSize { width: 0, height: 0 })
            && self.rtv_cache@ == Map::<u64, u64>::empty()
    }

    pub fn new() -> (s: ExternalStorage)
        ensures
            s.wf(),
            s.swapchain is None,
            s.attached_external_id is None,
    {
        ExternalStorage {
            swapchain: None,
            swapchain_size: DeviceIntSize::new(0, 0),
            content_attached: false,
            attached_external_id: None,
            last_presented: None,
            rtv_cache: FxHashMap::default(),
        }
    }

    /// Remembers the image that the surface shows.
    pub fn attach_image(&mut self, external_id: u64)
        ensures
            *final(self) == (ExternalStorage {
                attached_external_id: Some(external_id),
                ..*old(self)
            }),
    {
        self.attached_external_id = Some(external_id);
    }

    /// Whether a flip chain of `size` has to be made. While the window is being resized the
    /// flip chain at hand is kept.
    pub fn needs_chain(&self, size: DeviceIntSize, resize_active: bool) -> (b: bool)
        ensures
            b == ((self.swapchain is None || self.swapchain_size != size) && !resize_active),
    {
        (self.swapchain.is_none() || self.swapchain_size != size) && !resize_active
    }

    /// Takes in the outcome of making a flip chain of `size`. The render targets of the one
    /// before it are gone either way, and the next frame is presented anew; where the making
    /// failed, the next frame tries again.
    pub fn install_chain(&mut self, created: Option<u64>, size: DeviceIntSize)
        ensures
            final(self).wf(),
            final(self).swapchain == created,
            final(self).swapchain_size == (if created is Some {
                size
            } else {
                DeviceIntSize { width: 0, height: 0 }
            }),
            !final(self).content_attached,
            final(self).last_presented is None,
            final(self).attached_external_id == old(self).attached_external_id,
            final(self).rtv_cache@ == Map::<u64, u64>::empty(),
    {
        self.rtv_cache.clear();
        self.content_attached = false;
        self.last_presented = None;
        match created {
            Some(sc) => {
                self.swapchain = Some(sc);
                self.swapchain_size = size;
            },
            None => {
                self.swapchain = None;
                self.swapchain_size = DeviceIntSize::new(0, 0);
            },
        }
    }

    /// The flip chain and the size to convert the frame into, or `None` where the frame was
    /// presented already or there is nothing to present to.
    pub open spec fn target(self, ring_id: u64, seq: u64) -> Option<(u64, DeviceIntSize)> {
        if self.last_presented == Some((ring_id, seq)) || self.swapchain_size.width <= 0
            || self.swapchain_size.height <= 0 || self.swapchain is None {
            None
        } else {
            Some((self.swapchain->0, self.swapchain_size))
        }
    }

    pub fn present_target(&self, ring_id: u64, seq: u64) -> (r: Option<(u64, DeviceIntSize)>)
        ensures
            r == self.target(ring_id, seq),
    {
        if !external_needs_present(self.last_presented, ring_id, seq) {
            return None;
        }
        let dst = self.swapchain_size;
        if dst.width <= 0 || dst.height <= 0 {
            return None;
        }
        match self.swapchain {
            Some(sc) => Some((sc, dst)),
            None => None,
        }
    }

    /// The render target that was made for the back buffer, if any.
    pub fn cached_view(&self, back: u64) -> (r: Option<u64>)
        ensures
            r == (if self.rtv_cache@.contains_key(back) {
                Some(self.rtv_cache@[back])
            } else {
                None::<u64>
            }),
    {
        match fx_get(&self.rtv_cache, back) {
            Some(v) => Some(*v),
            None => None,
        }
    }

    /// Remembers the render target of a back buffer.
    pub fn remember_view(&mut self, back: u64, view: u64)
        requires
            old(self).wf(),
            old(self).swapchain is Some,
        ensures
            final(self).wf(),
            final(self).rtv_cache@ == old(self).rtv_cache@.insert(back, view),
            *final(self) == (ExternalStorage { rtv_cache: final(self).rtv_cache, ..*old(self) }),
    {
        let _ = fx_insert(&mut self.rtv_cache, back, view);
    }

    /// Takes in the outcome of converting and presenting a frame, and of attaching the flip
    /// chain, which is asked for after the first present alone.
    pub fn settle_present(&mut self, ring_id: u64, seq: u64, presented: bool, content_set: bool)
        requires
            old(self).wf(),
            old(self).swapchain is Some,
        ensures
            final(self).wf(),
            *final(self) == (if presented {
                ExternalStorage {
                    last_presented: Some((ring_id, seq)),
                    content_attached: old(self).content_attached || content_set,
                    ..*old(self)
                }
            } else {
                *old(self)
            }),
    {
        if presented {
            self.last_presented = Some((ring_id, seq));
            if !self.content_attached && content_set {
                self.content_attached = true;
            }
        }
    }
}

/// A frame that has been presented is not presented again until the flip chain is made anew or
/// another frame has been, and any other frame can be presented next.
pub proof fn law_frame_is_presented_once(
    before: ExternalStorage,
    after: ExternalStorage,
    ring_id: u64,
    seq: u64,
    content_set: bool,
)
    requires
        before.target(ring_id, seq) is Some,
        after == (ExternalStorage {
            last_presented: Some((ring_id, seq)),
            content_attached: before.content_attached || content_set,
            ..before
        }),
    ensures
        after.target(ring_id, seq) is None,
        forall|r: u64, s: u64|
            r != ring_id || s != seq ==> #[trigger] after.target(r, s) == before.target(
                ring_id,
                seq,
            ),
{
}

} // verus!
