//! Holding frames back until the canvas images that they show have arrived.
//!
//! A document that draws on a canvas asks for a frame while the canvas image is still on its way.
//! The frame is then requested once it was asked for and every image that it waits for is there;
//! the documents that wait are told so.
use crate::fx::{fx_get, fx_insert, fx_len, fx_remove, fx_set_drain, fx_set_insert};
use rustc_hash::{FxHashMap, FxHashSet};
use vstd::prelude::*;

verus! {

/// Image keys, epochs and pipelines are integers.
pub struct FrameDelayer {
    /// The latest epoch of each canvas image that the renderer has.
    pub image_epochs: FxHashMap<u64, u64>,
    /// The images that are waited for, each with the epoch that is needed.
    pub pending_canvas_images: FxHashMap<u64, u64>,
    pub pending_frame: bool,
    /// The pipelines that are told when nothing is waited for any more.
    pub waiting_pipelines: FxHashSet<u64>,
}

/// The delayer as a value.
#[verifier::ext_equal]
pub struct DelayerView {
    pub epochs: Map<u64, u64>,
    pub pending: Map<u64, u64>,
    pub pending_frame: bool,
    pub waiting: Set<u64>,
}

impl View for FrameDelayer {
    type V = DelayerView;

    open spec fn view(&self) -> DelayerView {
        DelayerView {
            epochs: self.image_epochs@,
            pending: self.pending_canvas_images@,
            pending_frame: self.pending_frame,
            waiting: self.waiting_pipelines@,
        }
    }
}

impl DelayerView {
    pub open spec fn empty() -> DelayerView {
        DelayerView {
            epochs: Map::empty(),
            pending: Map::empty(),
            pending_frame: false,
            waiting: Set::empty(),
        }
    }

    /// A frame was asked for and no image is waited for.
    pub open spec fn needs_new_frame(self) -> bool {
        self.pending_frame && self.pending.is_empty()
    }

    /// The renderer has this image at this epoch or a later one.
    pub open spec fn seen(self, key: u64, epoch: u64) -> bool {
        self.epochs.contains_key(key) && self.epochs[key] >= epoch
    }

    pub open spec fn deleted(self, key: u64) -> DelayerView {
        DelayerView { epochs: self.epochs.remove(key), pending: self.pending.remove(key), ..self }
    }

    pub open spec fn updated(self, key: u64, epoch: u64) -> DelayerView {
        DelayerView {
            epochs: self.epochs.insert(key, epoch),
            pending: if self.pending.contains_key(key) && self.pending[key] <= epoch {
                self.pending.remove(key)
            } else {
                self.pending
            },
            ..self
        }
    }

    pub open spec fn delayed(self, pipeline: u64, epoch: u64, keys: Seq<u64>) -> DelayerView {
        DelayerView {
            pending: Map::new(
                |k: u64|
                    self.pending.contains_key(k) || (keys.contains(k) && !self.seen(k, epoch)),
                |k: u64|
                    if keys.contains(k) && !self.seen(k, epoch) {
                        epoch
                    } else {
                        self.pending[k]
                    },
            ),
            waiting: self.waiting.insert(pipeline),
            ..self
        }
    }

    pub open spec fn with_pending_frame(self, value: bool) -> DelayerView {
        DelayerView { pending_frame: value, ..self }
    }

    /// The waiting pipelines are told.
    pub open spec fn told(self) -> DelayerView {
        DelayerView { waiting: Set::empty(), ..self }
    }
}

impl FrameDelayer {
    pub fn new() -> (d: FrameDelayer)
        ensures
            d@ == DelayerView::empty(),
    {
        FrameDelayer {
            image_epochs: FxHashMap::default(),
            pending_canvas_images: FxHashMap::default(),
            pending_frame: false,
            waiting_pipelines: FxHashSet::default(),
        }
    }

    /// Forgets an image.
    pub fn delete_image(&mut self, image_key: u64)
        ensures
            final(self)@ == old(self)@.deleted(image_key),
    {
        let _ = fx_remove(&mut self.image_epochs, image_key);
        let _ = fx_remove(&mut self.pending_canvas_images, image_key);
    }

    /// An image arrives. It is no longer waited for where it is as new as needed.
    pub fn update_image(&mut self, image_key: u64, epoch: u64)
        ensures
            final(self)@ == old(self)@.updated(image_key, epoch),
    {
        let _ = fx_insert(&mut self.image_epochs, image_key, epoch);
        let arrived: bool = match fx_get(&self.pending_canvas_images, image_key) {
            Some(needed) => *needed <= epoch,
            None => false,
        };
        if arrived {
            let _ = fx_remove(&mut self.pending_canvas_images, image_key);
        }
    }

    /// A pipeline waits for images. One that already arrived is not waited for.
    pub fn add_delay(&mut self, pipeline_id: u64, canvas_epoch: u64, image_keys: &[u64])
        ensures
            final(self)@ == old(self)@.delayed(pipeline_id, canvas_epoch, image_keys@),
    {
        let ghost before = self@;
        let mut i: usize = 0;
        while i < image_keys.len()
            invariant
                i <= image_keys@.len(),
                before == old(self)@,
                self.image_epochs@ == before.epochs,
                self.waiting_pipelines@ == before.waiting,
                self.pending_frame == before.pending_frame,
                self.pending_canvas_images@ =~= Map::new(
                    |k: u64|
                        before.pending.contains_key(k) || (image_keys@.take(i as int).contains(k)
                            && !before.seen(k, canvas_epoch)),
                    |k: u64|
                        if image_keys@.take(i as int).contains(k) && !before.seen(k, canvas_epoch) {
                            canvas_epoch
                        } else {
                            before.pending[k]
                        },
                ),
            decreases image_keys@.len() - i,
        {
            let key: u64 = image_keys[i];
            proof {
                assert(image_keys@.take(i + 1) =~= image_keys@.take(i as int).push(key));
                assert forall|w: u64| #[trigger]
                    image_keys@.take(i + 1).contains(w) <==> image_keys@.take(i as int).contains(w)
                        || w == key by {
                    let s = image_keys@.take(i as int);
                    if s.contains(w) {
                        let j = choose|j: int| 0 <= j < s.len() && s[j] == w;
                        assert(image_keys@.take(i + 1)[j] == w);
                    }
                    if w == key {
                        assert(image_keys@.take(i + 1)[i as int] == key);
                    }
                }
            }
            let seen: bool = match fx_get(&self.image_epochs, key) {
                Some(epoch_seen) => *epoch_seen >= canvas_epoch,
                None => false,
            };
            if !seen {
                let _ = fx_insert(&mut self.pending_canvas_images, key, canvas_epoch);
            }
            i = i + 1;
        }
        assert(image_keys@.take(i as int) =~= image_keys@);
        let _ = fx_set_insert(&mut self.waiting_pipelines, pipeline_id);
    }

    pub fn needs_new_frame(&self) -> (b: bool)
        ensures
            b == self@.needs_new_frame(),
    {
        self.pending_frame && self.pending_canvas_images.is_empty()
    }

    pub fn set_pending_frame(&mut self, value: bool)
        ensures
            final(self)@ == old(self)@.with_pending_frame(value),
    {
        self.pending_frame = value;
    }

    /// Whether some pipeline waits to be told.
    pub fn is_holding_ack(&self) -> (b: bool)
        ensures
            b == !self@.waiting.is_empty(),
    {
        !self.waiting_pipelines.is_empty()
    }

    /// How many canvas images are waited for.
    pub fn pending_canvas_image_count(&self) -> (n: usize)
        ensures
            n == self@.pending.len(),
    {
        fx_len(&self.pending_canvas_images)
    }

    /// Hands out the pipelines that wait to be told, each once, in an order that is left open.
    pub fn take_waiting_pipelines(&mut self) -> (out: Vec<u64>)
        ensures
            final(self)@ == old(self)@.told(),
            out@.to_set() == old(self)@.waiting,
            out@.no_duplicates(),
    {
        fx_set_drain(&mut self.waiting_pipelines)
    }
}

/// A pipeline that waits for an image gets its frame exactly when the image arrives at the needed
/// epoch or later; an older one changes nothing for it.
pub proof fn law_frame_waits_for_its_image(
    d: DelayerView,
    pipeline: u64,
    key: u64,
    needed: u64,
    arrived: u64,
)
    requires
        d.pending.is_empty(),
        !d.seen(key, needed),
    ensures
        ({
            let waits = d.delayed(pipeline, needed, seq![key]).with_pending_frame(true);
            &&& !waits.needs_new_frame()
            &&& waits.updated(key, arrived).needs_new_frame() <==> arrived >= needed
        }),
{
    let waits = d.delayed(pipeline, needed, seq![key]).with_pending_frame(true);
    assert(seq![key][0] == key);
    assert(seq![key].contains(key));
    assert(waits.pending.dom().contains(key));
    assert(!waits.pending.is_empty());
    let after = waits.updated(key, arrived);
    if arrived >= needed {
        assert forall|k: u64| !after.pending.dom().contains(k) by {
            if seq![key].contains(k) {
                assert(k == key);
            }
        }
        assert(after.pending.dom() =~= Set::empty());
    } else {
        assert(after.pending.dom().contains(key));
    }
}

/// An image that already arrived is not waited for, and deleting an image ends the wait for it.
pub proof fn law_no_wait_for_what_is_there(
    d: DelayerView,
    pipeline: u64,
    key: u64,
    needed: u64,
    arrived: u64,
)
    requires
        d.pending.is_empty(),
    ensures
        arrived >= needed ==> d.updated(key, arrived).delayed(
            pipeline,
            needed,
            seq![key],
        ).pending.is_empty(),
        d.delayed(pipeline, needed, seq![key]).deleted(key).pending.is_empty(),
{
    let a = d.updated(key, arrived).delayed(pipeline, needed, seq![key]);
    let b = d.delayed(pipeline, needed, seq![key]).deleted(key);
    if arrived >= needed {
        assert forall|k: u64| !a.pending.dom().contains(k) by {
            if seq![key].contains(k) {
                assert(k == key);
            }
        }
        assert(a.pending.dom() =~= Set::empty());
    }
    assert forall|k: u64| !b.pending.dom().contains(k) by {
        if seq![key].contains(k) {
            assert(k == key);
        }
    }
    assert(b.pending.dom() =~= Set::empty());
}

} // verus!
