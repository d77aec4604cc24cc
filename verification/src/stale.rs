//! Which parts of the two buffers of a flip chain have missed updates.
//!
//! A present swaps the two buffers. The buffer that was just drawn is complete; the other one
//! has missed whatever the frame drew. Before a partial frame is presented, the parts that the
//! back buffer has missed are copied over from the buffer on display.
use vstd::prelude::*;

use crate::geometry::DeviceIntRect;
use crate::region::{
    bounding_union, collapsed, law_collapse_only_widens, law_region_difference, region_has,
    region_subtract, without_all,
};

verus! {

/// A buffer's list of missed rectangles collapses to one above this length.
pub const MAX_STALE_RECTS: usize = 32;

/// The missed rectangles of each buffer, in buffer coordinates, and the buffer that is drawn to.
#[derive(Debug)]
pub struct StaleTracker {
    pub stale: [Vec<DeviceIntRect>; 2],
    pub cur: usize,
}

impl Default for StaleTracker {
    fn default() -> (t: StaleTracker)
        ensures
            t.wf(),
            t.missed() == Seq::<DeviceIntRect>::empty(),
            t.cur == 0,
    {
        StaleTracker { stale: [Vec::new(), Vec::new()], cur: 0 }
    }
}

impl StaleTracker {
    /// The buffer on display has missed nothing.
    pub open spec fn wf(self) -> bool {
        self.cur < 2 && self.stale@[1 - self.cur]@ == Seq::<DeviceIntRect>::empty()
    }

    /// What the buffer that is drawn to has missed.
    pub open spec fn missed(self) -> Seq<DeviceIntRect> {
        self.stale@[self.cur as int]@
    }

    /// Records that a frame which drew `frame_dirty` was presented: the buffers change places,
    /// the one now on display has missed nothing, and the other one has missed `frame_dirty`.
    /// A list that grows too long collapses to its bounding rectangle: copying a region that is
    /// up to date once more does no harm. `full` is the whole buffer.
    pub fn on_present(&mut self, frame_dirty: &[DeviceIntRect], full: DeviceIntRect)
        requires
            old(self).wf(),
        ensures
            final(self).wf(),
            final(self).cur == 1 - old(self).cur,
            final(self).missed() == collapsed(frame_dirty@, MAX_STALE_RECTS as int),
    {
        let cur: usize = self.cur;
        let other: usize = 1 - cur;
        self.stale[cur].clear();
        let mut k: usize = 0;
        while k < frame_dirty.len()
            invariant
                k <= frame_dirty@.len(),
                cur < 2,
                other == 1 - cur,
                self.cur == cur,
                self.stale@[cur as int]@ == Seq::<DeviceIntRect>::empty(),
                self.stale@[other as int]@ == frame_dirty@.take(k as int),
            decreases frame_dirty@.len() - k,
        {
            self.stale[other].push(frame_dirty[k]);
            k = k + 1;
        }
        assert(frame_dirty@.take(frame_dirty@.len() as int) =~= frame_dirty@);
        if self.stale[other].len() > MAX_STALE_RECTS {
            let union = match bounding_union(self.stale[other].as_slice()) {
                Some(union) => union,
                None => full,
            };
            self.stale[other].clear();
            self.stale[other].push(union);
        }
        self.cur = other;
    }

    /// What has to be copied into the back buffer before a frame that draws `frame_dirty` can be
    /// presented: what the buffer has missed, without what the frame draws anyway.
    pub fn catchup_rects(&self, frame_dirty: &[DeviceIntRect]) -> (out: Vec<DeviceIntRect>)
        requires
            self.wf(),
        ensures
            out@ == without_all(self.missed(), frame_dirty@),
    {
        region_subtract(self.stale[self.cur].as_slice(), frame_dirty)
    }

    pub fn reset(&mut self)
        ensures
            final(self).wf(),
            final(self).cur == 0,
            final(self).missed() == Seq::<DeviceIntRect>::empty(),
    {
        self.stale[0].clear();
        self.stale[1].clear();
        self.cur = 0;
    }
}

/// The content of a buffer: a value for each pixel.
pub type Pixels = spec_fn(int, int) -> int;

/// Within `full`, the buffer shows `latest` at every pixel outside `missed`.
pub open spec fn current_but_for(
    buffer: Pixels,
    latest: Pixels,
    missed: Seq<DeviceIntRect>,
    full: DeviceIntRect,
) -> bool {
    forall|x: int, y: int|
        full.has(x, y) && !region_has(missed, x, y) ==> #[trigger] buffer(x, y) == latest(x, y)
}

/// The back buffer after a frame drew `next` in `dirty` and the catch-up copied `copied` over
/// from the buffer on display.
pub open spec fn composed(
    back: Pixels,
    front: Pixels,
    next: Pixels,
    dirty: Seq<DeviceIntRect>,
    copied: Seq<DeviceIntRect>,
) -> Pixels {
    |x: int, y: int|
        if region_has(dirty, x, y) {
            next(x, y)
        } else if region_has(copied, x, y) {
            front(x, y)
        } else {
            back(x, y)
        }
}

/// A partial present shows the newest picture everywhere. `latest` is the picture so far, which
/// the buffer on display shows completely and the back buffer shows but for what it has missed;
/// `next` differs from it in `dirty` alone. Drawing `dirty` and copying the catch-up rectangles
/// makes the back buffer show `next` at every pixel of the buffer, and what the tracker records
/// then is enough for the frame after it.
pub proof fn law_partial_present_is_complete(
    tracker: StaleTracker,
    after: StaleTracker,
    back: Pixels,
    front: Pixels,
    latest: Pixels,
    next: Pixels,
    dirty: Seq<DeviceIntRect>,
    full: DeviceIntRect,
)
    requires
        current_but_for(back, latest, tracker.missed(), full),
        current_but_for(front, latest, seq![], full),
        current_but_for(next, latest, dirty, full),
        after.missed() == collapsed(dirty, MAX_STALE_RECTS as int),
    ensures
        current_but_for(
            composed(back, front, next, dirty, without_all(tracker.missed(), dirty)),
            next,
            seq![],
            full,
        ),
        current_but_for(front, next, after.missed(), full),
{
    let copied = without_all(tracker.missed(), dirty);
    let shown = composed(back, front, next, dirty, copied);
    let none = Seq::<DeviceIntRect>::empty();
    assert forall|x: int, y: int| full.has(x, y) && !region_has(none, x, y) implies #[trigger] shown(
        x,
        y,
    ) == next(x, y) by {
        law_region_difference(tracker.missed(), dirty, x, y);
        assert(front(x, y) == latest(x, y));
        if !region_has(dirty, x, y) {
            assert(next(x, y) == latest(x, y));
            if !region_has(copied, x, y) {
                assert(back(x, y) == latest(x, y));
            }
        }
    }
    assert forall|x: int, y: int|
        full.has(x, y) && !region_has(after.missed(), x, y) implies #[trigger] front(x, y) == next(
        x,
        y,
    ) by {
        if region_has(dirty, x, y) {
            law_collapse_only_widens(dirty, MAX_STALE_RECTS as int, x, y);
        }
        assert(!region_has(none, x, y));
        assert(front(x, y) == latest(x, y));
        assert(next(x, y) == latest(x, y));
    }
}

/// Recording the whole buffer as missed is right whatever the buffer holds: this is how the
/// buffer that was never drawn to is entered at the first present.
pub proof fn law_unknown_buffer_misses_everything(back: Pixels, latest: Pixels, full: DeviceIntRect)
    ensures
        current_but_for(back, latest, seq![full], full),
{
    assert forall|x: int, y: int|
        full.has(x, y) && !region_has(seq![full], x, y) implies #[trigger] back(x, y) == latest(
        x,
        y,
    ) by {
        assert(seq![full][0].has(x, y));
    }
}

/// A frame that draws all that the back buffer has missed needs no catch-up copy.
pub proof fn law_full_frame_needs_no_catchup(tracker: StaleTracker, dirty: Seq<DeviceIntRect>)
    requires
        forall|x: int, y: int|
            region_has(tracker.missed(), x, y) ==> #[trigger] region_has(dirty, x, y),
    ensures
        without_all(tracker.missed(), dirty).len() == 0,
{
    let rest = without_all(tracker.missed(), dirty);
    if rest.len() > 0 {
        let x = rest[0].min.x as int;
        let y = rest[0].min.y as int;
        law_region_difference(tracker.missed(), dirty, x, y);
        assert(rest[0].has(x, y));
        assert(region_has(rest, x, y));
        assert(region_has(dirty, x, y));
    }
}

} // verus!
