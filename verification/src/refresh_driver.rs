//! Who waits for the next frame, and when painting has to wait for it.
use vstd::prelude::*;

verus! {

/// The observers of frame starts, each under an id of its own.
#[derive(Debug)]
pub struct BaseRefreshDriver {
    /// The next frame start was asked for and has not come.
    pub waiting_for_frame: bool,
    pub observers: Vec<u64>,
}

/// The observers that are kept, in order.
pub open spec fn kept(observers: Seq<u64>, keep: Seq<bool>) -> Seq<u64>
    recommends
        observers.len() == keep.len(),
    decreases observers.len(),
{
    if observers.len() == 0 {
        Seq::empty()
    } else {
        let rest = kept(observers.drop_last(), keep.drop_last());
        if keep.last() {
            rest.push(observers.last())
        } else {
            rest
        }
    }
}

impl BaseRefreshDriver {
    /// Painting waits: something is animated and the next frame has not started.
    pub open spec fn must_wait(self) -> bool {
        self.observers@.len() > 0 && self.waiting_for_frame
    }

    pub fn new() -> (d: BaseRefreshDriver)
        ensures
            !d.waiting_for_frame,
            d.observers@.len() == 0,
    {
        BaseRefreshDriver { waiting_for_frame: false, observers: Vec::new() }
    }

    /// Adds an observer. The first one makes the driver ask for the next frame start: the answer
    /// says whether the host has to ask for it.
    pub fn add_observer(&mut self, observer: u64) -> (ask: bool)
        ensures
            final(self).observers@ == old(self).observers@.push(observer),
            ask == (old(self).observers@.len() == 0),
            final(self).waiting_for_frame == (old(self).waiting_for_frame || ask),
    {
        self.observers.push(observer);
        if self.observers.len() == 1 {
            self.waiting_for_frame = true;
            return true;
        }
        false
    }

    /// The next frame starts.
    pub fn frame_started(&mut self)
        ensures
            !final(self).waiting_for_frame,
            final(self).observers == old(self).observers,
    {
        self.waiting_for_frame = false;
    }

    /// A paint is about to happen. Every observer was told, in order, and answered whether it
    /// goes on observing. Where one does, the host has to ask for the next frame start.
    pub fn notify_will_paint(&mut self, keep: &[bool]) -> (ask: bool)
        requires
            keep@.len() == old(self).observers@.len(),
        ensures
            final(self).observers@ == kept(old(self).observers@, keep@),
            ask == (final(self).observers@.len() > 0),
            final(self).waiting_for_frame == (old(self).waiting_for_frame || ask),
    {
        let mut out: Vec<u64> = Vec::new();
        let mut i: usize = 0;
        assert(self.observers@.take(0) =~= Seq::<u64>::empty());
        while i < self.observers.len()
            invariant
                i <= self.observers@.len(),
                keep@.len() == self.observers@.len(),
                self.observers@ == old(self).observers@,
                self.waiting_for_frame == old(self).waiting_for_frame,
                out@ == kept(self.observers@.take(i as int), keep@.take(i as int)),
            decreases self.observers@.len() - i,
        {
            proof {
                assert(self.observers@.take(i + 1).drop_last() =~= self.observers@.take(i as int));
                assert(keep@.take(i + 1).drop_last() =~= keep@.take(i as int));
            }
            if keep[i] {
                out.push(self.observers[i]);
            }
            i = i + 1;
        }
        proof {
            assert(self.observers@.take(i as int) =~= self.observers@);
            assert(keep@.take(i as int) =~= keep@);
        }
        self.observers = out;
        if self.observers.len() > 0 {
            self.waiting_for_frame = true;
            return true;
        }
        false
    }

    /// Whether painting has to wait for the next frame start.
    pub fn wait_to_paint(&self) -> (b: bool)
        ensures
            b == self.must_wait(),
    {
        self.observers.len() > 0 && self.waiting_for_frame
    }
}

/// Where nothing is animated, painting never waits; where something is, it waits from the paint
/// on until the next frame starts.
pub proof fn law_only_animation_waits(d: BaseRefreshDriver)
    ensures
        d.observers@.len() == 0 ==> !d.must_wait(),
        !d.waiting_for_frame ==> !d.must_wait(),
{
}

/// The observer that keeps animations going.
#[derive(Clone, Copy, Debug, PartialEq, Eq, Structural)]
pub struct AnimationRefreshDriverObserver {
    pub animating: bool,
}

/// What a change of a web view's animations asks for.
#[derive(Clone, Copy, Debug, PartialEq, Eq, Structural)]
pub struct AnimationNotice {
    /// The web view is to tick its animations now.
    pub tick: bool,
    /// The observer is to be added to the driver.
    pub observe: bool,
}

impl AnimationRefreshDriverObserver {
    pub fn new() -> (o: AnimationRefreshDriverObserver)
        ensures
            !o.animating,
    {
        AnimationRefreshDriverObserver { animating: false }
    }

    /// The animations of a web view started or stopped. One that stopped is noticed at the next
    /// frame.
    pub fn notify_animation_state_changed(&mut self, webview_animating: bool) -> (r:
        AnimationNotice)
        ensures
            r == (AnimationNotice {
                tick: webview_animating,
                observe: webview_animating && !old(self).animating,
            }),
            final(self).animating == (old(self).animating || webview_animating),
    {
        if !webview_animating {
            return AnimationNotice { tick: false, observe: false };
        }
        if self.animating {
            return AnimationNotice { tick: true, observe: false };
        }
        self.animating = true;
        AnimationNotice { tick: true, observe: true }
    }

    /// A frame starts: the web views that are animating are to tick, if there are any. Where there
    /// are none, the observer is done.
    pub fn frame_started(&mut self, animating_webviews: usize) -> (tick: bool)
        ensures
            tick == (animating_webviews > 0),
            final(self).animating == (old(self).animating && tick),
    {
        if animating_webviews == 0 {
            self.animating = false;
            return false;
        }
        true
    }

    /// The ticks were sent, or could not be. The answer says whether the observer goes on.
    pub fn ticks_sent(&mut self, sent: bool) -> (keep: bool)
        ensures
            keep == sent,
            final(self).animating == (old(self).animating || sent),
    {
        if !sent {
            return false;
        }
        self.animating = true;
        true
    }
}

} // verus!
