//! The latch that keeps at most one composite under way.
//!
//! A composite that was asked for blocks further ones until its render pass is through. A render
//! pass that never comes must not block for ever: after a while the latch opens by itself.
use vstd::prelude::*;

verus! {

/// How long a composite may stay under way before the latch opens by itself, in nanoseconds.
pub const DISPLAY_COMPOSITE_IN_FLIGHT_TIMEOUT_NS: u64 = 2_000_000_000;

#[derive(Clone, Copy, Debug, PartialEq, Eq, Structural)]
pub struct CompositeLatch {
    pub in_flight: bool,
    /// Since when it is in flight.
    pub since: Option<u64>,
}

impl CompositeLatch {
    pub open spec fn opened() -> CompositeLatch {
        CompositeLatch { in_flight: false, since: None }
    }

    /// The two fields agree: a composite in flight has a start.
    pub open spec fn wf(self) -> bool {
        self.in_flight == (self.since is Some)
    }

    /// The latch after a composite was asked for or came through.
    pub open spec fn set_to(self, in_flight: bool, now: u64) -> CompositeLatch {
        if !in_flight {
            CompositeLatch::opened()
        } else if self.in_flight {
            self
        } else {
            CompositeLatch { in_flight: true, since: Some(now) }
        }
    }

    /// The composite under way has waited too long for its render pass.
    pub open spec fn stuck(self, now: u64) -> bool {
        match self.since {
            Some(since) => now >= since + DISPLAY_COMPOSITE_IN_FLIGHT_TIMEOUT_NS,
            None => false,
        }
    }

    /// Whether a further composite has to wait.
    pub open spec fn behind(self, now: u64) -> bool {
        self.in_flight && !self.stuck(now)
    }

    /// The latch after it was asked: one that is stuck opens.
    pub open spec fn asked(self, now: u64) -> CompositeLatch {
        if self.in_flight && self.stuck(now) {
            CompositeLatch::opened()
        } else {
            self
        }
    }

    pub fn new() -> (g: CompositeLatch)
        ensures
            g == CompositeLatch::opened(),
            g.wf(),
    {
        CompositeLatch { in_flight: false, since: None }
    }

    /// Notes that a composite is under way, or that its render pass is through. Only the first
    /// note of a composite sets the start: doing it again must not put the time-out off.
    pub fn set(&mut self, in_flight: bool, now: u64)
        ensures
            *final(self) == old(self).set_to(in_flight, now),
            old(self).wf() ==> final(self).wf(),
    {
        if !in_flight {
            self.in_flight = false;
            self.since = None;
            return ;
        }
        if !self.in_flight {
            self.since = Some(now);
        }
        self.in_flight = true;
    }

    /// Whether a further composite has to wait. A composite that is stuck is given up here.
    pub fn renderer_behind(&mut self, now: u64) -> (b: bool)
        ensures
            b == old(self).behind(now),
            *final(self) == old(self).asked(now),
            old(self).wf() ==> final(self).wf(),
    {
        if !self.in_flight {
            return false;
        }
        let waits: bool = match self.since {
            Some(since) => now.saturating_sub(since) < DISPLAY_COMPOSITE_IN_FLIGHT_TIMEOUT_NS,
            None => true,
        };
        if waits {
            return true;
        }
        self.set(false, now);
        false
    }
}

/// A lost render pass blocks a painter for the time-out at most: whenever a composite was first
/// asked for, however often it is asked for again before the time-out, once the time-out is over
/// the latch lets the next one through.
pub proof fn law_lost_render_blocks_no_longer_than_the_timeout(
    g: CompositeLatch,
    started: u64,
    again: u64,
    now: u64,
)
    requires
        g == CompositeLatch::opened(),
        now >= started + DISPLAY_COMPOSITE_IN_FLIGHT_TIMEOUT_NS,
        again < started + DISPLAY_COMPOSITE_IN_FLIGHT_TIMEOUT_NS,
    ensures
        g.set_to(true, started).behind(again),
        g.set_to(true, started).set_to(true, again) == g.set_to(true, started),
        !g.set_to(true, started).set_to(true, again).behind(now),
        g.set_to(true, started).set_to(true, again).asked(now) == CompositeLatch::opened(),
{
}

/// A render pass that is through lets the next composite through.
pub proof fn law_render_opens_the_latch(g: CompositeLatch, now: u64, later: u64)
    ensures
        !g.set_to(false, now).behind(later),
{
}

} // verus!
