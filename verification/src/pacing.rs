//! Pacing the frames of a wall: a request that comes while an older frame is under way is held,
//! and of the held ones only the newest is issued.
use crate::idmap::contains_id;
use vstd::prelude::*;

verus! {

#[derive(Clone, Copy, Debug, PartialEq, Eq, Structural)]
pub enum WallFramePacingMode {
    /// Requests are held and the latest one wins.
    Latest,
    /// Every request is issued at once.
    Legacy,
}

#[derive(Clone, Copy, Debug, PartialEq, Eq, Structural)]
pub struct WallFramePacingConfig {
    pub mode: WallFramePacingMode,
    pub max_pending: usize,
    pub min_interval_ns: u64,
}

/// Milliseconds as nanoseconds, up to the largest value.
pub open spec fn millis_to_nanos(ms: i64) -> u64 {
    if ms * 1_000_000 <= u64::MAX {
        (ms * 1_000_000) as u64
    } else {
        u64::MAX
    }
}

impl WallFramePacingConfig {
    pub open spec fn is_enabled(self) -> bool {
        self.mode == WallFramePacingMode::Latest
    }

    /// The settings. A limit that is not positive falls back to one; an interval that is not
    /// positive falls back to the period of the paint timer.
    pub fn from_prefs(
        pacing_enabled: bool,
        raw_max_pending: i64,
        raw_min_interval_ms: i64,
        paint_timer_period_ns: u64,
    ) -> (c: WallFramePacingConfig)
        ensures
            c.is_enabled() == pacing_enabled,
            c.max_pending >= 1,
            raw_max_pending > 0 && raw_max_pending <= usize::MAX ==> c.max_pending
                == raw_max_pending,
            raw_max_pending > usize::MAX ==> c.max_pending == usize::MAX,
            raw_max_pending <= 0 ==> c.max_pending == 1,
            c.min_interval_ns == (if raw_min_interval_ms > 0 {
                millis_to_nanos(raw_min_interval_ms)
            } else {
                paint_timer_period_ns
            }),
    {
        let mode = if pacing_enabled {
            WallFramePacingMode::Latest
        } else {
            WallFramePacingMode::Legacy
        };
        let max_pending: usize = if raw_max_pending <= 0 {
            1
        } else if raw_max_pending as u64 <= usize::MAX as u64 {
            raw_max_pending as usize
        } else {
            usize::MAX
        };
        let min_interval_ns: u64 = if raw_min_interval_ms > 0 {
            match (raw_min_interval_ms as u64).checked_mul(1_000_000) {
                Some(ns) => ns,
                None => u64::MAX,
            }
        } else {
            paint_timer_period_ns
        };
        WallFramePacingConfig { mode, max_pending, min_interval_ns }
    }

    pub fn enabled(&self) -> (b: bool)
        ensures
            b == self.is_enabled(),
    {
        match self.mode {
            WallFramePacingMode::Latest => true,
            WallFramePacingMode::Legacy => false,
        }
    }
}

/// A request for a frame: the painters that draw it, and the web views that span several painters.
#[derive(Debug)]
pub struct WallFrameRequest {
    pub target_painter_ids: Vec<u64>,
    pub wall_webview_ids: Vec<u64>,
}

/// A request as a value.
#[verifier::ext_equal]
pub struct RequestView {
    pub painters: Seq<u64>,
    pub webviews: Seq<u64>,
}

impl View for WallFrameRequest {
    type V = RequestView;

    open spec fn view(&self) -> RequestView {
        RequestView { painters: self.target_painter_ids@, webviews: self.wall_webview_ids@ }
    }
}

impl RequestView {
    /// No painter and no web view stands twice in the request.
    pub open spec fn wf(self) -> bool {
        self.painters.no_duplicates() && self.webviews.no_duplicates()
    }

    /// The web view that the request is held under.
    pub open spec fn key(self) -> Option<u64> {
        if self.webviews.len() > 0 {
            Some(self.webviews[0])
        } else {
            None
        }
    }
}

impl WallFrameRequest {
    /// The web view that the request is held under: the first that spans several painters.
    pub fn pacing_key(&self) -> (r: Option<u64>)
        ensures
            r == self@.key(),
    {
        if self.wall_webview_ids.len() > 0 {
            Some(self.wall_webview_ids[0])
        } else {
            None
        }
    }

    /// Adds a painter that is not yet there.
    pub fn add_painter(&mut self, painter_id: u64)
        ensures
            final(self)@ == (if old(self)@.painters.contains(painter_id) {
                old(self)@
            } else {
                RequestView { painters: old(self)@.painters.push(painter_id), ..old(self)@ }
            }),
    {
        if !contains_id(&self.target_painter_ids, painter_id) {
            self.target_painter_ids.push(painter_id);
        }
    }

    /// Adds a web view that is not yet there.
    pub fn add_webview(&mut self, webview_id: u64)
        ensures
            final(self)@ == (if old(self)@.webviews.contains(webview_id) {
                old(self)@
            } else {
                RequestView { webviews: old(self)@.webviews.push(webview_id), ..old(self)@ }
            }),
    {
        if !contains_id(&self.wall_webview_ids, webview_id) {
            self.wall_webview_ids.push(webview_id);
        }
    }
}

/// A request that is held.
#[derive(Debug)]
pub struct CoalescedWallFrameRequest {
    pub request: WallFrameRequest,
    pub coalesced_count: u64,
    pub max_pending_seen: usize,
}

/// A held request as a value.
#[verifier::ext_equal]
pub struct CoalescedView {
    pub request: RequestView,
    pub count: u64,
    pub max_pending: usize,
}

impl View for CoalescedWallFrameRequest {
    type V = CoalescedView;

    open spec fn view(&self) -> CoalescedView {
        CoalescedView {
            request: self.request@,
            count: self.coalesced_count,
            max_pending: self.max_pending_seen,
        }
    }
}

/// Why a request is held.
#[derive(Clone, Copy, Debug, PartialEq, Eq, Structural)]
pub enum WallFramePacingBlockReason {
    /// The barrier of an earlier frame of this web view is open.
    Active(u64),
    /// This many frames are pending in one of the painters.
    Pending(usize),
    /// The last frame of this web view was issued only this long ago.
    TooSoon(u64, u64),
}

/// How many requests each gate held. A request counts for the first gate that holds it.
#[derive(Clone, Copy, Debug, PartialEq, Eq, Structural)]
pub struct WallFramePacingBlockTally {
    pub active: u64,
    pub pending: u64,
    pub too_soon: u64,
}

impl WallFramePacingBlockTally {
    pub open spec fn recorded(self, reason: WallFramePacingBlockReason) -> WallFramePacingBlockTally {
        match reason {
            WallFramePacingBlockReason::Active(_) => WallFramePacingBlockTally {
                active: self.active.wrapping_add(1),
                ..self
            },
            WallFramePacingBlockReason::Pending(_) => WallFramePacingBlockTally {
                pending: self.pending.wrapping_add(1),
                ..self
            },
            WallFramePacingBlockReason::TooSoon(_, _) => WallFramePacingBlockTally {
                too_soon: self.too_soon.wrapping_add(1),
                ..self
            },
        }
    }

    pub fn record(&mut self, reason: &WallFramePacingBlockReason)
        ensures
            *final(self) == old(self).recorded(*reason),
    {
        match reason {
            WallFramePacingBlockReason::Active(_) => {
                self.active = self.active.wrapping_add(1);
            },
            WallFramePacingBlockReason::Pending(_) => {
                self.pending = self.pending.wrapping_add(1);
            },
            WallFramePacingBlockReason::TooSoon(_, _) => {
                self.too_soon = self.too_soon.wrapping_add(1);
            },
        }
    }
}

/// The wake of the pacer after one more is asked for: an earlier one that is already set stays.
pub open spec fn wake_after(scheduled: Option<u64>, now: u64, delay: u64) -> Option<u64> {
    let at = if now + delay <= u64::MAX {
        (now + delay) as u64
    } else {
        u64::MAX
    };
    match scheduled {
        Some(earlier) => if earlier <= at {
            Some(earlier)
        } else {
            Some(at)
        },
        None => Some(at),
    }
}

/// Asks for a wake after a delay. The answer says whether the host has to arrange one: not where
/// an earlier one is already arranged.
pub fn schedule_wall_frame_pacing_wake(scheduled: &mut Option<u64>, now: u64, delay: u64) -> (set:
    bool)
    ensures
        *final(scheduled) == wake_after(*old(scheduled), now, delay),
        set == !(*old(scheduled) matches Some(earlier) && earlier <= now + delay),
{
    let at: u64 = now.saturating_add(delay);
    if let Some(earlier) = *scheduled {
        if earlier <= at {
            return false;
        }
    }
    *scheduled = Some(at);
    true
}

/// Asking for a wake never puts a wake that is already arranged off.
pub proof fn law_wake_is_never_put_off(scheduled: Option<u64>, now: u64, delay: u64)
    ensures
        wake_after(scheduled, now, delay) matches Some(at) && (scheduled matches Some(earlier)
            ==> at <= earlier) && at <= now + delay,
{
}

} // verus!
