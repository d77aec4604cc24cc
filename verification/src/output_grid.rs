//! The vertical blanks of each output, as grids in time.
//!
//! The outputs of a wall blank at different moments of one period. Each has a grid of its own:
//! a blank that was observed, and the period between blanks. All tiles of a wall frame aim at
//! one common moment and add the phase of their own output, so that they lie less than a period
//! apart.
use std::collections::HashMap;
use vstd::prelude::*;

use crate::idmap::{distinct_ids, entries_map};
use crate::table::{table_ids, table_retain};
use crate::ticks::{abs_diff, distance, fold, phase_in, sat_mul, saturating_mul};
use crate::window::{Percentiles, Sample, SampleWindow};

verus! {

broadcast use vstd::std_specs::hash::group_hash_axioms;

/// The grid of one output, in clock ticks.
#[derive(Clone, Copy, PartialEq, Eq, Debug, Structural)]
pub struct OutputGrid {
    /// A blank that was observed; also when it was observed.
    pub vblank_qpc: u64,
    pub period_qpc: u64,
    /// There is reason to trust the period: it comes from the display mode or from a sane
    /// measurement.
    pub measured: bool,
}

/// The shortest pause before the outputs are listed again, in milliseconds.
pub const BACKOFF_MIN_MS: u64 = 100;

/// The longest one.
pub const BACKOFF_MAX_MS: u64 = 2000;

/// One second in nanoseconds.
pub const SECOND_NS: u64 = 1_000_000_000;

/// How the clock of the display answers on this platform.
#[derive(Clone, Copy, PartialEq, Eq, Debug, Structural)]
pub enum CompositionTiming {
    /// There is no such clock here.
    Unsupported,
    /// The clock did not answer.
    Unanswered,
    Grid { vblank_qpc: u64, period_qpc: u64 },
}

/// The ticks from `now` to the next point of the grid, and `lead_periods` periods more.
pub open spec fn lead(now: int, vblank: int, period: int, lead_periods: int) -> int {
    period - phase_in(now, vblank, period) + sat_mul(period, lead_periods)
}

/// The ticks from `now` to the next point of the grid, and `lead_periods` periods more. On a
/// point of the grid the next one counts. `None` where the period is not known.
pub fn lead_ticks(now: u64, vblank: u64, period: u64, lead_periods: u64) -> (r: Option<u64>)
    requires
        period > 0 ==> lead(now as int, vblank as int, period as int, lead_periods as int)
            <= u64::MAX,
    ensures
        r == (if period == 0 {
            None
        } else {
            Some(lead(now as int, vblank as int, period as int, lead_periods as int) as u64)
        }),
{
    if period == 0 {
        return None;
    }
    let ahead: u64 = period - fold(now, vblank, period);
    Some(ahead + saturating_mul(period, lead_periods))
}

/// The lead ends on a point of the grid, and lies between one tick and one period beyond the
/// periods that were asked for.
pub proof fn law_lead_ends_on_the_grid(now: int, vblank: int, period: int, lead_periods: int)
    requires
        period > 0,
        lead_periods >= 0,
        period * lead_periods <= u64::MAX,
    ensures
        (now + lead(now, vblank, period, lead_periods) - vblank) % period == 0,
        0 < lead(now, vblank, period, lead_periods) - period * lead_periods <= period,
{
    let d = now - vblank;
    let q = d / period;
    let r = d % period;
    vstd::arithmetic::div_mod::lemma_fundamental_div_mod(d, period);
    assert(d + (period - r + period * lead_periods) == (q + 1 + lead_periods) * period)
        by (nonlinear_arith)
        requires
            d == period * q + r,
    ;
    vstd::arithmetic::div_mod::lemma_mod_multiples_basic(q + 1 + lead_periods, period);
}

/// A rate and its variant of 1000 to 1001: the exact period that the measurement lies nearer to.
pub open spec fn nominal(hz: int, freq: int, measured: Option<u64>) -> int {
    let exact = freq / hz;
    let ntsc = sat_mul(freq, 1001) / sat_mul(hz, 1000);
    match measured {
        None => exact,
        Some(m) => if distance(m as int, exact) <= distance(m as int, ntsc) {
            exact
        } else {
            ntsc
        },
    }
}

/// The period of a display whose mode gives a rate of `hz`. The measurement only chooses
/// between the two exact candidates, so that its jitter does not move the period. `None` where
/// the mode gives no rate.
pub fn nominal_period_ticks(hz: Option<u64>, freq: u64, measured: Option<u64>) -> (r: Option<u64>)
    ensures
        r == (match hz {
            Some(h) if h > 0 => Some(nominal(h as int, freq as int, measured) as u64),
            _ => None,
        }),
{
    let hz: u64 = match hz {
        Some(h) => h,
        None => return None,
    };
    if hz == 0 {
        return None;
    }
    let exact: u64 = freq / hz;
    let scaled: u64 = saturating_mul(hz, 1000);
    let ntsc: u64 = saturating_mul(freq, 1001) / scaled;
    let m: u64 = match measured {
        Some(m) => m,
        None => return Some(exact),
    };
    if abs_diff(m, exact) <= abs_diff(m, ntsc) {
        Some(exact)
    } else {
        Some(ntsc)
    }
}

/// The quotient is the greatest number whose product does not exceed the dividend.
proof fn lemma_quotient(a: int, b: int)
    requires
        b > 0,
    ensures
        (a / b) * b <= a < (a / b + 1) * b,
{
    vstd::arithmetic::div_mod::lemma_fundamental_div_mod(a, b);
    assert((a / b) * b <= a < (a / b + 1) * b) by (nonlinear_arith)
        requires
            a == b * (a / b) + a % b,
            0 <= a % b < b,
    ;
}

/// The period is that of the rate of the mode: as many ticks as go into one blank of `hz` a second, or
/// of 1000 `hz` in 1001 seconds. Without a measurement it is the first. With one it is that of
/// the two which lies nearer to it, so that no measurement moves it elsewhere.
pub proof fn law_nominal_period_is_that_of_the_mode(
    hz: u64,
    freq: u64,
    measured: Option<u64>,
    exact: int,
    ntsc: int,
)
    requires
        hz > 0,
        hz * 1000 <= u64::MAX,
        freq * 1001 <= u64::MAX,
        exact * hz <= freq < (exact + 1) * hz,
        ntsc * (hz * 1000) <= freq * 1001 < (ntsc + 1) * (hz * 1000),
    ensures
        nominal(hz as int, freq as int, measured) == exact || nominal(
            hz as int,
            freq as int,
            measured,
        ) == ntsc,
        measured is None ==> nominal(hz as int, freq as int, measured) == exact,
        measured matches Some(m) ==> {
            let p = nominal(hz as int, freq as int, measured);
            (m - p) * (m - p) <= (m - exact) * (m - exact) && (m - p) * (m - p) <= (m - ntsc) * (m
                - ntsc)
        },
{
    let (h, f) = (hz as int, freq as int);
    lemma_quotient(f, h);
    lemma_quotient(f * 1001, h * 1000);
    let (q, n) = (f / h, (f * 1001) / (h * 1000));
    assert(q == exact) by (nonlinear_arith)
        requires
            h > 0,
            q * h <= f < (q + 1) * h,
            exact * h <= f < (exact + 1) * h,
    ;
    let k = h * 1000;
    assert(n == ntsc) by (nonlinear_arith)
        requires
            k > 0,
            n * k <= f * 1001 < (n + 1) * k,
            ntsc * k <= f * 1001 < (ntsc + 1) * k,
    ;
    if let Some(m) = measured {
        let (a, b) = (distance(m as int, exact), distance(m as int, ntsc));
        assert(a * a == (m - exact) * (m - exact)) by (nonlinear_arith)
            requires
                a == m - exact || a == exact - m,
        ;
        assert(b * b == (m - ntsc) * (m - ntsc)) by (nonlinear_arith)
            requires
                b == m - ntsc || b == ntsc - m,
        ;
        if a <= b {
            assert(a * a <= b * b) by (nonlinear_arith)
                requires
                    0 <= a <= b,
            ;
        } else {
            assert(b * b <= a * a) by (nonlinear_arith)
                requires
                    0 <= b <= a,
            ;
        }
    }
}

/// The rate that a display mode gives; zero and one stand for the hardware's default.
pub fn display_frequency_hz(answered: bool, raw: u32) -> (r: Option<u64>)
    ensures
        r == (if answered && raw > 1 {
            Some(raw as u64)
        } else {
            None
        }),
{
    if !answered || raw <= 1 {
        None
    } else {
        Some(raw as u64)
    }
}

/// The period between two blanks in a row of one output, and whether it was measured. Outside
/// 30 to 240 a second, and where the clock went backwards, the assumed period is taken.
pub fn period_from_pair(t1: u64, t2: u64, freq: u64, assumed: u64) -> (r: (u64, bool))
    ensures
        r == (if t1 <= t2 && t2 - t1 > freq / 240 && t2 - t1 < freq / 30 {
            ((t2 - t1) as u64, true)
        } else {
            (assumed, false)
        }),
{
    let measured: u64 = match t2.checked_sub(t1) {
        Some(m) => m,
        None => return (assumed, false),
    };
    if measured > freq / 240 && measured < freq / 30 {
        (measured, true)
    } else {
        (assumed, false)
    }
}

/// Lets an event through at most once a second: `slot` holds the time of the last one.
pub fn throttled(slot: &mut Option<u64>, now_ns: u64) -> (pass: bool)
    ensures
        pass == !(*old(slot) matches Some(at) && now_ns - at < SECOND_NS),
        *final(slot) == (if pass {
            Some(now_ns)
        } else {
            *old(slot)
        }),
{
    if let Some(at) = *slot {
        if now_ns.saturating_sub(at) < SECOND_NS {
            return false;
        }
    }
    *slot = Some(now_ns);
    true
}

/// Whether the outputs have to be listed again: there is no list, there is nothing on it, or
/// the system says that it is out of date.
pub fn needs_reenumerate(has_factory: bool, outputs: usize, is_current: bool) -> (b: bool)
    ensures
        b == (!has_factory || outputs == 0 || !is_current),
{
    !has_factory || outputs == 0 || !is_current
}

/// The pause after a round in which no output could be sampled.
pub const IDLE_ROUND_MS: u64 = 100;

/// The pause after a round over the outputs: none where one was sampled, since waiting for it took
/// its time. Where all fail at once, nothing blocks, and the round would be repeated at full speed.
pub fn pause_after_round(sampled: usize) -> (pause: Option<u64>)
    ensures
        pause == (if sampled == 0 {
            Some(IDLE_ROUND_MS)
        } else {
            None
        }),
{
    if sampled == 0 {
        Some(IDLE_ROUND_MS)
    } else {
        None
    }
}

/// The pause before the outputs are listed again after `current`.
pub open spec fn doubled_backoff(current: int) -> int {
    if 2 * current <= BACKOFF_MAX_MS {
        2 * current
    } else {
        BACKOFF_MAX_MS as int
    }
}

/// How long to wait before listing the outputs again.
#[derive(Clone, Copy, PartialEq, Eq, Debug, Structural)]
pub struct Backoff {
    pub millis: u64,
}

impl Backoff {
    /// The pause stays between the shortest and the longest one.
    pub open spec fn wf(self) -> bool {
        BACKOFF_MIN_MS <= self.millis <= BACKOFF_MAX_MS
    }

    pub fn new() -> (b: Backoff)
        ensures
            b.wf(),
            b.millis == BACKOFF_MIN_MS,
    {
        Backoff { millis: BACKOFF_MIN_MS }
    }

    /// Takes in a list of `outputs` outputs. Returns the pause where there is none; each one in
    /// a row doubles the next, and a list with outputs goes back to the shortest.
    pub fn listed(&mut self, outputs: usize) -> (pause: Option<u64>)
        requires
            old(self).wf(),
        ensures
            final(self).wf(),
            pause == (if outputs == 0 {
                Some(old(self).millis)
            } else {
                None
            }),
            final(self).millis == (if outputs == 0 {
                doubled_backoff(old(self).millis as int)
            } else {
                BACKOFF_MIN_MS as int
            }),
    {
        if outputs == 0 {
            let pause: u64 = self.millis;
            self.millis = if 2 * pause <= BACKOFF_MAX_MS {
                2 * pause
            } else {
                BACKOFF_MAX_MS
            };
            Some(pause)
        } else {
            self.millis = BACKOFF_MIN_MS;
            None
        }
    }
}

/// The grid that two blanks in a row give. The period comes from the display mode where that
/// gives a rate.
pub open spec fn grid_of_pair(t1: u64, t2: u64, freq: u64, hz: Option<u64>) -> OutputGrid {
    let sane = t1 <= t2 && t2 - t1 > freq / 240 && t2 - t1 < freq / 30;
    let sampled = if sane {
        (t2 - t1) as u64
    } else {
        freq / 60
    };
    match hz {
        Some(h) if h > 0 => OutputGrid {
            vblank_qpc: t2,
            period_qpc: nominal(
                h as int,
                freq as int,
                if sane {
                    Some(sampled)
                } else {
                    None
                },
            ) as u64,
            measured: true,
        },
        _ => OutputGrid { vblank_qpc: t2, period_qpc: sampled, measured: sane },
    }
}

pub fn grid_from_pair(t1: u64, t2: u64, freq: u64, hz: Option<u64>) -> (g: OutputGrid)
    ensures
        g == grid_of_pair(t1, t2, freq, hz),
{
    let assumed: u64 = freq / 60;
    let (sampled, sane) = period_from_pair(t1, t2, freq, assumed);
    let measured = if sane {
        Some(sampled)
    } else {
        None
    };
    match nominal_period_ticks(hz, freq, measured) {
        Some(period) => OutputGrid { vblank_qpc: t2, period_qpc: period, measured: true },
        None => OutputGrid { vblank_qpc: t2, period_qpc: sampled, measured: sane },
    }
}

/// The length of a name in a buffer that a zero ends.
pub fn device_name_end(name: &[u16]) -> (n: usize)
    ensures
        n <= name@.len(),
        forall|i: int| 0 <= i < n ==> name@[i] != 0,
        n < name@.len() ==> name@[n as int] == 0,
{
    let mut i: usize = 0;
    while i < name.len()
        invariant
            i <= name@.len(),
            forall|k: int| 0 <= k < i ==> name@[k] != 0,
        decreases name@.len() - i,
    {
        if name[i] == 0 {
            return i;
        }
        i = i + 1;
    }
    i
}

/// The relative phase of one output.
#[derive(Clone, Copy, PartialEq, Eq, Debug, Structural)]
pub struct OutputPhase {
    pub period_qpc: u64,
    pub measured: bool,
    /// The phase against the base output, in ticks.
    pub relative: u64,
}

/// The grids and the names of the outputs, by monitor.
#[derive(Debug)]
pub struct OutputTable {
    pub grids: HashMap<u64, OutputGrid>,
    pub names: HashMap<u64, String>,
}

impl OutputTable {
    /// The grid of a monitor.
    pub open spec fn grid(self, monitor: u64) -> Option<OutputGrid> {
        if self.grids@.contains_key(monitor) {
            Some(self.grids@[monitor])
        } else {
            None
        }
    }

    /// The monitor has a grid with a period, and none before it in number has.
    pub open spec fn is_reference(self, monitor: u64) -> bool {
        &&& self.grids@.contains_key(monitor)
        &&& self.grids@[monitor].period_qpc > 0
        &&& forall|m: u64|
            self.grids@.contains_key(m) && self.grids@[m].period_qpc > 0 ==> monitor
                <= #[trigger] ident(m)
    }

    /// The blank and the period of the reference output: of the usable monitors, the one with
    /// the least number, which does not depend on the order in which they were listed.
    pub open spec fn reference(self) -> Option<(u64, u64)> {
        if exists|m: u64| self.is_reference(m) {
            let m = choose|m: u64| self.is_reference(m);
            Some((self.grids@[m].vblank_qpc, self.grids@[m].period_qpc))
        } else {
            None
        }
    }

    pub fn new() -> (t: OutputTable)
        ensures
            t.grids@ == Map::<u64, OutputGrid>::empty(),
            t.names@ == Map::<u64, String>::empty(),
    {
        OutputTable { grids: HashMap::new(), names: HashMap::new() }
    }

    pub fn grid_for_monitor(&self, monitor: u64) -> (r: Option<OutputGrid>)
        ensures
            r == self.grid(monitor),
    {
        match self.grids.get(&monitor) {
            Some(g) => Some(*g),
            None => None,
        }
    }

    /// The name of a monitor.
    pub fn name_for_monitor(&self, monitor: u64) -> (r: Option<String>)
        ensures
            match r {
                Some(n) => self.names@.contains_key(monitor) && n@ == self.names@[monitor]@,
                None => !self.names@.contains_key(monitor),
            },
    {
        match self.names.get(&monitor) {
            Some(n) => Some(n.clone()),
            None => None,
        }
    }

    /// Enters the grid that two blanks in a row of a monitor give.
    pub fn record_sample(&mut self, monitor: u64, t1: u64, t2: u64, freq: u64, hz: Option<u64>)
        ensures
            final(self).grids@ == old(self).grids@.insert(monitor, grid_of_pair(t1, t2, freq, hz)),
            final(self).names == old(self).names,
    {
        let g = grid_from_pair(t1, t2, freq, hz);
        self.grids.insert(monitor, g);
    }

    /// Enters the name of a monitor.
    pub fn publish_name(&mut self, monitor: u64, name: String)
        ensures
            final(self).names@ == old(self).names@.insert(monitor, name),
            final(self).grids == old(self).grids,
    {
        self.names.insert(monitor, name);
    }

    /// Forgets the grid and the name of every monitor that is not on the list any more.
    pub fn forget_vanished(&mut self, live: &[u64])
        ensures
            final(self).grids@ == old(self).grids@.restrict(live@.to_set()),
            final(self).names@ == old(self).names@.restrict(live@.to_set()),
    {
        table_retain(&mut self.grids, live);
        table_retain(&mut self.names, live);
    }

    /// The blank and the period that all tiles of a wall go by.
    pub fn reference_grid(&self) -> (r: Option<(u64, u64)>)
        ensures
            r == self.reference(),
    {
        let monitors = table_ids(&self.grids);
        let mut best: Option<(u64, OutputGrid)> = None;
        let mut i: usize = 0;
        while i < monitors.len()
            invariant
                i <= monitors@.len(),
                monitors@.to_set() == self.grids@.dom(),
                match best {
                    None => forall|k: int|
                        0 <= k < i ==> self.grids@[#[trigger] monitors@[k]].period_qpc == 0,
                    Some(b) => self.grids@.contains_key(b.0) && self.grids@[b.0] == b.1
                        && b.1.period_qpc > 0 && forall|k: int|
                        0 <= k < i && self.grids@[#[trigger] monitors@[k]].period_qpc > 0 ==> b.0
                            <= monitors@[k],
                },
            decreases monitors@.len() - i,
        {
            let monitor: u64 = monitors[i];
            assert(monitors@.to_set().contains(monitor));
            if let Some(grid) = self.grids.get(&monitor) {
                if grid.period_qpc > 0 {
                    let first: bool = match best {
                        Some(b) => monitor < b.0,
                        None => true,
                    };
                    if first {
                        best = Some((monitor, *grid));
                    }
                }
            }
            i = i + 1;
        }
        proof {
            assert forall|m: u64| self.grids@.contains_key(m) implies exists|k: int|
                0 <= k < monitors@.len() && #[trigger] monitors@[k] == m by {
                assert(monitors@.to_set().contains(m));
            }
        }
        match best {
            Some(b) => {
                proof {
                    assert forall|m: u64|
                        self.grids@.contains_key(m) && self.grids@[m].period_qpc > 0 implies b.0
                        <= #[trigger] ident(m) by {
                        let k = choose|k: int|
                            0 <= k < monitors@.len() && #[trigger] monitors@[k] == m;
                        assert(self.grids@[monitors@[k]].period_qpc > 0);
                    }
                    assert(self.is_reference(b.0));
                    let m = choose|m: u64| self.is_reference(m);
                    assert(ident(m) == m && ident(b.0) == b.0);
                    assert(m == b.0);
                }
                Some((b.1.vblank_qpc, b.1.period_qpc))
            },
            None => {
                proof {
                    if exists|m: u64| self.is_reference(m) {
                        let m = choose|m: u64| self.is_reference(m);
                        let k = choose|k: int|
                            0 <= k < monitors@.len() && #[trigger] monitors@[k] == m;
                        assert(self.grids@[monitors@[k]].period_qpc == 0);
                    }
                }
                None
            },
        }
    }

    /// How far the monitor's output lies behind the reference; zero where its grid is not
    /// known, which leaves it in the same frame as the others.
    pub open spec fn offset(self, monitor: u64, reference_vblank: u64, period: u64) -> int {
        match self.grid(monitor) {
            Some(g) if period > 0 => phase_in(
                g.vblank_qpc as int,
                reference_vblank as int,
                period as int,
            ),
            _ => 0,
        }
    }

    pub fn phase_offset_for(&self, monitor: u64, reference_vblank: u64, period: u64) -> (r: u64)
        ensures
            r == self.offset(monitor, reference_vblank, period),
            period > 0 ==> r < period,
    {
        match self.grids.get(&monitor) {
            Some(grid) => {
                if period == 0 {
                    0
                } else {
                    fold(grid.vblank_qpc, reference_vblank, period)
                }
            },
            None => 0,
        }
    }

    /// The grid that relative phases are measured against: that of the first listed monitor
    /// that has one, if it has a period.
    pub open spec fn phase_base(self, monitors: Seq<u64>) -> Option<OutputGrid>
        decreases monitors.len(),
    {
        if monitors.len() == 0 {
            None
        } else {
            match self.grid(monitors[0]) {
                Some(g) => if g.period_qpc > 0 {
                    Some(g)
                } else {
                    None
                },
                None => self.phase_base(monitors.subrange(1, monitors.len() as int)),
            }
        }
    }

    /// The phase of each listed monitor against the first of them that has a grid. A monitor
    /// without a grid has no phase; where there is nothing to measure against, none has.
    pub fn relative_phases(&self, monitors: &[u64]) -> (out: Vec<Option<OutputPhase>>)
        ensures
            out@.len() == monitors@.len(),
            forall|i: int|
                0 <= i < out@.len() ==> #[trigger] out@[i] == (match (
                    self.phase_base(monitors@),
                    self.grid(monitors@[i]),
                ) {
                    (Some(base), Some(g)) => Some(
                        OutputPhase {
                            period_qpc: g.period_qpc,
                            measured: g.measured,
                            relative: phase_in(
                                g.vblank_qpc as int,
                                base.vblank_qpc as int,
                                base.period_qpc as int,
                            ) as u64,
                        },
                    ),
                    _ => None,
                }),
    {
        let mut base: Option<OutputGrid> = None;
        let mut searching = true;
        let mut i: usize = 0;
        proof {
            assert(monitors@.subrange(0, monitors@.len() as int) =~= monitors@);
        }
        while searching && i < monitors.len()
            invariant
                i <= monitors@.len(),
                searching ==> base is None && self.phase_base(monitors@) == self.phase_base(
                    monitors@.subrange(i as int, monitors@.len() as int),
                ),
                !searching ==> base == self.phase_base(monitors@),
                base matches Some(b) ==> b.period_qpc > 0,
            decreases monitors@.len() - i,
        {
            let ghost rest = monitors@.subrange(i as int, monitors@.len() as int);
            proof {
                assert(rest[0] == monitors@[i as int]);
                assert(rest.subrange(1, rest.len() as int) =~= monitors@.subrange(
                    i + 1,
                    monitors@.len() as int,
                ));
            }
            match self.grids.get(&monitors[i]) {
                Some(g) => {
                    if g.period_qpc > 0 {
                        base = Some(*g);
                    }
                    searching = false;
                },
                None => {},
            }
            i = i + 1;
        }
        assert(base == self.phase_base(monitors@));
        let mut out: Vec<Option<OutputPhase>> = Vec::new();
        let mut k: usize = 0;
        while k < monitors.len()
            invariant
                k <= monitors@.len(),
                out@.len() == k,
                base == self.phase_base(monitors@),
                base matches Some(b) ==> b.period_qpc > 0,
                forall|i: int|
                    0 <= i < k ==> #[trigger] out@[i] == (match (
                        self.phase_base(monitors@),
                        self.grid(monitors@[i]),
                    ) {
                        (Some(base), Some(g)) => Some(
                            OutputPhase {
                                period_qpc: g.period_qpc,
                                measured: g.measured,
                                relative: phase_in(
                                    g.vblank_qpc as int,
                                    base.vblank_qpc as int,
                                    base.period_qpc as int,
                                ) as u64,
                            },
                        ),
                        _ => None,
                    }),
            decreases monitors@.len() - k,
        {
            let row = match (base, self.grids.get(&monitors[k])) {
                (Some(b), Some(g)) => Some(
                    OutputPhase {
                        period_qpc: g.period_qpc,
                        measured: g.measured,
                        relative: fold(g.vblank_qpc, b.vblank_qpc, b.period_qpc),
                    },
                ),
                _ => None,
            };
            out.push(row);
            k = k + 1;
        }
        out
    }
}

/// The number itself; a handle for quantifiers over monitors.
pub open spec fn ident(m: u64) -> u64 {
    m
}

/// The common moment that the tiles of a wall frame aim at.
#[derive(Clone, Copy, Debug)]
pub struct SampleBase {
    /// When it was set, the moment, and the period that it was set with.
    pub remembered: Option<(u64, u64, u64)>,
}

/// The moment that a new pass aims at: the lead from `now`, on the grid of the reference.
pub open spec fn new_aim(reference: (u64, u64), now: u64, lead_periods: u64) -> int {
    let t = now + lead(now as int, reference.0 as int, reference.1 as int, lead_periods as int);
    if t <= u64::MAX {
        t
    } else {
        u64::MAX as int
    }
}

impl SampleBase {
    pub fn new() -> (b: SampleBase)
        ensures
            b.remembered is None,
    {
        SampleBase { remembered: None }
    }

    /// The moment that was set less than half a period ago, with the same period.
    pub open spec fn fresh(self, now: u64, period: u64) -> Option<u64> {
        match self.remembered {
            Some((set_at, base, p)) => if p == period && (if now >= set_at {
                now - set_at
            } else {
                0
            }) < period / 2 {
                Some(base)
            } else {
                None
            },
            None => None,
        }
    }

    /// The moment to aim at from `now`.
    pub open spec fn aim(
        self,
        reference: (u64, u64),
        now: u64,
        lead_periods: u64,
    ) -> int {
        match self.fresh(now, reference.1) {
            Some(base) => base as int,
            None => new_aim(reference, now, lead_periods),
        }
    }

    /// What is remembered once the moment was asked for.
    pub open spec fn asked(
        self,
        reference: (u64, u64),
        now: u64,
        lead_periods: u64,
    ) -> SampleBase {
        if self.fresh(now, reference.1) is Some {
            self
        } else {
            SampleBase {
                remembered: Some((now, self.aim(reference, now, lead_periods) as u64, reference.1)),
            }
        }
    }

    /// The common moment and the period of the reference output. It is kept for half a period,
    /// so that all painters of one pass get the same one. `None` where no output is usable.
    pub fn wall_sample_base(&mut self, table: &OutputTable, now: u64, lead_periods: u64) -> (r:
        Option<(u64, u64)>)
        requires
            table.reference() matches Some(g) ==> old(self).fresh(now, g.1) is Some || lead(
                now as int,
                g.0 as int,
                g.1 as int,
                lead_periods as int,
            ) <= u64::MAX,
        ensures
            match table.reference() {
                None => r is None && *final(self) == *old(self),
                Some(g) => {
                    &&& r == Some((old(self).aim(g, now, lead_periods) as u64, g.1))
                    &&& *final(self) == old(self).asked(g, now, lead_periods)
                },
            },
    {
        let (reference, period) = match table.reference_grid() {
            Some(g) => g,
            None => return None,
        };
        proof {
            let m = choose|m: u64| table.is_reference(m);
            assert(table.is_reference(m));
        }
        if let Some((set_at, base, remembered)) = self.remembered {
            if remembered == period && now.saturating_sub(set_at) < period / 2 {
                return Some((base, period));
            }
        }
        let ahead: u64 = match lead_ticks(now, reference, period, lead_periods) {
            Some(t) => t,
            None => return None,
        };
        let base: u64 = now.saturating_add(ahead);
        self.remembered = Some((now, base, period));
        Some((base, period))
    }

    /// The ticks until the tile on `monitor` reaches its moment: the common one and the phase of
    /// its output. A moment that has passed counts as now.
    pub fn lead_to_next_vblank(
        &mut self,
        table: &OutputTable,
        monitor: u64,
        lead_periods: u64,
        now: u64,
    ) -> (r: Option<u64>)
        requires
            table.reference() matches Some(g) ==> old(self).fresh(now, g.1) is Some || lead(
                now as int,
                g.0 as int,
                g.1 as int,
                lead_periods as int,
            ) <= u64::MAX,
        ensures
            match table.reference() {
                None => r is None && *final(self) == *old(self),
                Some(g) => {
                    let t = old(self).aim(g, now, lead_periods) + table.offset(monitor, g.0, g.1);
                    let target = if t <= u64::MAX {
                        t
                    } else {
                        u64::MAX as int
                    };
                    &&& r == Some((if target >= now {
                        target - now
                    } else {
                        0
                    }) as u64)
                    &&& final(self).remembered == (if old(self).fresh(now, g.1) is Some {
                        old(self).remembered
                    } else {
                        Some((now, old(self).aim(g, now, lead_periods) as u64, g.1))
                    })
                },
            },
            table.reference() matches Some(g) ==> old(self).remembered is None && now + g.1 * (
            lead_periods + 2) <= u64::MAX ==> {
                &&& r is Some
                &&& table.grids@.contains_key(monitor) ==> (now + r->0
                    - table.grids@[monitor].vblank_qpc) % g.1 as int == 0
                &&& g.1 * lead_periods < r->0
                &&& r->0 < g.1 * lead_periods + 2 * g.1
            },
    {
        let (base, period) = match self.wall_sample_base(table, now, lead_periods) {
            Some(b) => b,
            None => return None,
        };
        let (reference_vblank, _) = match table.reference_grid() {
            Some(g) => g,
            None => return None,
        };
        let offset: u64 = table.phase_offset_for(monitor, reference_vblank, period);
        proof {
            let g = table.reference()->0;
            if now + g.1 * (lead_periods + 2) <= u64::MAX {
                assert(g.1 * (lead_periods + 2) == g.1 * lead_periods + 2 * g.1) by (nonlinear_arith);
                assert(g.1 * (lead_periods + 1) == g.1 * lead_periods + g.1) by (nonlinear_arith);
                crate::timing_laws::law_target_of_a_tile(*table, monitor, g, now, lead_periods);
            }
        }
        let target: u64 = base.saturating_add(offset);
        Some(target.saturating_sub(now))
    }
}

/// The moments of two tiles of one wall frame lie less than a period apart, whatever their
/// outputs are.
pub proof fn law_tiles_stay_within_a_period(
    table: OutputTable,
    a: u64,
    b: u64,
    base: int,
    reference_vblank: u64,
    period: u64,
)
    requires
        period > 0,
    ensures
        0 <= table.offset(a, reference_vblank, period) < period,
        0 <= table.offset(b, reference_vblank, period) < period,
        distance(
            base + table.offset(a, reference_vblank, period),
            base + table.offset(b, reference_vblank, period),
        ) < period,
{
}

/// Two outputs of the same period differ by the phase between their blanks: moving a blank by
/// less than what is left of the period moves the moment by as much.
pub proof fn law_outputs_differ_by_their_phase(
    table: OutputTable,
    a: u64,
    b: u64,
    reference_vblank: u64,
    period: u64,
    shift: int,
)
    requires
        period > 0,
        table.grid(a) is Some,
        table.grid(b) is Some,
        (table.grid(b)->0).vblank_qpc == (table.grid(a)->0).vblank_qpc + shift,
        0 <= shift < period - table.offset(a, reference_vblank, period),
    ensures
        table.offset(b, reference_vblank, period) == table.offset(a, reference_vblank, period)
            + shift,
{
    let p = period as int;
    let d = (table.grid(a)->0).vblank_qpc - reference_vblank;
    let q = d / p;
    let r = d % p;
    vstd::arithmetic::div_mod::lemma_fundamental_div_mod(d, p);
    assert(d + shift == q * p + (r + shift)) by (nonlinear_arith)
        requires
            d == p * q + r,
    ;
    vstd::arithmetic::div_mod::lemma_fundamental_div_mod_converse(d + shift, p, q, r + shift);
}

/// A pass has one moment: once it is set, whoever asks within half a period, with the same period,
/// gets it, whatever lead it asks with and though the reference has ticked on meanwhile, and the
/// memory stays. Later than that, a new moment is set from the grid.
pub proof fn law_one_pass_has_one_moment(
    before: SampleBase,
    reference: (u64, u64),
    later_reference: (u64, u64),
    first: u64,
    later: u64,
    lead_periods: u64,
    other_lead: u64,
)
    requires
        before.fresh(first, reference.1) is None,
        later_reference.1 == reference.1,
    ensures
        ({
            let set = before.asked(reference, first, lead_periods);
            let passed = if later >= first {
                later - first
            } else {
                0
            };
            if passed < reference.1 / 2 {
                &&& set.aim(later_reference, later, other_lead) as u64 == before.aim(
                    reference,
                    first,
                    lead_periods,
                ) as u64
                &&& set.asked(later_reference, later, other_lead) == set
            } else {
                let aim = new_aim(later_reference, later, other_lead);
                &&& set.aim(later_reference, later, other_lead) == aim
                &&& set.asked(later_reference, later, other_lead).remembered == Some(
                    (later, aim as u64, reference.1),
                )
            }
        }),
{
}

/// The leads of the samples of each monitor, and how often there was none.
#[derive(Debug)]
pub struct LeadWindow {
    pub leads: SampleWindow,
    pub missing: u64,
}

impl LeadWindow {
    pub fn new() -> (w: LeadWindow)
        ensures
            w.leads.wf(),
            w.missing == 0,
            forall|m: u64| w.leads.of(m) == Seq::<Sample>::empty(),
    {
        LeadWindow { leads: SampleWindow::new(), missing: 0 }
    }

    /// Adds the lead of a monitor, in nanoseconds.
    pub fn note_sample_lead(&mut self, monitor: u64, lead_ns: u64)
        requires
            old(self).leads.wf(),
        ensures
            final(self).leads.wf(),
            final(self).missing == old(self).missing,
            final(self).leads.of(monitor) == old(self).leads.of(monitor).push(
                Sample { num: lead_ns, den: 1 },
            ),
            forall|m: u64| m != monitor ==> final(self).leads.of(m) == old(self).leads.of(m),
    {
        self.leads.record(monitor, Sample { num: lead_ns, den: 1 });
    }

    /// Counts a frame without a lead.
    pub fn note_sample_lead_missing(&mut self)
        ensures
            final(self).missing == old(self).missing.wrapping_add(1),
            final(self).leads == old(self).leads,
    {
        self.missing = self.missing.wrapping_add(1);
    }

    /// Hands out the leads of every monitor that had one, and how often there was none, and starts
    /// a new window.
    pub fn samplelead(&mut self) -> (r: (Vec<(u64, Percentiles)>, u64))
        requires
            old(self).leads.wf(),
        ensures
            final(self).leads.wf(),
            final(self).missing == 0,
            r.1 == old(self).missing,
            forall|m: u64| #[trigger] final(self).leads.of(m) == Seq::<Sample>::empty(),
            distinct_ids(r.0@),
            forall|i: int| 0 <= i < r.0@.len() ==> old(self).leads.is_row(#[trigger] r.0@[i]),
            forall|m: u64| #[trigger]
                old(self).leads.of(m).len() > 0 ==> entries_map(r.0@).contains_key(m),
    {
        let missing: u64 = self.missing;
        self.missing = 0;
        (self.leads.report(), missing)
    }
}

} // verus!
