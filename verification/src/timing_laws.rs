//! Laws of time: the grids of the outputs, the moment a frame aims at, the commits that wait for
//! their deadline, and the percentiles of what was measured.

use crate::commit_scheduler::{
    due, is_earliest, max_u64, no_stats, not_due, with_commit, Scheduled,
};
use crate::output_grid::{
    doubled_backoff, grid_of_pair, law_lead_ends_on_the_grid, new_aim, nominal, OutputTable,
    SampleBase, BACKOFF_MIN_MS, IDLE_ROUND_MS, SECOND_NS,
};
use crate::pacing::{millis_to_nanos, wake_after, RequestView};
use crate::refresh_driver::{kept, BaseRefreshDriver};
use crate::ticks::{distance, micros, phase_in, sat_mul};
use crate::window::{
    is_sorting_of, percentile_index, percentiles_of, Percentiles, Sample, SampleWindow,
};
use vstd::prelude::*;

verus! {

/// A product that fits is exact; one that does not ends at the largest tick.
pub proof fn law_product_saturates(a: u64, b: u64)
    ensures
        a * b <= 0xffff_ffff_ffff_ffff ==> sat_mul(a as int, b as int) == a * b,
        a * b > 0xffff_ffff_ffff_ffff ==> sat_mul(a as int, b as int) == 0xffff_ffff_ffff_ffff,
{
}

/// The distance of two moments leads from the one to the other, and is never negative.
pub proof fn law_distance_is_symmetric(a: int, b: int)
    ensures
        distance(a, b) >= 0,
        a + distance(a, b) == b || a - distance(a, b) == b,
        distance(a, b) == distance(b, a),
{
}

/// The phase is how far a moment lies past the last line of a grid: less than a period, and the moment
/// that much earlier is on the grid.
pub proof fn law_phase_leads_back_to_the_grid(at: int, origin: int, period: int, k: int)
    requires
        period > 0,
        k == (at - origin) / period,
    ensures
        0 <= phase_in(at, origin, period) < period,
        at - phase_in(at, origin, period) == origin + k * period,
{
    vstd::arithmetic::div_mod::lemma_fundamental_div_mod(at - origin, period);
    vstd::arithmetic::div_mod::lemma_mod_bound(at - origin, period);
    assert(k * period == period * k) by (nonlinear_arith);
}

/// The moment that a frame aims at lies on the grid of the reference, more than the lead ahead and at
/// most one period more.
pub proof fn law_aim_lies_ahead_on_the_grid(reference: (u64, u64), now: u64, lead_periods: u64)
    requires
        reference.1 > 0,
        now + reference.1 * (lead_periods + 1) <= u64::MAX,
    ensures
        ({
            let aim = new_aim(reference, now, lead_periods);
            &&& (aim - reference.0) % reference.1 as int == 0
            &&& now + reference.1 * lead_periods < aim
            &&& aim <= now + reference.1 * lead_periods + reference.1
        }),
{
    assert(reference.1 * (lead_periods + 1) == reference.1 * lead_periods + reference.1)
        by (nonlinear_arith);
    law_lead_ends_on_the_grid(
        now as int,
        reference.0 as int,
        reference.1 as int,
        lead_periods as int,
    );
}

/// The moment of a tile, that of the frame and the offset of its output, lies on the grid of its own
/// output; an output that was never seen has no offset.
pub proof fn law_tile_aims_at_the_grid_of_its_output(
    table: OutputTable,
    monitor: u64,
    reference: (u64, u64),
    aim: int,
)
    requires
        reference.1 > 0,
        (aim - reference.0) % reference.1 as int == 0,
    ensures
        table.grids@.contains_key(monitor) ==> (aim + table.offset(
            monitor,
            reference.0,
            reference.1,
        ) - table.grids@[monitor].vblank_qpc) % reference.1 as int == 0,
        0 <= table.offset(monitor, reference.0, reference.1) < reference.1,
        !table.grids@.contains_key(monitor) ==> table.offset(monitor, reference.0, reference.1) == 0,
        table.offset(monitor, reference.0, 0) == 0,
{
    let p = reference.1 as int;
    if table.grids@.contains_key(monitor) {
        let v = table.grids@[monitor].vblank_qpc as int;
        let o = table.offset(monitor, reference.0, reference.1);
        let k = (v - reference.0) / p;
        law_phase_leads_back_to_the_grid(v, reference.0 as int, p, k);
        let j = (aim - reference.0) / p;
        vstd::arithmetic::div_mod::lemma_fundamental_div_mod(aim - reference.0, p);
        assert(aim + o - v == p * (j - k)) by (nonlinear_arith)
            requires
                aim - reference.0 == p * j,
                v - o == reference.0 + k * p,
        ;
        assert(p * (j - k) == (j - k) * p) by (nonlinear_arith);
        vstd::arithmetic::div_mod::lemma_mod_multiples_basic(j - k, p);
    }
}

/// A moment is kept for less than half a period, as long as the period is the same, and is set anew after
/// that; the new one is remembered with the time it was set at.
pub proof fn law_moment_is_kept_for_half_a_period(
    before: SampleBase,
    reference: (u64, u64),
    now: u64,
    lead_periods: u64,
    set_at: u64,
    base: u64,
    period: u64,
)
    requires
        before.remembered == Some((set_at, base, period)),
    ensures
        period == reference.1 && 2 * (now - set_at) + 2 <= period && period >= 2 ==> before.aim(
            reference,
            now,
            lead_periods,
        ) == base && before.asked(reference, now, lead_periods) == before,
        period != reference.1 || 2 * (now - set_at) + 2 > period ==> {
            let aim = new_aim(reference, now, lead_periods);
            before.aim(reference, now, lead_periods) == aim && before.asked(
                reference,
                now,
                lead_periods,
            ).remembered == Some((now, aim as u64, reference.1))
        },
{
}

/// The first moment is always a new one.
pub proof fn law_first_moment_is_new(reference: (u64, u64), now: u64, lead_periods: u64)
    ensures
        ({
            let before = SampleBase { remembered: None };
            let aim = new_aim(reference, now, lead_periods);
            before.aim(reference, now, lead_periods) == aim && before.asked(
                reference,
                now,
                lead_periods,
            ).remembered == Some((now, aim as u64, reference.1))
        }),
{
}

/// The reference is the output with the least number among those with a period; there is none only where
/// no output has one.
pub proof fn law_reference_is_the_first_usable_output(table: OutputTable, monitor: u64)
    requires
        table.grids@.contains_key(monitor),
        table.grids@[monitor].period_qpc > 0,
        forall|m: u64| #[trigger]
            table.grids@.contains_key(m) && table.grids@[m].period_qpc > 0 ==> monitor <= m,
    ensures
        table.reference() == Some(
            (table.grids@[monitor].vblank_qpc, table.grids@[monitor].period_qpc),
        ),
{
    assert forall|m: u64| table.grids@.contains_key(m) && table.grids@[m].period_qpc > 0 implies monitor
        <= #[trigger] crate::output_grid::ident(m) by {
        assert(table.grids@.contains_key(m));
    }
    assert(table.is_reference(monitor));
    let m = choose|m: u64| table.is_reference(m);
    assert(table.is_reference(m));
    assert(table.grids@.contains_key(m));
    assert(crate::output_grid::ident(monitor) == monitor);
}

/// Without an output that has a period there is no reference.
pub proof fn law_no_usable_output_no_reference(table: OutputTable)
    requires
        forall|m: u64| #[trigger]
            table.grids@.contains_key(m) ==> table.grids@[m].period_qpc == 0,
    ensures
        table.reference() is None,
{
    assert forall|m: u64| !table.is_reference(m) by {
        if table.is_reference(m) {
            assert(table.grids@.contains_key(m));
        }
    }
}

/// The grid of an output passes through the later of the two blanks that were waited for. Its period is
/// that of the mode where one is known; else the time between the two, where that is a rate between
/// thirty and two hundred and forty a second; and else a sixtieth of a second, which counts as not
/// measured.
pub proof fn law_grid_passes_through_the_last_blank(
    t1: u64,
    t2: u64,
    freq: u64,
    hz: Option<u64>,
    fastest: int,
    slowest: int,
    sixtieth: int,
)
    requires
        240 * fastest <= freq < 240 * fastest + 240,
        30 * slowest <= freq < 30 * slowest + 30,
        60 * sixtieth <= freq < 60 * sixtieth + 60,
    ensures
        ({
            let g = grid_of_pair(t1, t2, freq, hz);
            let sane = fastest < t2 - t1 < slowest;
            let mode = hz is Some && hz->0 > 0;
            &&& g.vblank_qpc == t2
            &&& g.measured <==> mode || sane
            &&& !mode && sane ==> g.period_qpc == t2 - t1
            &&& !mode && !sane ==> g.period_qpc == sixtieth
            &&& mode && sane ==> g.period_qpc == nominal(
                hz->0 as int,
                freq as int,
                Some((t2 - t1) as u64),
            ) as u64
            &&& mode && !sane ==> g.period_qpc == nominal(hz->0 as int, freq as int, None) as u64
        }),
{
}

/// Relative phases are told from the first output of the list that was seen, where that one has a period.
pub proof fn law_phases_are_told_from_the_first_output_seen(
    table: OutputTable,
    monitors: Seq<u64>,
    i: int,
)
    requires
        0 <= i < monitors.len(),
        forall|k: int| 0 <= k < i ==> !table.grids@.contains_key(#[trigger] monitors[k]),
        table.grids@.contains_key(monitors[i]),
    ensures
        table.grids@[monitors[i]].period_qpc > 0 ==> table.phase_base(monitors) == Some(
            table.grids@[monitors[i]],
        ),
        table.grids@[monitors[i]].period_qpc == 0 ==> table.phase_base(monitors) is None,
    decreases monitors.len(),
{
    if i > 0 {
        let rest = monitors.subrange(1, monitors.len() as int);
        assert(rest[i - 1] == monitors[i]);
        assert forall|k: int| 0 <= k < i - 1 implies !table.grids@.contains_key(
            #[trigger] rest[k],
        ) by {
            assert(rest[k] == monitors[k + 1]);
        }
        assert(!table.grids@.contains_key(monitors[0]));
        law_phases_are_told_from_the_first_output_seen(table, rest, i - 1);
    }
}

/// Where none of the outputs was seen, no phases are told.
pub proof fn law_unseen_outputs_have_no_phases(table: OutputTable, monitors: Seq<u64>)
    requires
        forall|k: int| 0 <= k < monitors.len() ==> !table.grids@.contains_key(#[trigger] monitors[k]),
    ensures
        table.phase_base(monitors) is None,
    decreases monitors.len(),
{
    if monitors.len() > 0 {
        let rest = monitors.subrange(1, monitors.len() as int);
        assert forall|k: int| 0 <= k < rest.len() implies !table.grids@.contains_key(
            #[trigger] rest[k],
        ) by {
            assert(rest[k] == monitors[k + 1]);
        }
        assert(!table.grids@.contains_key(monitors[0]));
        law_unseen_outputs_have_no_phases(table, rest);
    }
}

/// Ticks become the whole microseconds that passed: a clock of `freq` ticks a second takes at least that
/// long for them, and less than one more. A clock that does not run counts one tick a second.
pub proof fn law_micros_are_what_the_clock_says(ticks: u64, freq: u64)
    requires
        ticks * 1_000_000 <= u64::MAX,
    ensures
        freq > 0 ==> micros(ticks as int, freq as int) * freq <= ticks * 1_000_000 < (micros(
            ticks as int,
            freq as int,
        ) + 1) * freq,
        freq == 0 ==> micros(ticks as int, freq as int) == ticks * 1_000_000,
{
    if freq > 0 {
        let a = ticks * 1_000_000;
        let b = freq as int;
        vstd::arithmetic::div_mod::lemma_fundamental_div_mod(a, b);
        vstd::arithmetic::div_mod::lemma_mod_bound(a, b);
        let q = a / b;
        assert(micros(ticks as int, freq as int) == q);
        assert(q * b == b * q && (q + 1) * b == b * q + b) by (nonlinear_arith);
    }
}

/// While no output is listed the pause doubles from a tenth of a second up to two seconds.
pub proof fn law_pause_doubles_to_two_seconds(current: int)
    ensures
        current <= 1000 ==> doubled_backoff(current) == current + current,
        current > 1000 ==> doubled_backoff(current) == 2000,
        BACKOFF_MIN_MS == 100,
        IDLE_ROUND_MS == 100,
        SECOND_NS == 1_000_000_000,
{
}

/// What is due is taken off the queue in the order in which it stands there, and what is not stays in its
/// order; each commit goes one of the two ways.
pub proof fn law_commits_keep_their_order(queue: Seq<Scheduled>, now: u64, c: Scheduled)
    ensures
        due(queue, now).len() + not_due(queue, now).len() == queue.len(),
        c.0 <= now ==> due(queue.push(c), now) == due(queue, now).push(c) && not_due(
            queue.push(c),
            now,
        ) == not_due(queue, now),
        c.0 > now ==> due(queue.push(c), now) == due(queue, now) && not_due(queue.push(c), now)
            == not_due(queue, now).push(c),
    decreases queue.len(),
{
    reveal(Seq::filter);
    assert(queue.push(c).drop_last() =~= queue);
    if queue.len() > 0 {
        law_commits_keep_their_order(queue.drop_last(), now, c);
    }
}

/// The commit of a device takes the place of the one that it has, and no other commit moves.
pub proof fn law_commit_keeps_its_place(
    queue: Seq<Scheduled>,
    device: usize,
    monitor: usize,
    deadline: u64,
    i: int,
)
    requires
        0 <= i < queue.len(),
        forall|k: int| 0 <= k < i ==> (#[trigger] queue[k]).1 != device,
        queue[i].1 == device,
    ensures
        with_commit(queue, device, monitor, deadline).len() == queue.len(),
        with_commit(queue, device, monitor, deadline)[i] == (deadline, device, monitor),
        forall|k: int|
            0 <= k < queue.len() && k != i ==> #[trigger] with_commit(
                queue,
                device,
                monitor,
                deadline,
            )[k] == queue[k],
{
    assert(crate::commit_scheduler::queued(queue, device));
    let f = crate::commit_scheduler::first_of(queue, device);
    assert(0 <= i < queue.len() && queue[i].1 == device && forall|k: int|
        0 <= k < i ==> (#[trigger] queue[k]).1 != device);
    assert(f == i) by {
        if f < i {
            assert(queue[f].1 == device);
        }
        if f > i {
            assert(queue[i].1 == device);
        }
    }
}

/// The first commit of a device is put at the end of the queue.
pub proof fn law_new_commit_goes_last(
    queue: Seq<Scheduled>,
    device: usize,
    monitor: usize,
    deadline: u64,
)
    requires
        forall|k: int| 0 <= k < queue.len() ==> (#[trigger] queue[k]).1 != device,
    ensures
        with_commit(queue, device, monitor, deadline) == queue.push((deadline, device, monitor)),
{
}

/// The scheduler sleeps until the first deadline: no commit of the queue is due earlier, and one is due then.
pub proof fn law_sleep_ends_at_the_first_deadline(queue: Seq<Scheduled>, deadline: u64, c: Scheduled)
    requires
        is_earliest(queue, deadline),
    ensures
        queue.contains(c) ==> deadline <= c.0,
        exists|d: Scheduled| #[trigger] queue.contains(d) && d.0 == deadline,
{
    let i = choose|i: int| 0 <= i < queue.len() && (#[trigger] queue[i]).0 == deadline;
    assert(queue.contains(queue[i]));
}

/// The largest is one of the two and below neither.
pub proof fn law_maximum(a: u64, b: u64)
    ensures
        a <= max_u64(a, b) && b <= max_u64(a, b),
        max_u64(a, b) == a || max_u64(a, b) == b,
{
}

/// A percentile is the sample whose rank is nearest to that share of the last rank, the higher of two that
/// are equally near.
pub proof fn law_percentile_is_the_nearest_rank(sorted: Seq<Sample>, low: int, mid: int, high: int)
    requires
        0 < sorted.len() <= usize::MAX,
        100 * low - 50 <= 5 * (sorted.len() - 1) < 100 * low + 50,
        100 * mid - 50 <= 50 * (sorted.len() - 1) < 100 * mid + 50,
        100 * high - 50 <= 95 * (sorted.len() - 1) < 100 * high + 50,
    ensures
        0 <= low <= mid <= high < sorted.len(),
        percentiles_of(sorted).p05 == sorted[low],
        percentiles_of(sorted).p50 == sorted[mid],
        percentiles_of(sorted).p95 == sorted[high],
        percentiles_of(sorted).count == sorted.len(),
{
    let n = sorted.len() as int;
    assert(percentile_index(n, 5) == low);
    assert(percentile_index(n, 50) == mid);
    assert(percentile_index(n, 95) == high);
}

/// The samples are sorted as fractions, and none is lost or made up.
pub proof fn law_samples_are_sorted_as_fractions(
    sorted: Seq<Sample>,
    samples: Seq<Sample>,
    i: int,
    j: int,
)
    requires
        is_sorting_of(sorted, samples),
        0 <= i <= j < sorted.len(),
    ensures
        sorted[i].num * sorted[j].den <= sorted[j].num * sorted[i].den,
        sorted.to_multiset() == samples.to_multiset(),
{
    assert(sorted[i].at_most(sorted[j]));
}

/// Observers that still want frames stay, the others leave, and no one comes.
pub proof fn law_observers_stay_while_they_want(observers: Seq<u64>, keep: Seq<bool>)
    requires
        observers.len() == keep.len(),
    ensures
        forall|i: int|
            0 <= i < observers.len() && keep[i] ==> kept(observers, keep).contains(
                #[trigger] observers[i],
            ),
        forall|o: u64| #[trigger]
            kept(observers, keep).contains(o) ==> exists|i: int|
                0 <= i < observers.len() && keep[i] && #[trigger] observers[i] == o,
        observers.no_duplicates() ==> kept(observers, keep).no_duplicates(),
        (forall|i: int| 0 <= i < keep.len() ==> #[trigger] keep[i]) ==> kept(observers, keep)
            == observers,
    decreases observers.len(),
{
    if observers.len() > 0 {
        let front = observers.drop_last();
        let front_keep = keep.drop_last();
        law_observers_stay_while_they_want(front, front_keep);
        let before = kept(front, front_keep);
        let after = kept(observers, keep);
        if keep.last() {
            assert(after == before.push(observers.last()));
            assert(after[before.len() as int] == observers.last());
        }
        assert forall|i: int| 0 <= i < observers.len() && keep[i] implies after.contains(
            #[trigger] observers[i],
        ) by {
            if i < front.len() {
                assert(front[i] == observers[i] && front_keep[i] == keep[i]);
                assert(before.contains(front[i]));
                let k = choose|k: int| 0 <= k < before.len() && before[k] == front[i];
                assert(after[k] == front[i]);
            }
        }
        assert forall|o: u64| #[trigger] after.contains(o) implies exists|i: int|
            0 <= i < observers.len() && keep[i] && #[trigger] observers[i] == o by {
            let k = choose|k: int| 0 <= k < after.len() && after[k] == o;
            if k < before.len() {
                assert(before[k] == o);
                assert(before.contains(o));
                let i = choose|i: int|
                    0 <= i < front.len() && front_keep[i] && #[trigger] front[i] == o;
                assert(observers[i] == o && keep[i]);
            } else {
                assert(observers[observers.len() - 1] == o);
            }
        }
        if observers.no_duplicates() {
            assert(front.no_duplicates());
            if keep.last() {
                assert(!before.contains(observers.last())) by {
                    if before.contains(observers.last()) {
                        let i = choose|i: int|
                            0 <= i < front.len() && front_keep[i] && #[trigger] front[i]
                                == observers.last();
                        assert(observers[i] == observers[observers.len() - 1]);
                    }
                }
            }
        }
        if forall|i: int| 0 <= i < keep.len() ==> #[trigger] keep[i] {
            assert forall|i: int| 0 <= i < front_keep.len() implies #[trigger] front_keep[i] by {
                assert(keep[i]);
            }
            assert(keep[keep.len() - 1]);
            assert(after =~= observers);
        }
    } else {
        assert(kept(observers, keep) =~= observers);
    }
}

/// A driver waits exactly while it has observers and their frame has not come.
pub proof fn law_driver_waits_for_its_frame(d: BaseRefreshDriver)
    ensures
        d.must_wait() <==> d.observers@.len() > 0 && d.waiting_for_frame,
{
}

/// A millisecond has a million nanoseconds.
pub proof fn law_millis_in_nanos(ms: i64)
    requires
        0 <= ms <= 18_446_744_073_709,
    ensures
        millis_to_nanos(ms) == 1_000_000 * ms,
{
}

/// The loop wakes at the scheduled time or when the delay has passed, whichever comes first, and at no
/// third time.
pub proof fn law_wake_comes_at_one_of_the_two(scheduled: Option<u64>, now: u64, delay: u64)
    requires
        now + delay <= u64::MAX,
    ensures
        wake_after(scheduled, now, delay) == Some((now + delay) as u64) || wake_after(
            scheduled,
            now,
            delay,
        ) == scheduled,
        scheduled is None ==> wake_after(scheduled, now, delay) == Some((now + delay) as u64),
        wake_after(scheduled, now, delay) is Some,
{
}

/// Requests are told apart by the first web view that they are for.
pub proof fn law_request_is_keyed_by_its_first_webview(r: RequestView)
    ensures
        r.webviews.len() > 0 ==> r.key() == Some(r.webviews[0]),
        r.webviews.len() == 0 ==> r.key() is None,
{
}

/// A row of a report is for a source with samples, and holds the percentiles of all of them in order.
pub proof fn law_row_holds_the_percentiles_of_its_source(
    w: SampleWindow,
    row: (u64, Percentiles),
)
    ensures
        w.is_row(row) <==> w.samples@.contains_key(row.0) && w.samples@[row.0]@.len() > 0 && exists|
            sorted: Seq<Sample>,
        | #[trigger]
            is_sorting_of(sorted, w.samples@[row.0]@) && row.1 == percentiles_of(sorted),
{
}

/// A window of measurements starts with nothing counted.
pub proof fn law_new_window_is_empty()
    ensures
        no_stats().scheduled == 0 && no_stats().slip_us_max == 0 && no_stats().slip_us_sum == 0,
        no_stats().lock_wait_us_max == 0 && no_stats().lock_wait_us_sum == 0,
{
}

/// The target of a tile, from the moment of the frame and the offset of its output, lies on the grid of that
/// output and at least the lead ahead.
pub proof fn law_target_of_a_tile(
    table: OutputTable,
    monitor: u64,
    reference: (u64, u64),
    now: u64,
    lead_periods: u64,
)
    requires
        reference.1 > 0,
        now + reference.1 * (lead_periods + 1) <= u64::MAX,
    ensures
        ({
            let t = new_aim(reference, now, lead_periods) + table.offset(
                monitor,
                reference.0,
                reference.1,
            );
            &&& table.grids@.contains_key(monitor) ==> (t - table.grids@[monitor].vblank_qpc)
                % reference.1 as int == 0
            &&& now + reference.1 * lead_periods < t
            &&& t < now + reference.1 * lead_periods + 2 * reference.1
        }),
{
    law_aim_lies_ahead_on_the_grid(reference, now, lead_periods);
    law_tile_aims_at_the_grid_of_its_output(
        table,
        monitor,
        reference,
        new_aim(reference, now, lead_periods),
    );
}

} // verus!
