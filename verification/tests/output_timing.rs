use paint::commit_scheduler::{upsert, CommitScheduler, SchedulerStats, SchedulerStep};
use paint::dwm_composition_grid;
use paint::output_grid::{
    device_name_end, display_frequency_hz, grid_from_pair, lead_ticks, needs_reenumerate,
    nominal_period_ticks, pause_after_round, period_from_pair, throttled, Backoff, CompositionTiming, LeadWindow,
    OutputGrid, OutputPhase, OutputTable, SampleBase,
};
use paint::ticks::{abs_diff, fold, saturating_mul, ticks_to_micros};
use paint::window::{percentiles, Percentiles, Sample, SampleWindow};

#[test]
fn a_second_schedule_for_the_same_device_replaces_the_first() {
    let mut queue = Vec::new();
    upsert(&mut queue, 0xAA, 0x11, 100);
    upsert(&mut queue, 0xAA, 0x11, 250);
    assert_eq!(queue, vec![(250, 0xAA, 0x11)], "a device has one commit on the queue");

    // The device moves to another monitor: the deadline and the monitor both change.
    upsert(&mut queue, 0xAA, 0x22, 400);
    assert_eq!(queue, vec![(400, 0xAA, 0x22)], "the monitor is replaced too");
}

#[test]
fn different_devices_each_keep_their_own_deadline() {
    let mut queue = Vec::new();
    upsert(&mut queue, 0xAA, 0x11, 100);
    upsert(&mut queue, 0xBB, 0x22, 250);
    upsert(&mut queue, 0xAA, 0x11, 300);
    queue.sort();
    assert_eq!(queue, vec![(250, 0xBB, 0x22), (300, 0xAA, 0x11)]);
}

#[test]
fn lead_reaches_the_next_grid_point_of_that_output() {
    let period = 166_667;
    assert_eq!(lead_ticks(1_000_010, 1_000_000, period, 0), Some(period - 10));
    assert_eq!(lead_ticks(1_166_600, 1_000_000, period, 0), Some(67));
    assert_eq!(lead_ticks(1_000_010, 1_166_667, period, 0), Some(period - 10));
    assert_eq!(lead_ticks(1_000_010, 1_000_000, period, 2), Some(period - 10 + 2 * period));
    assert_eq!(lead_ticks(1_000_010, 1_000_000, 0, 0), None);
}

/// A table in which one monitor had a blank at the moment.
fn table_with(monitor: u64, vblank: u64, period: u64) -> OutputTable {
    let mut table = OutputTable::new();
    table.record_sample(monitor, vblank - period, vblank, FREQ, None);
    table
}

#[test]
fn every_offset_stays_inside_one_period() {
    let period = 166_667;
    let reference = 1_000_000;
    let period_signed = period as i64;
    for delta in [0_i64, 11_700, 65_700, -46_300, 1 - period_signed, period_signed - 1] {
        let vblank = (reference as i64 + delta) as u64;
        let offset = table_with(7, vblank, period).phase_offset_for(7, reference, period);
        assert!(offset < period, "the offset {offset} of {delta} is longer than a period");
        assert_eq!(offset as i64, delta.rem_euclid(period_signed));
    }
}

#[test]
fn two_outputs_differ_by_their_vblank_phase() {
    let period = 166_667;
    let reference = 1_000_000;
    let offset_of = |vblank: u64| table_with(7, vblank, period).phase_offset_for(7, reference, period);
    let a = offset_of(reference);
    let b = offset_of(reference + 112_000);
    assert_eq!(a, 0, "the reference has no offset");
    assert_eq!(b - a, 112_000, "the offsets differ by the phase");
    assert!(b < period, "and stay within a period");
}

#[test]
fn nominal_period_picks_the_exact_candidate() {
    let freq = 10_000_000_u64;
    let exact = freq / 60;
    let ntsc = freq * 1001 / 60_000;
    assert_ne!(exact, ntsc, "the candidates differ");
    assert!(166_700_u64.abs_diff(exact) <= 166_700_u64.abs_diff(ntsc));
    assert!(166_800_u64.abs_diff(ntsc) <= 166_800_u64.abs_diff(exact));
    assert_eq!(nominal_period_ticks(Some(60), freq, Some(166_700)), Some(exact));
    assert_eq!(nominal_period_ticks(Some(60), freq, Some(166_800)), Some(ntsc));
    assert_eq!(nominal_period_ticks(Some(60), freq, None), Some(exact));
    assert_eq!(nominal_period_ticks(None, freq, Some(166_700)), None);
    assert_eq!(nominal_period_ticks(Some(0), freq, None), None);
}

const FREQ: u64 = 10_000_000;
const ASSUMED: u64 = FREQ / 60;

#[test]
fn a_normal_pair_yields_the_measured_period() {
    let (period, measured) = period_from_pair(0, 166_667, FREQ, ASSUMED);
    assert_eq!(period, 166_667, "the time between two blanks is the period");
    assert!(measured, "and it was measured");
}

#[test]
fn a_pair_faster_than_240hz_falls_back_to_the_assumed_period() {
    let (period, measured) = period_from_pair(1_000, 2_000, FREQ, ASSUMED);
    assert_eq!(period, ASSUMED);
    assert!(!measured);
}

#[test]
fn a_pair_slower_than_30hz_falls_back_to_the_assumed_period() {
    let (period, measured) = period_from_pair(0, 500_000, FREQ, ASSUMED);
    assert_eq!(period, ASSUMED);
    assert!(!measured);
}

#[test]
fn a_backwards_pair_falls_back_to_the_assumed_period() {
    let (period, measured) = period_from_pair(500_000, 400_000, FREQ, ASSUMED);
    assert_eq!(period, ASSUMED);
    assert!(!measured);
}

#[test]
fn a_grid_goes_by_the_mode_where_there_is_one() {
    let measured = grid_from_pair(0, 166_700, FREQ, Some(60));
    assert_eq!(measured, OutputGrid { vblank_qpc: 166_700, period_qpc: 166_666, measured: true });
    let free = grid_from_pair(0, 166_700, FREQ, None);
    assert_eq!(free, OutputGrid { vblank_qpc: 166_700, period_qpc: 166_700, measured: true });
    let wild = grid_from_pair(0, 10, FREQ, None);
    assert_eq!(wild, OutputGrid { vblank_qpc: 10, period_qpc: ASSUMED, measured: false });
    assert_eq!(display_frequency_hz(true, 60), Some(60));
    assert_eq!(display_frequency_hz(true, 1), None);
    assert_eq!(display_frequency_hz(false, 60), None);
}

#[test]
fn the_tiles_of_a_pass_aim_at_one_moment() {
    let period = 166_667;
    let mut table = OutputTable::new();
    table.record_sample(9, 1_000_000 - period + 30_000, 1_030_000, FREQ, None);
    table.record_sample(4, 1_000_000 - period, 1_000_000, FREQ, None);
    // The monitor with the least number is the reference, whichever came first.
    assert_eq!(table.reference_grid(), Some((1_000_000, period)));
    let mut base = SampleBase::new();
    let first = base.wall_sample_base(&table, 1_000_010, 0).unwrap();
    assert_eq!(first, (1_000_000 + period, period));
    // A later painter of the pass gets the same moment.
    assert_eq!(base.wall_sample_base(&table, 1_050_000, 0), Some(first));
    assert_eq!(base.lead_to_next_vblank(&table, 4, 0, 1_050_000), Some(first.0 - 1_050_000));
    assert_eq!(
        base.lead_to_next_vblank(&table, 9, 0, 1_050_000),
        Some(first.0 + 30_000 - 1_050_000)
    );
    // So does one whose clock reads earlier, or that asks with another lead.
    assert_eq!(base.wall_sample_base(&table, 999_000, 0), Some(first));
    assert_eq!(base.wall_sample_base(&table, 1_000_010 + period / 2 - 1, 3), Some(first));
    // The next pass gets the next one.
    let next = base.wall_sample_base(&table, 1_000_010 + period, 0).unwrap();
    assert_eq!(next.0, first.0 + period);
    assert_eq!(SampleBase::new().wall_sample_base(&OutputTable::new(), 5, 0), None);
    assert_eq!(SampleBase::new().lead_to_next_vblank(&OutputTable::new(), 4, 0, 5), None);
}

#[test]
fn phases_are_told_against_the_first_output() {
    let period = 166_667;
    let mut table = OutputTable::new();
    table.record_sample(1, 1_000_000 - period, 1_000_000, FREQ, None);
    table.record_sample(2, 1_040_000 - period, 1_040_000, FREQ, None);
    let rows = table.relative_phases(&[1, 3, 2]);
    assert_eq!(rows[0], Some(OutputPhase { period_qpc: period, measured: true, relative: 0 }));
    assert_eq!(rows[1], None);
    assert_eq!(
        rows[2],
        Some(OutputPhase { period_qpc: period, measured: true, relative: 40_000 })
    );
}

#[test]
fn vanished_outputs_are_forgotten() {
    let mut table = OutputTable::new();
    table.record_sample(1, 0, 166_667, FREQ, None);
    table.record_sample(2, 0, 166_667, FREQ, None);
    table.publish_name(1, "one".to_string());
    table.publish_name(2, "two".to_string());
    table.forget_vanished(&[2]);
    assert_eq!(table.grid_for_monitor(1), None);
    assert_eq!(table.name_for_monitor(1), None);
    assert!(table.grid_for_monitor(2).is_some());
    assert_eq!(table.name_for_monitor(2), Some("two".to_string()));
    assert_eq!(device_name_end(&[68, 73, 0, 83]), 2);
    assert_eq!(device_name_end(&[68, 73]), 2);
}

#[test]
fn listing_backs_off_while_there_are_no_outputs() {
    let mut backoff = Backoff::new();
    let pauses: Vec<Option<u64>> = (0..7).map(|_| backoff.listed(0)).collect();
    assert_eq!(
        pauses,
        vec![Some(100), Some(200), Some(400), Some(800), Some(1600), Some(2000), Some(2000)]
    );
    assert_eq!(backoff.listed(3), None);
    assert_eq!(backoff.listed(0), Some(100));
    assert!(needs_reenumerate(false, 3, true));
    assert!(needs_reenumerate(true, 0, true));
    assert!(needs_reenumerate(true, 3, false));
    assert!(!needs_reenumerate(true, 3, true));
}

#[test]
fn reports_come_once_a_second() {
    let mut slot = None;
    assert!(throttled(&mut slot, 5));
    assert!(!throttled(&mut slot, 1_000_000_004));
    assert!(throttled(&mut slot, 1_000_000_005));
}

#[test]
fn no_scheduler_thread_means_commits_at_once() {
    let mut scheduler = CommitScheduler::new();
    assert!(scheduler.schedule(1, 7, 100));
    assert!(scheduler.queue.is_empty());
    scheduler.alive = true;
    assert!(!scheduler.schedule(1, 7, 100));
    assert!(!scheduler.schedule(2, 7, 300));
    assert_eq!(scheduler.step(Some(50)), SchedulerStep::WaitTicks(50));
    assert_eq!(scheduler.step(Some(100)), SchedulerStep::Commit(vec![(100, 1, 7)]));
    assert_eq!(scheduler.queue, vec![(300, 2, 7)]);
    assert_eq!(scheduler.step(Some(500)), SchedulerStep::Commit(vec![(300, 2, 7)]));
    assert_eq!(scheduler.step(Some(500)), SchedulerStep::WaitForNotify);
    assert_eq!(scheduler.stats.scheduled, 3);
}

#[test]
fn a_clock_that_does_not_answer_commits_all() {
    let mut scheduler = CommitScheduler::new();
    scheduler.alive = true;
    scheduler.schedule(1, 7, 100);
    scheduler.schedule(2, 8, 300);
    assert_eq!(scheduler.step(None), SchedulerStep::Commit(vec![(100, 1, 7), (300, 2, 8)]));
}

#[test]
fn slips_and_waits_are_averaged() {
    let mut scheduler = CommitScheduler::new();
    scheduler.schedule(1, 7, 0);
    scheduler.schedule(1, 7, 0);
    scheduler.record_slip(30, 10, 1_000_000);
    scheduler.record_slip(5, 10, 1_000_000);
    scheduler.record_lock_wait(8, 1_000_000);
    scheduler.record_lock_wait(2, 1_000_000);
    let stats = scheduler.take_stats();
    assert_eq!(
        stats,
        SchedulerStats {
            scheduled: 2,
            slip_us_max: 20,
            slip_us_sum: 20,
            lock_wait_us_max: 8,
            lock_wait_us_sum: 10,
        }
    );
    assert_eq!(stats.averages(), (10, 5));
    assert_eq!(scheduler.take_stats().averages(), (0, 0));
}

#[test]
fn the_phase_of_a_commit_is_a_part_of_the_period() {
    let mut scheduler = CommitScheduler::new();
    let grid = OutputGrid { vblank_qpc: 1000, period_qpc: 100, measured: true };
    scheduler.record_phase(7, Some(grid), 1130);
    scheduler.record_phase(7, None, 1140);
    assert_eq!(scheduler.phases.samples.get(&7), Some(&vec![Sample { num: 30, den: 100 }]));
    scheduler.schedule(1, 7, 0);
    let (stats, rows) = scheduler.outcommit();
    assert_eq!(stats.scheduled, 1);
    let sample = Sample { num: 30, den: 100 };
    assert_eq!(rows, vec![(7, Percentiles { count: 1, p05: sample, p50: sample, p95: sample })]);
    let (stats, rows) = scheduler.outcommit();
    assert_eq!(stats.scheduled, 0);
    assert!(rows.is_empty());
}

#[test]
fn leads_are_gathered_by_monitor() {
    let mut window = LeadWindow::new();
    window.note_sample_lead(3, 10);
    window.note_sample_lead(3, 20);
    window.note_sample_lead_missing();
    let (leads, missing) = window.samplelead();
    assert_eq!(missing, 1);
    let (low, high) = (Sample { num: 10, den: 1 }, Sample { num: 20, den: 1 });
    assert_eq!(leads, vec![(3, Percentiles { count: 2, p05: low, p50: high, p95: high })]);
    assert_eq!(window.samplelead(), (vec![], 0));
}

#[test]
fn percentiles_of_a_window() {
    let samples: Vec<Sample> = (0..101).rev().map(|n| Sample { num: n, den: 1 }).collect();
    let p = percentiles(samples).unwrap();
    assert_eq!(p.count, 101);
    assert_eq!(p.p05.num, 5);
    assert_eq!(p.p50.num, 50);
    assert_eq!(p.p95.num, 95);
    assert!(percentiles(vec![]).is_none());
    let mut window = SampleWindow::new();
    window.record(1, Sample { num: 1, den: 2 });
    window.record(2, Sample { num: 3, den: 4 });
    window.record(1, Sample { num: 1, den: 4 });
    let mut rows = window.report();
    rows.sort_by_key(|row| row.0);
    assert_eq!(rows.len(), 2);
    assert_eq!((rows[0].0, rows[0].1.p05), (1, Sample { num: 1, den: 4 }));
    assert_eq!((rows[0].1.count, rows[1].1.count), (2, 1));
    assert!(window.report().is_empty());
}

#[test]
fn ticks_fold_into_a_period() {
    assert_eq!(fold(130, 100, 40), 30);
    assert_eq!(fold(90, 100, 40), 30);
    assert_eq!(saturating_mul(u64::MAX, 2), u64::MAX);
    assert_eq!(saturating_mul(6, 7), 42);
    assert_eq!(abs_diff(3, 10), 7);
    assert_eq!(ticks_to_micros(10, 1_000_000), 10);
    assert_eq!(ticks_to_micros(10_000_000, 10_000_000), 1_000_000);
}

#[test]
fn the_desktop_grid_is_what_its_clock_says() {
    assert_eq!(
        dwm_composition_grid(CompositionTiming::Grid { vblank_qpc: 10, period_qpc: 20 }),
        Some((10, 20))
    );
    assert_eq!(dwm_composition_grid(CompositionTiming::Unsupported), None);
    assert_eq!(dwm_composition_grid(CompositionTiming::Unanswered), None);
}

#[test]
fn a_round_without_samples_is_followed_by_a_pause() {
    assert_eq!(pause_after_round(0), Some(100));
    assert_eq!(pause_after_round(1), None);
    assert_eq!(pause_after_round(9), None);
}
