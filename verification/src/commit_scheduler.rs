//! Commits that are put off until the moment that their output calls for.
//!
//! A thread of its own takes the commits off the queue when they are due. A device has at most
//! one commit on the queue: commits that pile up would leave several in one period, which is
//! what the queue is there to avoid.
use vstd::prelude::*;

use crate::idmap::{distinct_ids, entries_map};
use crate::output_grid::OutputGrid;
use crate::ticks::{fold, micros, phase_in, ticks_to_micros};
use crate::window::{Percentiles, Sample, SampleWindow};

verus! {

/// A commit on the queue: its deadline in clock ticks, its device and the monitor that it is
/// timed for.
pub type Scheduled = (u64, usize, usize);

/// What was measured since the last report.
#[derive(Clone, Copy, PartialEq, Eq, Debug, Structural)]
pub struct SchedulerStats {
    pub scheduled: u64,
    pub slip_us_max: u64,
    pub slip_us_sum: u64,
    pub lock_wait_us_max: u64,
    pub lock_wait_us_sum: u64,
}

/// What the scheduler does next.
#[derive(PartialEq, Eq, Debug)]
pub enum SchedulerStep {
    /// Commit these, in this order.
    Commit(Vec<Scheduled>),
    /// Sleep for so many ticks, or until something is scheduled.
    WaitTicks(u64),
    /// Sleep until something is scheduled.
    WaitForNotify,
}

/// The device has a commit on the queue.
pub open spec fn queued(queue: Seq<Scheduled>, device: usize) -> bool {
    exists|i: int| 0 <= i < queue.len() && (#[trigger] queue[i]).1 == device
}

/// No device has two commits on the queue.
pub open spec fn one_per_device(queue: Seq<Scheduled>) -> bool {
    forall|i: int, j: int|
        0 <= i < j < queue.len() ==> (#[trigger] queue[i]).1 != (#[trigger] queue[j]).1
}

/// The first place on the queue of a device that has a commit there.
pub open spec fn first_of(queue: Seq<Scheduled>, device: usize) -> int
    recommends
        queued(queue, device),
{
    choose|i: int|
        0 <= i < queue.len() && queue[i].1 == device && forall|k: int|
            0 <= k < i ==> (#[trigger] queue[k]).1 != device
}

/// The queue with the commit of a device set: at the place of the one that it had, or at the end.
pub open spec fn with_commit(queue: Seq<Scheduled>, device: usize, monitor: usize, deadline: u64) -> Seq<
    Scheduled,
> {
    if queued(queue, device) {
        queue.update(first_of(queue, device), (deadline, device, monitor))
    } else {
        queue.push((deadline, device, monitor))
    }
}

/// Puts the commit of a device on the queue, in place of one that was there.
pub fn upsert(queue: &mut Vec<Scheduled>, device: usize, monitor: usize, deadline: u64)
    ensures
        final(queue)@ == with_commit(old(queue)@, device, monitor, deadline),
{
    let mut i: usize = 0;
    while i < queue.len()
        invariant
            queue@ == old(queue)@,
            i <= queue@.len(),
            forall|k: int| 0 <= k < i ==> (#[trigger] queue@[k]).1 != device,
        decreases queue@.len() - i,
    {
        if queue[i].1 == device {
            proof {
                let f = first_of(queue@, device);
                assert(queue@[i as int].1 == device);
                assert(0 <= f < queue@.len() && queue@[f].1 == device && forall|k: int|
                    0 <= k < f ==> (#[trigger] queue@[k]).1 != device);
                assert(f == i);
            }
            queue.set(i, (deadline, device, monitor));
            return ;
        }
        i = i + 1;
    }
    queue.push((deadline, device, monitor));
}

/// A queue with one commit a device keeps it so; the device has the new commit, and no other
/// device's commit changes.
pub proof fn law_upsert_replaces_only_its_device(
    queue: Seq<Scheduled>,
    device: usize,
    monitor: usize,
    deadline: u64,
)
    requires
        one_per_device(queue),
    ensures
        one_per_device(with_commit(queue, device, monitor, deadline)),
        with_commit(queue, device, monitor, deadline).contains((deadline, device, monitor)),
        forall|c: Scheduled|
            c.1 != device ==> (#[trigger] with_commit(queue, device, monitor, deadline).contains(c)
                <==> queue.contains(c)),
        with_commit(queue, device, monitor, deadline).len() == queue.len() + (if queued(
            queue,
            device,
        ) {
            0int
        } else {
            1int
        }),
{
    let after = with_commit(queue, device, monitor, deadline);
    let entry: Scheduled = (deadline, device, monitor);
    if queued(queue, device) {
        let j = choose|j: int| 0 <= j < queue.len() && (#[trigger] queue[j]).1 == device;
        assert forall|k: int| 0 <= k < j implies (#[trigger] queue[k]).1 != device by {}
        let f = first_of(queue, device);
        assert(0 <= f < queue.len() && queue[f].1 == device);
        assert(after[f] == entry);
        assert forall|c: Scheduled| c.1 != device implies (#[trigger] after.contains(c)
            <==> queue.contains(c)) by {
            if queue.contains(c) {
                let k = choose|k: int| 0 <= k < queue.len() && queue[k] == c;
                assert(after[k] == c);
            }
            if after.contains(c) {
                let k = choose|k: int| 0 <= k < after.len() && after[k] == c;
                assert(queue[k] == c);
            }
        }
    } else {
        assert(after[queue.len() as int] == entry);
        assert forall|i: int, j: int| 0 <= i < j < after.len() implies (#[trigger] after[i]).1 != (
        #[trigger] after[j]).1 by {
            if j == queue.len() {
                assert(queue[i].1 != device);
            }
        }
        assert forall|c: Scheduled| c.1 != device implies (#[trigger] after.contains(c)
            <==> queue.contains(c)) by {
            if queue.contains(c) {
                let k = choose|k: int| 0 <= k < queue.len() && queue[k] == c;
                assert(after[k] == c);
            }
            if after.contains(c) {
                let k = choose|k: int| 0 <= k < after.len() && after[k] == c;
                assert(queue[k] == c);
            }
        }
    }
}

/// The commits that are due at `now`, in the order of the queue.
pub open spec fn due(queue: Seq<Scheduled>, now: u64) -> Seq<Scheduled> {
    queue.filter(|c: Scheduled| c.0 <= now)
}

/// The commits that are not due yet.
pub open spec fn not_due(queue: Seq<Scheduled>, now: u64) -> Seq<Scheduled> {
    queue.filter(|c: Scheduled| c.0 > now)
}

/// The earliest deadline of the queue.
pub open spec fn is_earliest(queue: Seq<Scheduled>, deadline: u64) -> bool {
    &&& exists|i: int| 0 <= i < queue.len() && (#[trigger] queue[i]).0 == deadline
    &&& forall|i: int| 0 <= i < queue.len() ==> deadline <= (#[trigger] queue[i]).0
}

/// Takes what is due off the queue. Where nothing is, says how long to sleep. Without a clock
/// everything is taken: a picture that is late is better than one that never comes.
pub fn scheduler_step(queue: &mut Vec<Scheduled>, now: Option<u64>) -> (step: SchedulerStep)
    ensures
        match now {
            None => step matches SchedulerStep::Commit(c) && c@ == old(queue)@
                && final(queue)@.len() == 0,
            Some(t) => {
                &&& final(queue)@ == not_due(old(queue)@, t)
                &&& if due(old(queue)@, t).len() > 0 {
                    step matches SchedulerStep::Commit(c) && c@ == due(old(queue)@, t)
                } else if old(queue)@.len() > 0 {
                    step matches SchedulerStep::WaitTicks(ticks) && is_earliest(
                        old(queue)@,
                        (t + ticks) as u64,
                    ) && t + ticks <= u64::MAX
                } else {
                    step is WaitForNotify
                }
            },
        },
{
    let mut waiting: Vec<Scheduled> = Vec::new();
    core::mem::swap(&mut waiting, queue);
    let ghost all = waiting@;
    let now: u64 = match now {
        Some(t) => t,
        None => return SchedulerStep::Commit(waiting),
    };
    let mut ready: Vec<Scheduled> = Vec::new();
    let mut earliest: Option<u64> = None;
    let mut i: usize = 0;
    proof {
        reveal(Seq::filter);
        assert(all.take(0) =~= Seq::<Scheduled>::empty());
    }
    while i < waiting.len()
        invariant
            waiting@ == all,
            i <= all.len(),
            ready@ == due(all.take(i as int), now),
            queue@ == not_due(all.take(i as int), now),
            ready@.len() == 0 && i > 0 ==> earliest is Some && earliest->0 > now && is_earliest(
                all.take(i as int),
                earliest->0,
            ),
            ready@.len() == 0 && i == 0 ==> earliest is None,
        decreases all.len() - i,
    {
        let c = waiting[i];
        proof {
            reveal(Seq::filter);
            assert(all.take(i + 1).drop_last() =~= all.take(i as int));
            assert(all.take(i + 1).last() == c);
        }
        let ghost before = all.take(i as int);
        let ghost after = all.take(i + 1);
        let ghost prev = earliest;
        if c.0 <= now {
            ready.push(c);
        } else {
            queue.push(c);
            earliest =
            match earliest {
                Some(e) => if c.0 < e {
                    Some(c.0)
                } else {
                    Some(e)
                },
                None => Some(c.0),
            };
            proof {
                if ready@.len() == 0 {
                    let e = earliest->0;
                    assert(after[i as int] == c);
                    assert forall|k: int| 0 <= k < after.len() implies e <= (#[trigger] after[k]).0 by {
                        if k < i {
                            assert(after[k] == before[k]);
                        }
                    }
                    if i > 0 && prev->0 == e {
                        let k = choose|k: int| 0 <= k < before.len() && (#[trigger] before[k]).0 == e;
                        assert(after[k].0 == e);
                    }
                    assert(is_earliest(after, e));
                }
            }
        }
        i = i + 1;
    }
    proof {
        assert(all.take(all.len() as int) =~= all);
    }
    if ready.len() > 0 {
        return SchedulerStep::Commit(ready);
    }
    match earliest {
        Some(d) => SchedulerStep::WaitTicks(d.saturating_sub(now)),
        None => SchedulerStep::WaitForNotify,
    }
}

/// The scheduler: its queue, whether its thread is there, and what was measured.
#[derive(Debug)]
pub struct CommitScheduler {
    pub queue: Vec<Scheduled>,
    /// The thread that takes commits off the queue is running.
    pub alive: bool,
    pub stats: SchedulerStats,
    pub phases: SampleWindow,
}

pub open spec fn max_u64(a: u64, b: u64) -> u64 {
    if a >= b {
        a
    } else {
        b
    }
}

impl CommitScheduler {
    pub open spec fn wf(self) -> bool {
        one_per_device(self.queue@) && self.phases.wf()
    }

    /// A scheduler without a thread.
    pub fn new() -> (s: CommitScheduler)
        ensures
            s.wf(),
            s.queue@.len() == 0,
            !s.alive,
            s.stats == no_stats(),
            s.phases.samples@ == Map::<u64, Vec<Sample>>::empty(),
            forall|m: u64| s.phases.of(m) == Seq::<Sample>::empty(),
    {
        CommitScheduler {
            queue: Vec::new(),
            alive: false,
            stats: SchedulerStats {
                scheduled: 0,
                slip_us_max: 0,
                slip_us_sum: 0,
                lock_wait_us_max: 0,
                lock_wait_us_sum: 0,
            },
            phases: SampleWindow::new(),
        }
    }

    /// Schedules the commit of a device. Returns whether it has to be made at once: without a
    /// thread nobody would ever take it off the queue.
    pub fn schedule(&mut self, device: usize, monitor: usize, deadline: u64) -> (commit_now: bool)
        requires
            old(self).wf(),
        ensures
            final(self).wf(),
            commit_now == !old(self).alive,
            final(self).queue@ == (if old(self).alive {
                with_commit(old(self).queue@, device, monitor, deadline)
            } else {
                old(self).queue@
            }),
            final(self).stats == (SchedulerStats {
                scheduled: old(self).stats.scheduled.wrapping_add(1),
                ..old(self).stats
            }),
            final(self).alive == old(self).alive,
            final(self).phases == old(self).phases,
    {
        self.stats.scheduled = self.stats.scheduled.wrapping_add(1);
        if !self.alive {
            return true;
        }
        proof {
            law_upsert_replaces_only_its_device(self.queue@, device, monitor, deadline);
        }
        upsert(&mut self.queue, device, monitor, deadline);
        false
    }

    /// Takes what is due off the queue, or says how long to sleep.
    pub fn step(&mut self, now: Option<u64>) -> (step: SchedulerStep)
        requires
            old(self).wf(),
        ensures
            final(self).wf(),
            *final(self) == (CommitScheduler { queue: final(self).queue, ..*old(self) }),
            match now {
                None => step matches SchedulerStep::Commit(c) && c@ == old(self).queue@
                    && final(self).queue@.len() == 0,
                Some(t) => {
                    &&& final(self).queue@ == not_due(old(self).queue@, t)
                    &&& if due(old(self).queue@, t).len() > 0 {
                        step matches SchedulerStep::Commit(c) && c@ == due(old(self).queue@, t)
                    } else if old(self).queue@.len() > 0 {
                        step matches SchedulerStep::WaitTicks(ticks) && is_earliest(
                            old(self).queue@,
                            (t + ticks) as u64,
                        ) && t + ticks <= u64::MAX
                    } else {
                        step is WaitForNotify
                    }
                },
            },
    {
        proof {
            if let Some(t) = now {
                lemma_not_due_one_per_device(self.queue@, t);
            }
        }
        scheduler_step(&mut self.queue, now)
    }

    /// Takes in how long a device was waited for.
    pub fn record_lock_wait(&mut self, ticks: u64, freq: u64)
        ensures
            *final(self) == (CommitScheduler {
                stats: SchedulerStats {
                    lock_wait_us_sum: old(self).stats.lock_wait_us_sum.wrapping_add(
                        micros(ticks as int, freq as int) as u64,
                    ),
                    lock_wait_us_max: max_u64(
                        old(self).stats.lock_wait_us_max,
                        micros(ticks as int, freq as int) as u64,
                    ),
                    ..old(self).stats
                },
                ..*old(self)
            }),
    {
        let us: u64 = ticks_to_micros(ticks, freq);
        self.stats.lock_wait_us_sum = self.stats.lock_wait_us_sum.wrapping_add(us);
        if us > self.stats.lock_wait_us_max {
            self.stats.lock_wait_us_max = us;
        }
    }

    /// Takes in by how much a commit missed its deadline; one that is early misses it by
    /// nothing.
    pub fn record_slip(&mut self, now: u64, deadline: u64, freq: u64)
        ensures
            ({
                let late = if now >= deadline {
                    now - deadline
                } else {
                    0
                };
                let us = micros(late, freq as int) as u64;
                *final(self) == (CommitScheduler {
                    stats: SchedulerStats {
                        slip_us_sum: old(self).stats.slip_us_sum.wrapping_add(us),
                        slip_us_max: max_u64(old(self).stats.slip_us_max, us),
                        ..old(self).stats
                    },
                    ..*old(self)
                })
            }),
    {
        let slip: u64 = now.saturating_sub(deadline);
        let us: u64 = ticks_to_micros(slip, freq);
        self.stats.slip_us_sum = self.stats.slip_us_sum.wrapping_add(us);
        if us > self.stats.slip_us_max {
            self.stats.slip_us_max = us;
        }
    }

    /// Takes in where in the grid of its output a commit has landed.
    pub fn record_phase(&mut self, monitor: u64, grid: Option<OutputGrid>, after: u64)
        requires
            old(self).wf(),
        ensures
            final(self).wf(),
            final(self).queue == old(self).queue,
            final(self).alive == old(self).alive,
            final(self).stats == old(self).stats,
            forall|m: u64| m != monitor ==> final(self).phases.of(m) == old(self).phases.of(m),
            final(self).phases.of(monitor) == (match grid {
                Some(g) if g.period_qpc > 0 => old(self).phases.of(monitor).push(
                    Sample {
                        num: phase_in(
                            after as int,
                            g.vblank_qpc as int,
                            g.period_qpc as int,
                        ) as u64,
                        den: g.period_qpc,
                    },
                ),
                _ => old(self).phases.of(monitor),
            }),
    {
        if let Some(g) = grid {
            if g.period_qpc > 0 {
                let folded: u64 = fold(after, g.vblank_qpc, g.period_qpc);
                self.phases.record(monitor, Sample { num: folded, den: g.period_qpc });
            }
        }
    }

    /// Hands out the report of a window and starts a new one: what was measured, and for each
    /// monitor with commits where in its grid they have landed.
    pub fn outcommit(&mut self) -> (r: (SchedulerStats, Vec<(u64, Percentiles)>))
        requires
            old(self).wf(),
        ensures
            final(self).wf(),
            final(self).queue == old(self).queue,
            final(self).alive == old(self).alive,
            r.0 == old(self).stats,
            final(self).stats == no_stats(),
            forall|m: u64| #[trigger] final(self).phases.of(m) == Seq::<Sample>::empty(),
            distinct_ids(r.1@),
            forall|i: int| 0 <= i < r.1@.len() ==> old(self).phases.is_row(#[trigger] r.1@[i]),
            forall|m: u64| #[trigger]
                old(self).phases.of(m).len() > 0 ==> entries_map(r.1@).contains_key(m),
    {
        let stats = self.take_stats();
        (stats, self.phases.report())
    }

    /// Hands out what was measured and starts anew.
    pub fn take_stats(&mut self) -> (s: SchedulerStats)
        ensures
            s == old(self).stats,
            *final(self) == (CommitScheduler { stats: no_stats(), ..*old(self) }),
    {
        let s = self.stats;
        self.stats =
        SchedulerStats {
            scheduled: 0,
            slip_us_max: 0,
            slip_us_sum: 0,
            lock_wait_us_max: 0,
            lock_wait_us_sum: 0,
        };
        s
    }
}

/// Nothing measured yet.
pub open spec fn no_stats() -> SchedulerStats {
    SchedulerStats {
        scheduled: 0,
        slip_us_max: 0,
        slip_us_sum: 0,
        lock_wait_us_max: 0,
        lock_wait_us_sum: 0,
    }
}

impl SchedulerStats {
    /// The slip and the wait for a device of a commit on average, in microseconds.
    pub fn averages(&self) -> (r: (u64, u64))
        ensures
            r.0 == self.slip_us_sum / max_u64(self.scheduled, 1),
            r.1 == self.lock_wait_us_sum / max_u64(self.scheduled, 1),
    {
        let n: u64 = if self.scheduled > 1 {
            self.scheduled
        } else {
            1
        };
        (self.slip_us_sum / n, self.lock_wait_us_sum / n)
    }
}

proof fn lemma_not_due_one_per_device(queue: Seq<Scheduled>, now: u64)
    requires
        one_per_device(queue),
    ensures
        one_per_device(not_due(queue, now)),
    decreases queue.len(),
{
    reveal(Seq::filter);
    if queue.len() > 0 {
        let front = queue.drop_last();
        assert(one_per_device(front)) by {
            assert forall|i: int, j: int| 0 <= i < j < front.len() implies (
            #[trigger] front[i]).1 != (#[trigger] front[j]).1 by {
                assert(queue[i].1 != queue[j].1);
            }
        }
        lemma_not_due_one_per_device(front, now);
        let kept = not_due(front, now);
        let after = kept.push(queue.last());
        assert forall|i: int, j: int| 0 <= i < j < after.len() implies (#[trigger] after[i]).1 != (
        #[trigger] after[j]).1 by {
            if j == kept.len() {
                let c = kept[i];
                assert(kept.contains(c));
                law_step_loses_no_commit(front, now, c);
                let k = choose|k: int| 0 <= k < front.len() && front[k] == c;
                assert(queue[k].1 != queue[queue.len() - 1].1);
            } else {
                assert(kept[i].1 != kept[j].1);
            }
        }
    }
}

/// A step takes exactly what is due: every commit of the queue is either taken or stays, and
/// none that stays is due.
pub proof fn law_step_loses_no_commit(queue: Seq<Scheduled>, now: u64, c: Scheduled)
    ensures
        queue.contains(c) <==> due(queue, now).contains(c) || not_due(queue, now).contains(c),
        due(queue, now).contains(c) ==> c.0 <= now,
        not_due(queue, now).contains(c) ==> c.0 > now,
    decreases queue.len(),
{
    reveal(Seq::filter);
    if queue.len() > 0 {
        let front = queue.drop_last();
        law_step_loses_no_commit(front, now, c);
        let a = due(front, now);
        let b = not_due(front, now);
        assert forall|s: Seq<Scheduled>, x: Scheduled|
            (#[trigger] s.push(x)).contains(c) <==> s.contains(c) || x == c by {
            if s.contains(c) {
                let k = choose|k: int| 0 <= k < s.len() && s[k] == c;
                assert(s.push(x)[k] == c);
            }
            if x == c {
                assert(s.push(x)[s.len() as int] == c);
            }
            if s.push(x).contains(c) {
                let k = choose|k: int| 0 <= k < s.push(x).len() && s.push(x)[k] == c;
                if k < s.len() {
                    assert(s[k] == c);
                }
            }
        }
        assert(front.push(queue.last()) =~= queue);
        assert(a.push(queue.last()).contains(c) <==> a.contains(c) || queue.last() == c);
        assert(b.push(queue.last()).contains(c) <==> b.contains(c) || queue.last() == c);
    }
}

} // verus!
