//! Samples gathered over a window of time, by source, and their percentiles.
use std::collections::HashMap;
use vstd::prelude::*;

use crate::idmap::{distinct_ids, entries_map, lemma_push};
use crate::table::{table_get_mut, table_ids};

verus! {

broadcast use vstd::std_specs::hash::group_hash_axioms;

/// A measured fraction.
#[derive(Clone, Copy, PartialEq, Eq, Debug, Structural)]
pub struct Sample {
    pub num: u64,
    pub den: u64,
}

impl Sample {
    /// The fraction is not greater than the other one.
    pub open spec fn at_most(self, other: Sample) -> bool {
        self.num * other.den <= other.num * self.den
    }

    pub fn le(&self, other: &Sample) -> (b: bool)
        ensures
            b == self.at_most(*other),
    {
        proof {
            assert(0 <= self.num * other.den <= 0xffff_ffff_ffff_ffff * 0xffff_ffff_ffff_ffff)
                by (nonlinear_arith)
                requires
                    0 <= self.num <= 0xffff_ffff_ffff_ffff,
                    0 <= other.den <= 0xffff_ffff_ffff_ffff,
            ;
            assert(0 <= other.num * self.den <= 0xffff_ffff_ffff_ffff * 0xffff_ffff_ffff_ffff)
                by (nonlinear_arith)
                requires
                    0 <= other.num <= 0xffff_ffff_ffff_ffff,
                    0 <= self.den <= 0xffff_ffff_ffff_ffff,
            ;
        }
        (self.num as u128) * (other.den as u128) <= (other.num as u128) * (self.den as u128)
    }
}

/// Every fraction has a denominator.
pub open spec fn all_fractions(s: Seq<Sample>) -> bool {
    forall|i: int| 0 <= i < s.len() ==> (#[trigger] s[i]).den > 0
}

/// No fraction is greater than one after it.
pub open spec fn ordered(s: Seq<Sample>) -> bool {
    forall|i: int, j: int|
        0 <= i <= j < s.len() ==> (#[trigger] s[i]).at_most(#[trigger] s[j])
}

/// Fractions of positive denominators are ordered transitively.
proof fn lemma_at_most_transitive(a: Sample, b: Sample, c: Sample)
    requires
        a.at_most(b),
        b.at_most(c),
        b.den > 0,
    ensures
        a.at_most(c),
{
    let (an, ad, bn, bd, cn, cd) = (
        a.num as int,
        a.den as int,
        b.num as int,
        b.den as int,
        c.num as int,
        c.den as int,
    );
    assert((an * cd) * bd <= (cn * ad) * bd) by (nonlinear_arith)
        requires
            an * bd <= bn * ad,
            bn * cd <= cn * bd,
            0 <= ad,
            0 <= cd,
    ;
    assert(an * cd <= cn * ad) by (nonlinear_arith)
        requires
            (an * cd) * bd <= (cn * ad) * bd,
            bd > 0,
    ;
}

/// Where the `p`-th percentile of `n` sorted samples stands: `p` hundredths of the way from the
/// first to the last, rounded to the nearest place.
pub open spec fn percentile_index(n: int, p: int) -> int {
    ((n - 1) * p + 50) / 100
}

/// The percentiles of a window.
#[derive(Clone, Copy, PartialEq, Eq, Debug, Structural)]
pub struct Percentiles {
    pub count: usize,
    pub p05: Sample,
    pub p50: Sample,
    pub p95: Sample,
}

/// `sorted` is the samples in order.
pub open spec fn is_sorting_of(sorted: Seq<Sample>, samples: Seq<Sample>) -> bool {
    ordered(sorted) && sorted.to_multiset() == samples.to_multiset() && sorted.len()
        == samples.len()
}

/// The percentiles read off the sorted samples.
pub open spec fn percentiles_of(sorted: Seq<Sample>) -> Percentiles {
    Percentiles {
        count: sorted.len() as usize,
        p05: sorted[percentile_index(sorted.len() as int, 5)],
        p50: sorted[percentile_index(sorted.len() as int, 50)],
        p95: sorted[percentile_index(sorted.len() as int, 95)],
    }
}

/// Puts the samples in order.
pub fn sort_samples(samples: &mut Vec<Sample>)
    requires
        all_fractions(old(samples)@),
    ensures
        is_sorting_of(final(samples)@, old(samples)@),
        all_fractions(final(samples)@),
{
    let ghost start = samples@;
    let mut sorted: Vec<Sample> = Vec::new();
    let mut i: usize = 0;
    proof {
        start.to_multiset_ensures();
        assert(start.take(0) =~= Seq::<Sample>::empty());
        assert(sorted@ =~= Seq::<Sample>::empty());
    }
    while i < samples.len()
        invariant
            samples@ == start,
            all_fractions(start),
            i <= start.len(),
            sorted@.len() == i,
            ordered(sorted@),
            all_fractions(sorted@),
            sorted@.to_multiset() == start.take(i as int).to_multiset(),
        decreases start.len() - i,
    {
        let x = samples[i];
        let mut k: usize = sorted.len();
        while k > 0 && !sorted[k - 1].le(&x)
            invariant
                k <= sorted@.len(),
                forall|j: int| k <= j < sorted@.len() ==> !(#[trigger] sorted@[j]).at_most(x),
            decreases k,
        {
            k = k - 1;
        }
        let ghost before = sorted@;
        sorted.insert(k, x);
        proof {
            let after = sorted@;
            assert(after =~= before.insert(k as int, x));
            assert(x.den > 0) by {
                assert(start[i as int].den > 0);
            }
            assert forall|a: int, b: int| 0 <= a <= b < after.len() implies (
            #[trigger] after[a]).at_most(#[trigger] after[b]) by {
                if a == b {
                } else if b < k {
                    assert(before[a].at_most(before[b]));
                } else if b == k {
                    assert(before[a].at_most(before[k - 1]));
                    assert(before[k - 1].at_most(x));
                    lemma_at_most_transitive(before[a], before[k - 1], x);
                } else if a == k {
                    assert(!before[b - 1].at_most(x));
                } else if a < k {
                    assert(before[a].at_most(before[b - 1]));
                } else {
                    assert(before[a - 1].at_most(before[b - 1]));
                }
            }
            assert forall|j: int| 0 <= j < after.len() implies (#[trigger] after[j]).den > 0 by {
                if j < k {
                    assert(before[j].den > 0);
                } else if j > k {
                    assert(before[j - 1].den > 0);
                }
            }
            before.to_multiset_ensures();
            before.insert_ensures(k as int, x);
            assert(after.to_multiset() =~= before.to_multiset().insert(x)) by {
                lemma_insert_multiset(before, k as int, x);
            }
            assert(start.take(i + 1) =~= start.take(i as int).push(x));
            start.take(i as int).to_multiset_ensures();
        }
        i = i + 1;
    }
    proof {
        assert(start.take(start.len() as int) =~= start);
    }
    *samples = sorted;
}

proof fn lemma_insert_multiset(s: Seq<Sample>, k: int, x: Sample)
    requires
        0 <= k <= s.len(),
    ensures
        s.insert(k, x).to_multiset() == s.to_multiset().insert(x),
{
    let a = s.take(k);
    let b = s.skip(k);
    assert(s =~= a + b);
    assert(s.insert(k, x) =~= (a.push(x)) + b);
    vstd::seq_lib::lemma_multiset_commutative(a, b);
    vstd::seq_lib::lemma_multiset_commutative(a.push(x), b);
    a.to_multiset_ensures();
    assert(s.insert(k, x).to_multiset() =~= s.to_multiset().insert(x));
}

/// The percentiles of the samples, `None` where there is none.
pub fn percentiles(samples: Vec<Sample>) -> (r: Option<Percentiles>)
    requires
        all_fractions(samples@),
    ensures
        samples@.len() == 0 ==> r is None,
        samples@.len() > 0 ==> r is Some && exists|sorted: Seq<Sample>| #[trigger]
            is_sorting_of(sorted, samples@) && r->0 == percentiles_of(sorted),
{
    if samples.len() == 0 {
        return None;
    }
    let ghost start = samples@;
    let mut samples = samples;
    sort_samples(&mut samples);
    let last: u128 = samples.len() as u128 - 1;
    let i05: usize = ((last * 5 + 50) / 100) as usize;
    let i50: usize = ((last * 50 + 50) / 100) as usize;
    let i95: usize = ((last * 95 + 50) / 100) as usize;
    let r = Percentiles {
        count: samples.len(),
        p05: samples[i05],
        p50: samples[i50],
        p95: samples[i95],
    };
    proof {
        assert(is_sorting_of(samples@, start));
        assert(r == percentiles_of(samples@));
    }
    Some(r)
}

/// The percentiles of a window are in order.
pub proof fn law_percentiles_are_ordered(sorted: Seq<Sample>)
    requires
        ordered(sorted),
        sorted.len() > 0,
    ensures
        percentiles_of(sorted).p05.at_most(percentiles_of(sorted).p50),
        percentiles_of(sorted).p50.at_most(percentiles_of(sorted).p95),
{
    let n = sorted.len() as int;
    assert(0 <= percentile_index(n, 5) <= percentile_index(n, 50) <= percentile_index(n, 95) < n);
}

/// The samples of a window, by source.
#[derive(Debug)]
pub struct SampleWindow {
    pub samples: HashMap<u64, Vec<Sample>>,
}

impl SampleWindow {
    pub open spec fn wf(self) -> bool {
        forall|s: u64| all_fractions(#[trigger] self.of(s))
    }

    /// The samples of one source.
    pub open spec fn of(self, source: u64) -> Seq<Sample> {
        if self.samples@.contains_key(source) {
            self.samples@[source]@
        } else {
            seq![]
        }
    }

    pub fn new() -> (w: SampleWindow)
        ensures
            w.wf(),
            w.samples@ == Map::<u64, Vec<Sample>>::empty(),
            forall|s: u64| #[trigger] w.of(s) == Seq::<Sample>::empty(),
    {
        SampleWindow { samples: HashMap::new() }
    }

    /// Adds a sample of the source.
    pub fn record(&mut self, source: u64, sample: Sample)
        requires
            old(self).wf(),
            sample.den > 0,
        ensures
            final(self).wf(),
            final(self).of(source) == old(self).of(source).push(sample),
            forall|s: u64| s != source ==> #[trigger] final(self).of(s) == old(self).of(s),
    {
        proof {
            assert(all_fractions(self.of(source)));
        }
        if let Some(list) = table_get_mut(&mut self.samples, source) {
            list.push(sample);
        } else {
            let mut list: Vec<Sample> = Vec::new();
            list.push(sample);
            self.samples.insert(source, list);
        }
        proof {
            assert(self.of(source) =~= old(self).of(source).push(sample));
            assert forall|s: u64| all_fractions(#[trigger] self.of(s)) by {
                if s != source {
                    assert(self.of(s) == old(self).of(s));
                }
            }
        }
    }

    /// The row belongs to a source with samples and holds their percentiles.
    pub open spec fn is_row(self, row: (u64, Percentiles)) -> bool {
        self.of(row.0).len() > 0 && exists|sorted: Seq<Sample>| #[trigger]
            is_sorting_of(sorted, self.of(row.0)) && row.1 == percentiles_of(sorted)
    }

    /// Hands out the percentiles of every source with samples, one row each, and starts a new
    /// window.
    pub fn report(&mut self) -> (out: Vec<(u64, Percentiles)>)
        requires
            old(self).wf(),
        ensures
            final(self).wf(),
            forall|s: u64| #[trigger] final(self).of(s) == Seq::<Sample>::empty(),
            distinct_ids(out@),
            forall|i: int| 0 <= i < out@.len() ==> old(self).is_row(#[trigger] out@[i]),
            forall|s: u64| #[trigger] old(self).of(s).len() > 0 ==> entries_map(out@).contains_key(s),
    {
        let mut taken: HashMap<u64, Vec<Sample>> = HashMap::new();
        core::mem::swap(&mut taken, &mut self.samples);
        let ids = table_ids(&taken);
        let mut out: Vec<(u64, Percentiles)> = Vec::new();
        let mut i: usize = 0;
        while i < ids.len()
            invariant
                old(self).wf(),
                i <= ids@.len(),
                ids@.no_duplicates(),
                forall|k: int|
                    i <= k < ids@.len() ==> taken@.contains_key(#[trigger] ids@[k])
                        && taken@[ids@[k]] == old(self).samples@[ids@[k]],
                forall|k: int|
                    0 <= k < ids@.len() ==> old(self).samples@.contains_key(#[trigger] ids@[k]),
                distinct_ids(out@),
                forall|j: int| 0 <= j < out@.len() ==> old(self).is_row(#[trigger] out@[j]),
                forall|j: int, k: int|
                    0 <= j < out@.len() && i <= k < ids@.len() ==> (#[trigger] out@[j]).0
                        != #[trigger] ids@[k],
                forall|k: int|
                    0 <= k < i && old(self).of(#[trigger] ids@[k]).len() > 0 ==> entries_map(
                        out@,
                    ).contains_key(ids@[k]),
            decreases ids@.len() - i,
        {
            let source: u64 = ids[i];
            let ghost before = out@;
            assert(all_fractions(old(self).of(source)));
            if let Some(samples) = taken.remove(&source) {
                let ghost list = samples@;
                assert(list == old(self).of(source));
                if let Some(row) = percentiles(samples) {
                    out.push((source, row));
                    proof {
                        let sorted = choose|sorted: Seq<Sample>| #[trigger]
                            is_sorting_of(sorted, list) && row == percentiles_of(sorted);
                        assert(is_sorting_of(sorted, old(self).of(source)));
                        assert((source, row).1 == percentiles_of(sorted));
                        assert(old(self).of((source, row).0).len() > 0);
                        assert(old(self).is_row((source, row)));
                        lemma_push(before, source, row);
                    }
                }
            }
            i = i + 1;
        }
        proof {
            assert forall|s: u64| #[trigger]
                old(self).of(s).len() > 0 implies entries_map(out@).contains_key(s) by {
                assert(ids@.to_set().contains(s));
                let k = choose|k: int| 0 <= k < ids@.len() && ids@[k] == s;
                assert(old(self).of(ids@[k]).len() > 0);
            }
        }
        out
    }
}

} // verus!
