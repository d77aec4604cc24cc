//! Facts about lists of ids.
use vstd::prelude::*;

verus! {

/// A list with one more id holds what it held, and that id.
pub proof fn lemma_push_has(s: Seq<u64>, v: u64)
    ensures
        forall|w: u64| #[trigger] s.push(v).contains(w) <==> s.contains(w) || w == v,
{
    assert forall|w: u64| #[trigger] s.push(v).contains(w) <==> s.contains(w) || w == v by {
        if s.contains(w) {
            let i = choose|i: int| 0 <= i < s.len() && s[i] == w;
            assert(s.push(v)[i] == w);
        }
        if w == v {
            assert(s.push(v)[s.len() as int] == v);
        }
    }
}

/// The ids of a longer start of a list are those of the shorter one and the next.
pub proof fn lemma_take_has(s: Seq<u64>, i: int)
    requires
        0 <= i < s.len(),
    ensures
        forall|w: u64| #[trigger] s.take(i + 1).contains(w) <==> s.take(i).contains(w) || w == s[i],
{
    assert(s.take(i + 1) =~= s.take(i).push(s[i]));
    lemma_push_has(s.take(i), s[i]);
}

/// A list holds the ids of all but its last place, and its last.
pub proof fn lemma_last_has(s: Seq<u64>)
    requires
        s.len() > 0,
    ensures
        forall|w: u64| #[trigger] s.contains(w) <==> s.drop_last().contains(w) || w == s.last(),
{
    assert(s =~= s.drop_last().push(s.last()));
    lemma_push_has(s.drop_last(), s.last());
}

/// A list without repetition stays one when an id is added that it does not hold.
pub proof fn lemma_push_distinct(s: Seq<u64>, v: u64)
    requires
        s.no_duplicates(),
        !s.contains(v),
    ensures
        s.push(v).no_duplicates(),
{
    assert forall|i: int, j: int|
        0 <= i < s.push(v).len() && 0 <= j < s.push(v).len() && i != j implies s.push(v)[i]
        != s.push(v)[j] by {
        if i == s.len() {
            assert(s.contains(s[j]));
        }
        if j == s.len() {
            assert(s.contains(s[i]));
        }
    }
}

/// The ids of a list that are live, in the order of the list.
pub open spec fn kept(s: Seq<u64>, live: Set<u64>) -> Seq<u64>
    decreases s.len(),
{
    if s.len() == 0 {
        s
    } else if live.contains(s.last()) {
        kept(s.drop_last(), live).push(s.last())
    } else {
        kept(s.drop_last(), live)
    }
}

/// Where all are live, all are kept.
pub proof fn lemma_kept_all(s: Seq<u64>, live: Set<u64>)
    requires
        forall|i: int| 0 <= i < s.len() ==> live.contains(#[trigger] s[i]),
    ensures
        kept(s, live) == s,
    decreases s.len(),
{
    if s.len() > 0 {
        assert(live.contains(s[s.len() - 1]));
        assert forall|i: int| 0 <= i < s.drop_last().len() implies live.contains(
            #[trigger] s.drop_last()[i],
        ) by {
            assert(live.contains(s[i]));
        }
        lemma_kept_all(s.drop_last(), live);
        assert(s.drop_last().push(s.last()) =~= s);
    }
}

/// Where all but one are live, that one is taken out.
pub proof fn lemma_kept_remove(s: Seq<u64>, at: int, live: Set<u64>)
    requires
        0 <= at < s.len(),
        !live.contains(s[at]),
        forall|i: int| 0 <= i < s.len() && i != at ==> live.contains(#[trigger] s[i]),
    ensures
        kept(s, live) == s.remove(at),
    decreases s.len(),
{
    let rest = s.drop_last();
    assert forall|i: int| 0 <= i < rest.len() && i != at implies live.contains(
        #[trigger] rest[i],
    ) by {
        assert(live.contains(s[i]));
    }
    if at == s.len() - 1 {
        lemma_kept_all(rest, live);
        assert(s.remove(at) =~= rest);
    } else {
        assert(live.contains(s[s.len() - 1]));
        lemma_kept_remove(rest, at, live);
        assert(s.remove(at) =~= rest.remove(at).push(s.last()));
    }
}

/// Keeping the live ones of those that were live before is keeping the live ones.
pub proof fn lemma_kept_twice(s: Seq<u64>, before: Set<u64>, live: Set<u64>)
    requires
        live.subset_of(before),
    ensures
        kept(kept(s, before), live) == kept(s, live),
    decreases s.len(),
{
    if s.len() > 0 {
        lemma_kept_twice(s.drop_last(), before, live);
        if before.contains(s.last()) {
            let k = kept(s.drop_last(), before);
            assert(k.push(s.last()).drop_last() =~= k);
        }
    }
}

/// What is kept is what the list holds and is live, without repetition where the list has none.
pub proof fn lemma_kept_has(s: Seq<u64>, live: Set<u64>)
    ensures
        forall|w: u64| #[trigger]
            kept(s, live).contains(w) <==> s.contains(w) && live.contains(w),
        s.no_duplicates() ==> kept(s, live).no_duplicates(),
    decreases s.len(),
{
    if s.len() > 0 {
        let rest = kept(s.drop_last(), live);
        lemma_kept_has(s.drop_last(), live);
        lemma_last_has(s);
        lemma_push_has(rest, s.last());
        if s.no_duplicates() && live.contains(s.last()) {
            assert(!s.drop_last().contains(s.last()));
            lemma_push_distinct(rest, s.last());
        }
    }
}

/// The first id stays first while it is live.
pub proof fn lemma_kept_first(s: Seq<u64>, live: Set<u64>)
    requires
        s.len() > 0,
        live.contains(s[0]),
    ensures
        kept(s, live).len() > 0,
        kept(s, live)[0] == s[0],
    decreases s.len(),
{
    if s.len() > 1 {
        lemma_kept_first(s.drop_last(), live);
    } else {
        reveal_with_fuel(kept, 2);
    }
}

/// Two lists in a row hold what either holds.
pub proof fn lemma_concat_has(a: Seq<u64>, b: Seq<u64>)
    ensures
        forall|w: u64| #[trigger] (a + b).contains(w) <==> a.contains(w) || b.contains(w),
{
    assert forall|w: u64| #[trigger] (a + b).contains(w) <==> a.contains(w) || b.contains(w) by {
        if a.contains(w) {
            let i = choose|i: int| 0 <= i < a.len() && a[i] == w;
            assert((a + b)[i] == w);
        }
        if b.contains(w) {
            let i = choose|i: int| 0 <= i < b.len() && b[i] == w;
            assert((a + b)[a.len() + i] == w);
        }
        if (a + b).contains(w) {
            let i = choose|i: int| 0 <= i < (a + b).len() && (a + b)[i] == w;
            if i < a.len() {
                assert(a[i] == w);
            } else {
                assert(b[i - a.len()] == w);
            }
        }
    }
}

/// Filtering keeps exactly the ids that the test holds of.
pub proof fn lemma_filter_contains(s: Seq<u64>, keep: spec_fn(u64) -> bool, p: u64)
    ensures
        s.filter(keep).contains(p) <==> s.contains(p) && keep(p),
    decreases s.len(),
{
    reveal(Seq::filter);
    if s.len() > 0 {
        let rest = s.drop_last();
        lemma_filter_contains(rest, keep, p);
        assert(s =~= rest.push(s.last()));
        lemma_push_has(rest, s.last());
        lemma_push_has(rest.filter(keep), s.last());
    }
}

/// One id stands at a place before one of the other.
pub open spec fn stands_before(s: Seq<u64>, x: u64, y: u64) -> bool {
    exists|i: int, j: int| 0 <= i < j < s.len() && #[trigger] s[i] == x && #[trigger] s[j] == y
}

/// Filtering keeps the order: the places of two ids that stay are in the order of their places before.
pub proof fn lemma_filter_order(s: Seq<u64>, keep: spec_fn(u64) -> bool)
    ensures
        s.filter(keep).len() <= s.len(),
        s.no_duplicates() ==> s.filter(keep).no_duplicates(),
        forall|a: int, b: int|
            0 <= a < b < s.filter(keep).len() ==> stands_before(
                s,
                #[trigger] s.filter(keep)[a],
                #[trigger] s.filter(keep)[b],
            ),
        s.len() > 0 && keep(s[0]) ==> s.filter(keep).len() > 0 && s.filter(keep)[0] == s[0],
    decreases s.len(),
{
    reveal(Seq::filter);
    if s.len() > 0 {
        let rest = s.drop_last();
        let before = rest.filter(keep);
        let all = s.filter(keep);
        lemma_filter_order(rest, keep);
        if s.no_duplicates() {
            assert(rest.no_duplicates());
            if keep(s.last()) {
                lemma_filter_contains(rest, keep, s.last());
                assert(!rest.contains(s.last()));
                lemma_push_distinct(before, s.last());
            }
        }
        assert forall|a: int, b: int| 0 <= a < b < all.len() implies stands_before(
            s,
            #[trigger] all[a],
            #[trigger] all[b],
        ) by {
            if b < before.len() {
                assert(stands_before(rest, before[a], before[b]));
                let (i, j) = choose|i: int, j: int|
                    0 <= i < j < rest.len() && #[trigger] rest[i] == before[a] && #[trigger] rest[j]
                        == before[b];
                assert(s[i] == all[a] && s[j] == all[b]);
            } else {
                lemma_filter_contains(rest, keep, before[a]);
                assert(before.contains(before[a]));
                let i = choose|i: int| 0 <= i < rest.len() && rest[i] == before[a];
                assert(s[i] == all[a] && s[s.len() - 1] == all[b]);
            }
        }
        if s.len() == 1 {
            assert(rest =~= Seq::<u64>::empty());
        }
    }
}

} // verus!
