//! A small list of values by integer id, kept in the order in which the ids came.
use crate::seqs::{kept, lemma_kept_all, lemma_kept_remove};
use vstd::prelude::*;

verus! {

/// A list of values, each under an id of its own. It holds a handful of entries.
#[derive(Debug)]
pub struct IdMap<V> {
    pub entries: Vec<(u64, V)>,
}

/// The entries as a map.
pub open spec fn entries_map<V>(entries: Seq<(u64, V)>) -> Map<u64, V> {
    Map::new(
        |k: u64| exists|i: int| 0 <= i < entries.len() && (#[trigger] entries[i]).0 == k,
        |k: u64|
            entries[choose|i: int| 0 <= i < entries.len() && (#[trigger] entries[i]).0 == k].1,
    )
}

/// No id stands twice in the entries.
pub open spec fn distinct_ids<V>(entries: Seq<(u64, V)>) -> bool {
    forall|i: int, j: int|
        0 <= i < j < entries.len() ==> (#[trigger] entries[i]).0 != (#[trigger] entries[j]).0
}

impl<V> View for IdMap<V> {
    type V = Map<u64, V>;

    open spec fn view(&self) -> Map<u64, V> {
        entries_map(self.entries@)
    }
}

/// An entry of a list without repeated ids is what the map holds under its id.
pub proof fn lemma_entry<V>(entries: Seq<(u64, V)>, i: int)
    requires
        distinct_ids(entries),
        0 <= i < entries.len(),
    ensures
        entries_map(entries).contains_key(entries[i].0),
        entries_map(entries)[entries[i].0] == entries[i].1,
{
    let k = entries[i].0;
    let j = choose|j: int| 0 <= j < entries.len() && (#[trigger] entries[j]).0 == k;
    assert(i == j);
}

/// An id of the map stands in some entry.
pub proof fn lemma_find_entry<V>(entries: Seq<(u64, V)>, k: u64) -> (i: int)
    requires
        distinct_ids(entries),
        entries_map(entries).contains_key(k),
    ensures
        0 <= i < entries.len(),
        entries[i].0 == k,
        entries[i].1 == entries_map(entries)[k],
{
    let i = choose|i: int| 0 <= i < entries.len() && (#[trigger] entries[i]).0 == k;
    lemma_entry(entries, i);
    i
}

/// Replacing the value of one entry is an insertion under its id.
pub proof fn lemma_update<V>(entries: Seq<(u64, V)>, i: int, v: V)
    requires
        distinct_ids(entries),
        0 <= i < entries.len(),
    ensures
        distinct_ids(entries.update(i, (entries[i].0, v))),
        entries_map(entries.update(i, (entries[i].0, v))) == entries_map(entries).insert(
            entries[i].0,
            v,
        ),
{
    let after = entries.update(i, (entries[i].0, v));
    let want = entries_map(entries).insert(entries[i].0, v);
    assert forall|k: u64| entries_map(after).contains_key(k) <==> want.contains_key(k) by {
        if entries_map(after).contains_key(k) {
            let j = lemma_find_entry(after, k);
            assert(entries[j].0 == k);
        }
        if want.contains_key(k) {
            if k == entries[i].0 {
                assert(after[i].0 == k);
            } else {
                let j = lemma_find_entry(entries, k);
                assert(after[j].0 == k);
            }
        }
    }
    assert forall|k: u64| entries_map(after).contains_key(k) implies entries_map(after)[k]
        == want[k] by {
        let j = lemma_find_entry(after, k);
        lemma_entry(entries, j);
    }
    assert(entries_map(after) =~= want);
}

/// Appending an entry with a new id is an insertion.
pub proof fn lemma_push<V>(entries: Seq<(u64, V)>, k: u64, v: V)
    requires
        distinct_ids(entries),
        !entries_map(entries).contains_key(k),
    ensures
        distinct_ids(entries.push((k, v))),
        entries_map(entries.push((k, v))) == entries_map(entries).insert(k, v),
{
    let after = entries.push((k, v));
    assert forall|i: int| 0 <= i < entries.len() implies (#[trigger] entries[i]).0 != k by {
        lemma_entry(entries, i);
    }
    assert(distinct_ids(after));
    let want = entries_map(entries).insert(k, v);
    assert forall|q: u64| entries_map(after).contains_key(q) <==> want.contains_key(q) by {
        if entries_map(after).contains_key(q) {
            let j = lemma_find_entry(after, q);
            if j < entries.len() {
                lemma_entry(entries, j);
            }
        }
        if want.contains_key(q) {
            if q == k {
                assert(after[entries.len() as int].0 == q);
            } else {
                let j = lemma_find_entry(entries, q);
                assert(after[j].0 == q);
            }
        }
    }
    assert forall|q: u64| entries_map(after).contains_key(q) implies entries_map(after)[q]
        == want[q] by {
        let j = lemma_find_entry(after, q);
        if j < entries.len() {
            lemma_entry(entries, j);
        }
    }
    assert(entries_map(after) =~= want);
}

/// Taking one entry out removes its id.
pub proof fn lemma_remove<V>(entries: Seq<(u64, V)>, i: int)
    requires
        distinct_ids(entries),
        0 <= i < entries.len(),
    ensures
        distinct_ids(entries.remove(i)),
        entries_map(entries.remove(i)) == entries_map(entries).remove(entries[i].0),
{
    let after = entries.remove(i);
    let want = entries_map(entries).remove(entries[i].0);
    assert(distinct_ids(after));
    assert forall|q: u64| entries_map(after).contains_key(q) <==> want.contains_key(q) by {
        if entries_map(after).contains_key(q) {
            let j = lemma_find_entry(after, q);
            let b = if j < i { j } else { j + 1 };
            lemma_entry(entries, b);
        }
        if want.contains_key(q) {
            let j = lemma_find_entry(entries, q);
            let b = if j < i { j } else { j - 1 };
            assert(after[b].0 == q);
        }
    }
    assert forall|q: u64| entries_map(after).contains_key(q) implies entries_map(after)[q]
        == want[q] by {
        let j = lemma_find_entry(after, q);
        let b = if j < i { j } else { j + 1 };
        lemma_entry(entries, b);
    }
    assert(entries_map(after) =~= want);
}

/// The ids of the entries, in their order.
pub open spec fn ids_of<V>(entries: Seq<(u64, V)>) -> Seq<u64> {
    Seq::new(entries.len(), |i: int| entries[i].0)
}

/// Taking one entry out leaves the others in their order.
proof fn lemma_remove_order<V>(entries: Seq<(u64, V)>, i: int)
    requires
        distinct_ids(entries),
        0 <= i < entries.len(),
    ensures
        ids_of(entries.remove(i)) == kept(ids_of(entries), entries_map(entries.remove(i)).dom()),
{
    let live = entries_map(entries.remove(i)).dom();
    let ids = ids_of(entries);
    lemma_remove(entries, i);
    assert forall|j: int| 0 <= j < ids.len() && j != i implies live.contains(#[trigger] ids[j]) by {
        lemma_entry(entries, j);
        assert(entries[j].0 != entries[i].0);
    }
    lemma_kept_remove(ids, i, live);
    assert(ids_of(entries.remove(i)) =~= ids.remove(i));
}

/// Whether the list holds the id.
pub fn contains_id(list: &[u64], id: u64) -> (b: bool)
    ensures
        b == list@.contains(id),
{
    let mut i: usize = 0;
    while i < list.len()
        invariant
            i <= list@.len(),
            forall|k: int| 0 <= k < i ==> list@[k] != id,
        decreases list@.len() - i,
    {
        if list[i] == id {
            return true;
        }
        i = i + 1;
    }
    false
}

/// A list with the same ids.
pub fn copy_ids(list: &[u64]) -> (out: Vec<u64>)
    ensures
        out@ == list@,
{
    let mut out: Vec<u64> = Vec::new();
    let mut i: usize = 0;
    while i < list.len()
        invariant
            i <= list@.len(),
            out@ == list@.take(i as int),
        decreases list@.len() - i,
    {
        out.push(list[i]);
        i = i + 1;
        assert(out@ =~= list@.take(i as int));
    }
    assert(list@.take(i as int) =~= list@);
    out
}

/// The ids stand in ascending order, each once.
pub open spec fn ascending(ids: Seq<u64>) -> bool {
    forall|i: int, j: int| 0 <= i < j < ids.len() ==> ids[i] < ids[j]
}

/// The ids of the list in ascending order, each once.
pub fn sorted_ids(list: &[u64]) -> (out: Vec<u64>)
    ensures
        ascending(out@),
        forall|v: u64| #[trigger] out@.contains(v) <==> list@.contains(v),
{
    let mut out: Vec<u64> = Vec::new();
    let mut i: usize = 0;
    while i < list.len()
        invariant
            i <= list@.len(),
            ascending(out@),
            forall|v: u64| #[trigger] out@.contains(v) <==> list@.take(i as int).contains(v),
        decreases list@.len() - i,
    {
        let id: u64 = list[i];
        let mut at: usize = 0;
        while at < out.len() && out[at] < id
            invariant
                at <= out@.len(),
                forall|k: int| 0 <= k < at ==> out@[k] < id,
            decreases out@.len() - at,
        {
            at = at + 1;
        }
        let ghost before = out@;
        proof {
            assert(list@.take(i + 1) =~= list@.take(i as int).push(id));
            assert forall|v: u64| #[trigger]
                list@.take(i + 1).contains(v) <==> list@.take(i as int).contains(v) || v == id by {
                let s = list@.take(i as int);
                if s.contains(v) {
                    let j = choose|j: int| 0 <= j < s.len() && s[j] == v;
                    assert(list@.take(i + 1)[j] == v);
                }
                if v == id {
                    assert(list@.take(i + 1)[i as int] == v);
                }
            }
        }
        if at < out.len() && out[at] == id {
            assert(before.contains(id));
        } else {
            out.insert(at, id);
            proof {
                assert forall|v: u64| #[trigger] out@.contains(v) <==> before.contains(v) || v
                    == id by {
                    if before.contains(v) {
                        let j = choose|j: int| 0 <= j < before.len() && before[j] == v;
                        assert(out@[if j < at {
                            j
                        } else {
                            j + 1
                        }] == v);
                    }
                    if v == id {
                        assert(out@[at as int] == id);
                    }
                    if out@.contains(v) && v != id {
                        let j = choose|j: int| 0 <= j < out@.len() && out@[j] == v;
                        assert(before[if j < at {
                            j
                        } else {
                            j - 1
                        }] == v);
                    }
                }
            }
        }
        i = i + 1;
    }
    assert(list@.take(i as int) =~= list@);
    out
}

impl<V> IdMap<V> {
    pub open spec fn wf(self) -> bool {
        distinct_ids(self.entries@)
    }

    /// The ids, in the order in which they came.
    pub open spec fn order(self) -> Seq<u64> {
        ids_of(self.entries@)
    }

    pub fn new() -> (m: IdMap<V>)
        ensures
            m.wf(),
            m@ == Map::<u64, V>::empty(),
            m.order() == Seq::<u64>::empty(),
            m.entries@.len() == 0,
    {
        let m = IdMap { entries: Vec::new() };
        assert(m@ =~= Map::<u64, V>::empty());
        m
    }

    /// The position of the id in the entries.
    pub fn position(&self, id: u64) -> (p: Option<usize>)
        requires
            self.wf(),
        ensures
            match p {
                Some(i) => i < self.entries@.len() && self.entries@[i as int].0 == id
                    && self@.contains_key(id) && self@[id] == self.entries@[i as int].1,
                None => !self@.contains_key(id),
            },
    {
        let mut i: usize = 0;
        while i < self.entries.len()
            invariant
                self.wf(),
                i <= self.entries@.len(),
                forall|k: int| 0 <= k < i ==> (#[trigger] self.entries@[k]).0 != id,
            decreases self.entries@.len() - i,
        {
            if self.entries[i].0 == id {
                proof {
                    lemma_entry(self.entries@, i as int);
                }
                return Some(i);
            }
            i = i + 1;
        }
        None
    }

    pub fn get(&self, id: u64) -> (r: Option<&V>)
        requires
            self.wf(),
        ensures
            match r {
                Some(v) => self@.contains_key(id) && *v == self@[id],
                None => !self@.contains_key(id),
            },
    {
        match self.position(id) {
            Some(i) => Some(&self.entries[i].1),
            None => None,
        }
    }

    pub fn get_mut(&mut self, id: u64) -> (r: Option<&mut V>)
        requires
            old(self).wf(),
        ensures
            match r {
                Some(v) => old(self)@.contains_key(id) && *v == old(self)@[id]
                    && final(self)@ == old(self)@.insert(id, *final(v)) && final(self).wf()
                    && final(self).order() == old(self).order(),
                None => !old(self)@.contains_key(id) && *final(self) == *old(self),
            },
    {
        match self.position(id) {
            Some(i) => {
                proof {
                    assert forall|v: V|
                        distinct_ids(#[trigger] self.entries@.update(i as int, (id, v)))
                            && entries_map(self.entries@.update(i as int, (id, v))) == self@.insert(
                            id,
                            v,
                        ) by {
                        lemma_update(self.entries@, i as int, v);
                    }
                    assert forall|v: V|
                        ids_of(#[trigger] self.entries@.update(i as int, (id, v)))
                            == self.order() by {
                        assert(ids_of(self.entries@.update(i as int, (id, v))) =~= self.order());
                    }
                }
                Some(&mut self.entries[i].1)
            },
            None => None,
        }
    }

    /// Puts the value under the id, in place of the one that was there. A new id goes to the end.
    pub fn insert(&mut self, id: u64, value: V)
        requires
            old(self).wf(),
        ensures
            final(self).wf(),
            final(self)@ == old(self)@.insert(id, value),
            final(self).order() == (if old(self)@.contains_key(id) {
                old(self).order()
            } else {
                old(self).order().push(id)
            }),
    {
        match self.position(id) {
            Some(i) => {
                proof {
                    lemma_update(self.entries@, i as int, value);
                }
                self.entries.set(i, (id, value));
                assert(self.order() =~= old(self).order());
            },
            None => {
                proof {
                    lemma_push(self.entries@, id, value);
                }
                self.entries.push((id, value));
                assert(self.order() =~= old(self).order().push(id));
            },
        }
    }

    /// Takes the id out and hands back its value. The others keep their order.
    pub fn remove(&mut self, id: u64) -> (r: Option<V>)
        requires
            old(self).wf(),
        ensures
            final(self).wf(),
            final(self)@ == old(self)@.remove(id),
            final(self).order() == kept(old(self).order(), final(self)@.dom()),
            match r {
                Some(v) => old(self)@.contains_key(id) && v == old(self)@[id]
                    && final(self).entries@.len() == old(self).entries@.len() - 1,
                None => !old(self)@.contains_key(id),
            },
    {
        match self.position(id) {
            Some(i) => {
                proof {
                    lemma_remove(self.entries@, i as int);
                    lemma_remove_order(self.entries@, i as int);
                }
                let e = self.entries.remove(i);
                Some(e.1)
            },
            None => {
                proof {
                    self.lemma_order_lives();
                    lemma_kept_all(self.order(), self@.dom());
                }
                assert(self@ =~= self@.remove(id));
                None
            },
        }
    }

    /// Every id of the order is in the map.
    pub proof fn lemma_order_lives(&self)
        requires
            self.wf(),
        ensures
            forall|i: int|
                0 <= i < self.order().len() ==> self@.dom().contains(#[trigger] self.order()[i]),
    {
        assert forall|i: int| 0 <= i < self.order().len() implies self@.dom().contains(
            #[trigger] self.order()[i],
        ) by {
            lemma_entry(self.entries@, i);
        }
    }

    /// The ids, in the order in which they came.
    pub fn ids(&self) -> (out: Vec<u64>)
        requires
            self.wf(),
        ensures
            out@ == self.order(),
            out@.len() == self.entries@.len(),
            forall|i: int| 0 <= i < out@.len() ==> out@[i] == self.entries@[i].0,
            out@.no_duplicates(),
            out@.to_set() == self@.dom(),
    {
        let mut out: Vec<u64> = Vec::new();
        let mut i: usize = 0;
        while i < self.entries.len()
            invariant
                i <= self.entries@.len(),
                out@.len() == i,
                forall|k: int| 0 <= k < i ==> out@[k] == self.entries@[k].0,
            decreases self.entries@.len() - i,
        {
            out.push(self.entries[i].0);
            i = i + 1;
        }
        proof {
            assert forall|k: u64| out@.to_set().contains(k) <==> self@.dom().contains(k) by {
                if out@.contains(k) {
                    let j = choose|j: int| 0 <= j < out@.len() && out@[j] == k;
                    lemma_entry(self.entries@, j);
                }
                if self@.contains_key(k) {
                    let j = lemma_find_entry(self.entries@, k);
                    assert(out@[j] == k);
                }
            }
            assert(out@.to_set() =~= self@.dom());
        }
        out
    }
}

} // verus!
