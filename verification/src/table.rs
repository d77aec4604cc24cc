//! Walking and changing the standard hash tables that are keyed by an integer id.
use std::collections::hash_map::Entry;
use std::collections::HashMap;
use vstd::prelude::*;

use crate::idmap::contains_id;

verus! {

broadcast use vstd::std_specs::hash::group_hash_axioms;

/// The value under the id, to be changed in place.
pub fn table_get_mut<V>(table: &mut HashMap<u64, V>, id: u64) -> (r: Option<&mut V>)
    ensures
        match r {
            Some(v) => old(table)@.contains_key(id) && *v == old(table)@[id] && final(table)@
                == old(table)@.insert(id, *final(v)),
            None => !old(table)@.contains_key(id) && *final(table) == *old(table),
        },
{
    if !table.contains_key(&id) {
        return None;
    }
    match table.entry(id) {
        Entry::Occupied(entry) => Some(entry.into_mut()),
        Entry::Vacant(_) => None,
    }
}

/// The ids, each once, in the order in which the table is walked.
pub fn table_ids<V>(table: &HashMap<u64, V>) -> (out: Vec<u64>)
    ensures
        out@.no_duplicates(),
        out@.to_set() == table@.dom(),
{
    let mut out: Vec<u64> = Vec::new();
    for id in walk: table.keys()
        invariant
            out@ == walk.seq().unref().take(walk.index()),
    {
        out.push(*id);
        assert(out@ =~= walk.seq().unref().take(walk.index() + 1));
    }
    assert(out@ =~= vstd::std_specs::iter::IteratorSpec::remaining(&table.keys()).unref());
    out
}

/// Takes out every id that is not in `live`.
pub fn table_retain<V>(table: &mut HashMap<u64, V>, live: &[u64])
    ensures
        final(table)@ == old(table)@.restrict(live@.to_set()),
{
    let all = table_ids(table);
    let mut i: usize = 0;
    while i < all.len()
        invariant
            i <= all@.len(),
            all@.to_set() == old(table)@.dom(),
            forall|q: u64| #[trigger]
                table@.contains_key(q) ==> old(table)@.contains_key(q) && table@[q] == old(
                    table,
                )@[q],
            forall|q: u64|
                old(table)@.contains_key(q) && live@.contains(q) ==> #[trigger] table@.contains_key(
                    q,
                ),
            forall|k: int|
                0 <= k < i && table@.contains_key(#[trigger] all@[k]) ==> live@.contains(all@[k]),
        decreases all@.len() - i,
    {
        if !contains_id(live, all[i]) {
            let _ = table.remove(&all[i]);
        }
        i = i + 1;
    }
    proof {
        assert forall|q: u64| table@.contains_key(q) implies live@.contains(q) by {
            assert(all@.to_set().contains(q));
            let k = choose|k: int| 0 <= k < all@.len() && all@[k] == q;
            assert(table@.contains_key(all@[k]));
        }
        assert(table@ =~= old(table)@.restrict(live@.to_set()));
    }
}

} // verus!
