//! The keys of a hash map as a list, and lists that grow.

use std::collections::HashMap;
use std::hash::Hash;
use vstd::prelude::*;
use vstd::std_specs::hash::obeys_key_model;
use vstd::std_specs::iter::IteratorSpec;

verus! {

broadcast use vstd::std_specs::hash::group_hash_axioms;

/// Whether `keys` lists the keys of a map, each once.
pub open spec fn lists_keys<K, V>(keys: Seq<K>, m: Map<K, V>) -> bool {
    &&& keys.no_duplicates()
    &&& forall|k: K| #[trigger] m.contains_key(k) <==> keys.contains(k)
}

/// The keys of a map, each once, in no particular order.
pub(crate) fn key_list<K: Copy + Eq + Hash, V>(m: &HashMap<K, V>) -> (r: Vec<K>)
    requires
        obeys_key_model::<K>(),
    ensures
        lists_keys(r@, m@),
{
    let mut r: Vec<K> = Vec::new();
    for k in it: m.keys()
        invariant
            r@.len() == it.index(),
            forall|i: int| 0 <= i < r@.len() ==> r@[i] == *it.seq()[i],
    {
        r.push(*k);
    }
    proof {
        let all = vstd::std_specs::hash::spec_keys_iter(m).remaining();
        assert(r@ =~= all.unref());
        assert forall|k: K| #[trigger] m@.contains_key(k) <==> r@.contains(k) by {
            assert(m@.dom().contains(k) <==> all.unref().to_set().contains(k));
        }
    }
    r
}

/// A longer beginning of a list without repetition holds one new element.
pub proof fn extended<T>(list: Seq<T>, i: int)
    requires
        list.no_duplicates(),
        0 <= i < list.len(),
    ensures
        !list.take(i).contains(list[i]),
        forall|p: T| #[trigger]
            list.take(i + 1).contains(p) <==> list.take(i).contains(p) || p == list[i],
{
    let seen = list.take(i);
    let next = list.take(i + 1);
    if seen.contains(list[i]) {
        let j = choose|j: int| 0 <= j < seen.len() && seen[j] == list[i];
        assert(list[j] == list[i]);
    }
    assert forall|p: T| #[trigger] next.contains(p) <==> seen.contains(p) || p == list[i] by {
        if seen.contains(p) {
            let j = choose|j: int| 0 <= j < seen.len() && seen[j] == p;
            assert(next[j] == p);
        }
        if p == list[i] {
            assert(next[i] == p);
        }
        if next.contains(p) && p != list[i] {
            let j = choose|j: int| 0 <= j < next.len() && next[j] == p;
            assert(seen[j] == p);
        }
    }
}

/// A list to which an element was added holds that element besides its own.
pub proof fn pushed<T>(list: Seq<T>, p: T)
    ensures
        forall|q: T| #[trigger] list.push(p).contains(q) <==> list.contains(q) || q == p,
        list.no_duplicates() && !list.contains(p) ==> list.push(p).no_duplicates(),
{
    let more = list.push(p);
    assert forall|q: T| #[trigger] more.contains(q) <==> list.contains(q) || q == p by {
        if list.contains(q) {
            let j = choose|j: int| 0 <= j < list.len() && list[j] == q;
            assert(more[j] == q);
        }
        if q == p {
            assert(more[list.len() as int] == q);
        }
        if more.contains(q) && q != p {
            let j = choose|j: int| 0 <= j < more.len() && more[j] == q;
            assert(list[j] == q);
        }
    }
}

} // verus!
