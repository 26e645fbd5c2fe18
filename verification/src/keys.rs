//! Walking over the keys of a hash map.

use std::collections::HashMap;
use std::hash::Hash;
use vstd::prelude::*;

verus! {

broadcast use vstd::std_specs::hash::group_hash_axioms;

/// The keys of a map, each once, in no particular order.
pub fn keys_of<K: Copy + Eq + Hash, V>(map: &HashMap<K, V>) -> (r: Vec<K>)
    requires
        vstd::std_specs::hash::obeys_key_model::<K>(),
    ensures
        r@.no_duplicates(),
        r@.to_set() == map@.dom(),
        forall|k: K| #[trigger] map@.contains_key(k) <==> r@.contains(k),
{
    let mut keys: Vec<K> = Vec::new();
    for key in it: map.keys()
        invariant
            keys@.len() == it.index(),
            forall|i: int| 0 <= i < keys.len() ==> #[trigger] keys@[i] == *it.seq()[i],
    {
        keys.push(*key);
    }
    proof {
        let all = vstd::std_specs::iter::IteratorSpec::remaining(
            &vstd::std_specs::hash::spec_keys_iter(map),
        ).unref();
        assert(keys@ =~= all);
        assert forall|k: K| #[trigger] map@.contains_key(k) <==> keys@.contains(k) by {
            assert(all.to_set().contains(k) <==> all.contains(k));
        }
    }
    keys
}

} // verus!
