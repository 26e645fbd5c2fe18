//! Lists of keys and values, read as maps.

use vstd::prelude::*;

verus! {

/// Whether no key occurs twice.
pub open spec fn distinct<K, V>(pairs: Seq<(K, V)>) -> bool {
    forall|i: int, j: int|
        0 <= i < pairs.len() && 0 <= j < pairs.len() && i != j ==> (#[trigger] pairs[i]).0 != (
        #[trigger] pairs[j]).0
}

/// Whether `key` stands at `i`.
pub open spec fn stands_at<K, V>(pairs: Seq<(K, V)>, key: K, i: int) -> bool {
    0 <= i < pairs.len() && pairs[i].0 == key
}

/// The map from each key to its value.
pub open spec fn entries<K, V>(pairs: Seq<(K, V)>) -> Map<K, V> {
    Map::new(
        |key: K| exists|i: int| stands_at(pairs, key, i),
        |key: K| pairs[choose|i: int| stands_at(pairs, key, i)].1,
    )
}

/// Each pair is an entry of the map, and each entry is one of the pairs.
pub proof fn lemma_entries<K, V>(pairs: Seq<(K, V)>)
    requires
        distinct(pairs),
    ensures
        forall|i: int|
            0 <= i < pairs.len() ==> entries(pairs).contains_key((#[trigger] pairs[i]).0)
                && entries(pairs)[pairs[i].0] == pairs[i].1,
        forall|key: K| #[trigger]
            entries(pairs).contains_key(key) ==> exists|i: int| stands_at(pairs, key, i),
{
    assert forall|i: int| 0 <= i < pairs.len() implies entries(pairs).contains_key(
        (#[trigger] pairs[i]).0,
    ) && entries(pairs)[pairs[i].0] == pairs[i].1 by {
        let key = pairs[i].0;
        assert(stands_at(pairs, key, i));
        let j = choose|j: int| stands_at(pairs, key, j);
        assert(pairs[j].0 == key);
    }
}

/// A pair with a new key adds its entry to the map.
pub proof fn lemma_push<K, V>(pairs: Seq<(K, V)>, pair: (K, V))
    requires
        distinct(pairs),
        !entries(pairs).contains_key(pair.0),
    ensures
        distinct(pairs.push(pair)),
        entries(pairs.push(pair)) == entries(pairs).insert(pair.0, pair.1),
{
    let after = pairs.push(pair);
    lemma_entries(pairs);
    assert(distinct(after));
    lemma_entries(after);
    let last = pairs.len() as int;
    assert(after[last] == pair);
    assert forall|key: K| entries(after).contains_key(key) <==> entries(pairs).insert(
        pair.0,
        pair.1,
    ).contains_key(key) by {
        if entries(after).contains_key(key) {
            let i = choose|i: int| stands_at(after, key, i);
            if i < last {
                assert(pairs[i] == after[i]);
            }
        }
        if entries(pairs).contains_key(key) {
            let i = choose|i: int| stands_at(pairs, key, i);
            assert(after[i] == pairs[i]);
        }
    }
    assert forall|key: K| entries(after).contains_key(key) implies entries(after)[key] == entries(
        pairs,
    ).insert(pair.0, pair.1)[key] by {
        let i = choose|i: int| stands_at(after, key, i);
        if i < last {
            assert(pairs[i] == after[i]);
        } else {
            assert(after[i] == pair);
        }
    }
    assert(entries(after) =~= entries(pairs).insert(pair.0, pair.1));
}

/// Taking a pair away takes its entry from the map.
pub proof fn lemma_remove<K, V>(pairs: Seq<(K, V)>, at: int)
    requires
        distinct(pairs),
        0 <= at < pairs.len(),
    ensures
        distinct(pairs.remove(at)),
        entries(pairs.remove(at)) == entries(pairs).remove(pairs[at].0),
{
    let after = pairs.remove(at);
    let gone = pairs[at].0;
    lemma_entries(pairs);
    assert forall|i: int, j: int|
        0 <= i < after.len() && 0 <= j < after.len() && i != j implies (#[trigger] after[i]).0 != (
    #[trigger] after[j]).0 by {
        assert(after[i] == pairs[if i < at {
            i
        } else {
            i + 1
        }]);
        assert(after[j] == pairs[if j < at {
            j
        } else {
            j + 1
        }]);
    }
    lemma_entries(after);
    assert forall|key: K| entries(after).contains_key(key) <==> entries(pairs).remove(
        gone,
    ).contains_key(key) by {
        if entries(after).contains_key(key) {
            let i = choose|i: int| stands_at(after, key, i);
            assert(after[i] == pairs[if i < at {
                i
            } else {
                i + 1
            }]);
        }
        if entries(pairs).remove(gone).contains_key(key) {
            let i = choose|i: int| stands_at(pairs, key, i);
            assert(after[if i < at {
                i
            } else {
                i - 1
            }] == pairs[i]);
        }
    }
    assert forall|key: K| entries(after).contains_key(key) implies entries(after)[key] == entries(
        pairs,
    )[key] by {
        let i = choose|i: int| stands_at(after, key, i);
        assert(after[i] == pairs[if i < at {
            i
        } else {
            i + 1
        }]);
    }
    assert(entries(after) =~= entries(pairs).remove(gone));
}

/// There are as many entries as pairs.
pub proof fn lemma_count<K, V>(pairs: Seq<(K, V)>)
    requires
        distinct(pairs),
    ensures
        entries(pairs).dom().finite(),
        entries(pairs).dom().len() == pairs.len(),
    decreases pairs.len(),
{
    if pairs.len() == 0 {
        assert(entries(pairs).dom() =~= Set::empty());
    } else {
        let rest = pairs.drop_last();
        let last = pairs.last();
        assert(distinct(rest));
        lemma_count(rest);
        lemma_entries(rest);
        assert(!entries(rest).contains_key(last.0)) by {
            if entries(rest).contains_key(last.0) {
                let i = choose|i: int| stands_at(rest, last.0, i);
                assert(pairs[i].0 == pairs[pairs.len() - 1].0);
            }
        }
        lemma_push(rest, last);
        assert(pairs =~= rest.push(last));
        assert(entries(pairs).dom() =~= entries(rest).dom().insert(last.0));
    }
}

} // verus!
