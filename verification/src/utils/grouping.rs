//! Lists of values under the keys that they belong to.

use crate::utils::lists::reversed;
use std::collections::HashMap;
use std::hash::Hash;
use vstd::prelude::*;
use vstd::std_specs::hash::*;

verus! {

/// The values that are paired with `key`, in order.
pub open spec fn values_under<K, V>(pairs: Seq<(K, V)>, key: K) -> Seq<V>
    decreases pairs.len(),
{
    if pairs.len() == 0 {
        Seq::empty()
    } else if pairs.last().0 == key {
        values_under(pairs.drop_last(), key).push(pairs.last().1)
    } else {
        values_under(pairs.drop_last(), key)
    }
}

/// `map` holds, under each key of the pairs and under no other, its values in order.
pub open spec fn are_groups<K, V>(map: Map<K, Vec<V>>, pairs: Seq<(K, V)>) -> bool {
    &&& forall|k: K| #[trigger] map.contains_key(k) <==> values_under(pairs, k).len() > 0
    &&& forall|k: K| map.contains_key(k) ==> (#[trigger] map[k])@ == values_under(pairs, k)
}

/// Add a value under its key.
fn push_under<K: Eq + Hash + Copy, V>(map: &mut HashMap<K, Vec<V>>, key: K, value: V)
    requires
        obeys_key_model::<K>(),
    ensures
        final(map)@.dom() == old(map)@.dom().insert(key),
        forall|k: K|
            k != key && old(map)@.contains_key(k) ==> #[trigger] final(map)@[k] == old(map)@[k],
        final(map)@[key]@ == if old(map)@.contains_key(key) {
            old(map)@[key]@.push(value)
        } else {
            seq![value]
        },
{
    broadcast use group_hash_axioms;

    let ghost before = map@;
    let mut list = match map.remove(&key) {
        Some(list) => list,
        None => Vec::new(),
    };
    list.push(value);
    map.insert(key, list);
    assert(map@.dom() =~= before.dom().insert(key));
    assert(!before.contains_key(key) ==> map@[key]@ =~= seq![value]);
}

/// Group values by the keys that they are paired with. Values of the same key keep their
/// order.
pub fn group<K: Eq + Hash + Copy, V>(pairs: Vec<(K, V)>) -> (r: HashMap<K, Vec<V>>)
    requires
        obeys_key_model::<K>(),
    ensures
        are_groups(r@, pairs@),
{
    broadcast use group_hash_axioms;

    let ghost all = pairs@;
    let mut reversed = reversed(pairs);
    let mut map: HashMap<K, Vec<V>> = HashMap::new();
    let ghost mut done: int = 0;
    assert(all.skip(0) =~= all);
    while reversed.len() > 0
        invariant
            obeys_key_model::<K>(),
            0 <= done,
            reversed@.len() + done == all.len(),
            reversed@ == all.skip(done).reverse(),
            are_groups(map@, all.take(done)),
        decreases reversed.len(),
    {
        match reversed.pop() {
            Some((key, value)) => {
                let ghost before = map@;
                assert((key, value) == all[done]);
                push_under(&mut map, key, value);
                proof {
                    let prefix = all.take(done);
                    let next = all.take(done + 1);
                    assert(next.drop_last() =~= prefix);
                    assert forall|k: K| #[trigger]
                        map@.contains_key(k) <==> values_under(next, k).len() > 0 by {
                        assert(before.contains_key(k) <==> values_under(prefix, k).len() > 0);
                    }
                    assert forall|k: K| map@.contains_key(k) implies (#[trigger] map@[k])@
                        == values_under(next, k) by {
                        assert(before.contains_key(k) <==> values_under(prefix, k).len() > 0);
                        if k != key {
                            assert(map@[k] == before[k]);
                        } else if !before.contains_key(k) {
                            assert(values_under(prefix, k) =~= Seq::<V>::empty());
                            assert(values_under(next, k) =~= seq![value]);
                        }
                    }
                    done = done + 1;
                    assert(reversed@ =~= all.skip(done).reverse());
                }
            },
            None => {},
        }
    }
    assert(all.take(done) =~= all);
    map
}

/// Every value that was given is found again under its key, and nothing else is found.
pub proof fn law_groups_hold_what_was_given<K, V>(
    map: Map<K, Vec<V>>,
    pairs: Seq<(K, V)>,
    key: K,
    value: V,
)
    requires
        are_groups(map, pairs),
    ensures
        (map.contains_key(key) && map[key]@.contains(value)) <==> pairs.contains((key, value)),
{
    lemma_values_under(pairs, key, value);
    if map.contains_key(key) {
        assert(map[key]@ == values_under(pairs, key));
    } else {
        assert(values_under(pairs, key).len() == 0);
    }
}

proof fn lemma_values_under<K, V>(pairs: Seq<(K, V)>, key: K, value: V)
    ensures
        values_under(pairs, key).contains(value) <==> pairs.contains((key, value)),
    decreases pairs.len(),
{
    if pairs.len() > 0 {
        let front = pairs.drop_last();
        lemma_values_under(front, key, value);
        let before = values_under(front, key);
        let now = values_under(pairs, key);
        if before.contains(value) {
            let i = choose|i: int| 0 <= i < before.len() && before[i] == value;
            assert(now[i] == value);
        }
        if front.contains((key, value)) {
            let i = choose|i: int| 0 <= i < front.len() && front[i] == (key, value);
            assert(pairs[i] == (key, value));
        }
        if pairs.last() == (key, value) {
            assert(now[before.len() as int] == value);
            assert(pairs[pairs.len() - 1] == (key, value));
        }
        if pairs.contains((key, value)) && pairs.last() != (key, value) {
            let i = choose|i: int| 0 <= i < pairs.len() && pairs[i] == (key, value);
            assert(front[i] == (key, value));
        }
        if now.contains(value) && !before.contains(value) {
            let i = choose|i: int| 0 <= i < now.len() && now[i] == value;
            if i < before.len() {
                assert(before[i] == value);
            }
        }
    }
}

/// The values under a key are those that were given for it, in the order in which they were
/// given.
pub proof fn law_groups_keep_the_order_of_their_values<K, V>(pairs: Seq<(K, V)>, key: K)
    ensures
        values_under(pairs, key) == pairs.filter(|p: (K, V)| p.0 == key).map_values(
            |p: (K, V)| p.1,
        ),
    decreases pairs.len(),
{
    reveal(Seq::filter);
    let f = |p: (K, V)| p.0 == key;
    let g = |p: (K, V)| p.1;
    if pairs.len() == 0 {
        assert(pairs.filter(f).map_values(g) =~= Seq::<V>::empty());
    } else {
        let front = pairs.drop_last();
        law_groups_keep_the_order_of_their_values(front, key);
        if pairs.last().0 == key {
            assert(front.filter(f).push(pairs.last()).map_values(g) =~= front.filter(f).map_values(
                g,
            ).push(pairs.last().1));
        }
    }
}

} // verus!
