//! Stable sorting by an integer key.

use crate::utils::lists::reversed;
use vstd::prelude::*;

verus! {

/// Something that is sorted by an integer.
pub trait Keyed {
    /// The place in the order.
    spec fn key(&self) -> int;

    /// The place in the order.
    fn sort_key(&self) -> (r: i64)
        ensures
            r == self.key(),
    ;
}

/// `s` with `x` behind everything that does not come after it.
pub open spec fn inserted<A>(s: Seq<A>, x: A, key: spec_fn(A) -> int) -> Seq<A>
    decreases s.len(),
{
    if s.len() == 0 || key(s.last()) <= key(x) {
        s.push(x)
    } else {
        inserted(s.drop_last(), x, key).push(s.last())
    }
}

/// `s` in the order of the keys; what has the same key keeps its order.
pub open spec fn sorted<A>(s: Seq<A>, key: spec_fn(A) -> int) -> Seq<A>
    decreases s.len(),
{
    if s.len() == 0 {
        s
    } else {
        inserted(sorted(s.drop_last(), key), s.last(), key)
    }
}

/// The keys never fall.
pub open spec fn is_sorted<A>(s: Seq<A>, key: spec_fn(A) -> int) -> bool {
    forall|i: int, j: int| 0 <= i <= j < s.len() ==> key(#[trigger] s[i]) <= key(#[trigger] s[j])
}

/// Those of `s` that have the key `k`, in their order.
pub open spec fn having<A>(s: Seq<A>, key: spec_fn(A) -> int, k: int) -> Seq<A> {
    s.filter(at_key(key, k))
}

/// What has the key `k`.
pub open spec fn at_key<A>(key: spec_fn(A) -> int, k: int) -> spec_fn(A) -> bool {
    |x: A| key(x) == k
}

proof fn lemma_inserted<A>(s: Seq<A>, x: A, key: spec_fn(A) -> int, k: int)
    requires
        is_sorted(s, key),
    ensures
        is_sorted(inserted(s, x, key), key),
        inserted(s, x, key).len() == s.len() + 1,
        inserted(s, x, key).to_multiset() == s.to_multiset().insert(x),
        having(inserted(s, x, key), key, k) == having(s.push(x), key, k),
        forall|i: int|
            0 <= i <= s.len() ==> #[trigger] inserted(s, x, key)[i] == x || s.contains(
                inserted(s, x, key)[i],
            ),
    decreases s.len(),
{
    broadcast use vstd::seq_lib::group_to_multiset_ensures;

    let out = inserted(s, x, key);
    if s.len() == 0 || key(s.last()) <= key(x) {
        assert(s.push(x).drop_last() =~= s);
        assert forall|i: int| 0 <= i <= s.len() implies #[trigger] out[i] == x || s.contains(
            out[i],
        ) by {
            if i < s.len() {
                assert(out[i] == s[i]);
            }
        }
    } else {
        let front = s.drop_last();
        let last = s.last();
        let mid = inserted(front, x, key);
        lemma_inserted(front, x, key, k);
        assert(mid.push(last) == out);
        assert(front.push(last) =~= s);
        assert forall|i: int| 0 <= i <= s.len() implies #[trigger] out[i] == x || s.contains(
            out[i],
        ) by {
            if i < mid.len() {
                assert(out[i] == mid[i]);
                if mid[i] != x {
                    let j = choose|j: int| 0 <= j < front.len() && front[j] == mid[i];
                    assert(s[j] == mid[i]);
                }
            } else {
                assert(out[i] == s[s.len() - 1]);
            }
        }
        assert forall|i: int, j: int| 0 <= i <= j < out.len() implies key(#[trigger] out[i])
            <= key(#[trigger] out[j]) by {
            if j < mid.len() {
                assert(out[i] == mid[i] && out[j] == mid[j]);
            } else if i < mid.len() {
                assert(out[i] == mid[i]);
                if mid[i] != x {
                    let m = choose|m: int| 0 <= m < front.len() && front[m] == mid[i];
                    assert(s[m] == mid[i]);
                }
            }
        }
        assert(s.to_multiset() == front.to_multiset().insert(last));
        assert(out.to_multiset() =~= s.to_multiset().insert(x));
        // The element that moves back has another key than `x`.
        let p = at_key(key, k);
        mid.lemma_filter_push(last, p);
        front.lemma_filter_push(x, p);
        front.lemma_filter_push(last, p);
        s.lemma_filter_push(x, p);
    }
}

/// Sorting keeps every element, brings the keys into order and changes nothing in the
/// order of elements with the same key.
pub proof fn law_sorting_is_stable<A>(s: Seq<A>, key: spec_fn(A) -> int, k: int)
    ensures
        is_sorted(sorted(s, key), key),
        sorted(s, key).len() == s.len(),
        sorted(s, key).to_multiset() == s.to_multiset(),
        having(sorted(s, key), key, k) == having(s, key, k),
    decreases s.len(),
{
    broadcast use vstd::seq_lib::group_to_multiset_ensures;

    if s.len() > 0 {
        let front = s.drop_last();
        law_sorting_is_stable(front, key, k);
        lemma_inserted(sorted(front, key), s.last(), key, k);
        assert(front.push(s.last()) =~= s);
        let p = at_key(key, k);
        front.lemma_filter_push(s.last(), p);
        sorted(front, key).lemma_filter_push(s.last(), p);
    }
}

proof fn lemma_inserted_map<A, B>(
    s: Seq<A>,
    x: A,
    f: spec_fn(A) -> B,
    key: spec_fn(A) -> int,
    other: spec_fn(B) -> int,
)
    requires
        forall|a: A| #[trigger] other(f(a)) == key(a),
    ensures
        inserted(s.map_values(f), f(x), other) == inserted(s, x, key).map_values(f),
    decreases s.len(),
{
    let m = s.map_values(f);
    if s.len() == 0 || key(s.last()) <= key(x) {
        assert(s.len() > 0 ==> other(m.last()) == key(s.last()));
        assert(other(f(x)) == key(x));
        assert(s.push(x).map_values(f) =~= m.push(f(x)));
    } else {
        assert(other(m.last()) == key(s.last()));
        assert(other(f(x)) == key(x));
        lemma_inserted_map(s.drop_last(), x, f, key, other);
        assert(m.drop_last() =~= s.drop_last().map_values(f));
        assert(inserted(s.drop_last(), x, key).push(s.last()).map_values(f) =~= inserted(
            s.drop_last(),
            x,
            key,
        ).map_values(f).push(f(s.last())));
    }
}

/// Sorting does not look at anything but the keys: images with the same keys are sorted
/// alike.
pub proof fn lemma_sorted_map<A, B>(
    s: Seq<A>,
    f: spec_fn(A) -> B,
    key: spec_fn(A) -> int,
    other: spec_fn(B) -> int,
)
    requires
        forall|a: A| #[trigger] other(f(a)) == key(a),
    ensures
        sorted(s.map_values(f), other) == sorted(s, key).map_values(f),
    decreases s.len(),
{
    let m = s.map_values(f);
    if s.len() == 0 {
        assert(m =~= sorted(s, key).map_values(f));
    } else {
        lemma_sorted_map(s.drop_last(), f, key, other);
        assert(m.drop_last() =~= s.drop_last().map_values(f));
        lemma_inserted_map(sorted(s.drop_last(), key), s.last(), f, key, other);
    }
}

/// Put `x` behind everything that does not come after it.
fn insert_sorted<T: Keyed>(v: &mut Vec<T>, x: T)
    ensures
        final(v)@ == inserted(old(v)@, x, |t: T| t.key()),
{
    let k: i64 = x.sort_key();
    let ghost key = |t: T| t.key();
    let ghost s = v@;
    let mut at: usize = v.len();
    proof {
        assert(s.take(at as int) =~= s);
        assert(inserted(s, x, key) + Seq::<T>::empty() =~= inserted(s, x, key));
        assert(s.skip(at as int) =~= Seq::<T>::empty());
    }
    while at > 0 && v[at - 1].sort_key() > k
        invariant
            at <= v.len(),
            v@ == s,
            key == (|t: T| t.key()),
            k == x.key(),
            inserted(s, x, key) == inserted(s.take(at as int), x, key) + s.skip(at as int),
        decreases at,
    {
        proof {
            let t = s.take(at as int);
            assert(t.drop_last() =~= s.take(at - 1));
            assert(t.last() == s[at - 1]);
            assert(inserted(s.take(at - 1), x, key).push(s[at - 1]) + s.skip(at as int)
                =~= inserted(s.take(at - 1), x, key) + s.skip(at - 1));
        }
        at = at - 1;
    }
    proof {
        let t = s.take(at as int);
        assert(at > 0 ==> t.last() == s[at - 1]);
        assert(inserted(t, x, key) == t.push(x));
        assert(t.push(x) + s.skip(at as int) =~= s.insert(at as int, x));
    }
    v.insert(at, x);
}

/// Sort by the keys. What has the same key keeps its order.
pub fn sort_by_key<T: Keyed>(v: Vec<T>) -> (r: Vec<T>)
    ensures
        r@ == sorted(v@, |t: T| t.key()),
{
    let ghost all = v@;
    let ghost key = |t: T| t.key();
    let mut reversed = reversed(v);
    let mut out: Vec<T> = Vec::new();
    assert(all.skip(0) =~= all);
    assert(sorted(all.take(0), key) =~= out@);
    while reversed.len() > 0
        invariant
            reversed@.len() + out@.len() == all.len(),
            reversed@ == all.skip(out@.len() as int).reverse(),
            key == (|t: T| t.key()),
            out@ == sorted(all.take(out@.len() as int), key),
        decreases reversed.len(),
    {
        let ghost done: int = out@.len() as int;
        match reversed.pop() {
            Some(x) => {
                assert(x == all[done]);
                assert(all.take(done + 1).drop_last() =~= all.take(done));
                insert_sorted(&mut out, x);
                proof {
                    law_sorting_is_stable(all.take(done + 1), key, 0);
                    assert(out@.len() == done + 1);
                    assert(reversed@ =~= all.skip(done + 1).reverse());
                }
            },
            None => {},
        }
    }
    assert(all.take(all.len() as int) =~= all);
    out
}

} // verus!
