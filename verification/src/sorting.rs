//! Stable sorting by an integer key: each element is placed after every element that
//! came before it with a key that is not larger.
use vstd::prelude::*;

verus! {

/// Index of the first element of `s` whose key is larger than `k` (the length of `s`
/// when there is none).
pub open spec fn first_after<T>(s: Seq<T>, key: spec_fn(T) -> int, k: int) -> int
    decreases s.len(),
{
    if s.len() == 0 {
        0
    } else if key(s[0]) > k {
        0
    } else {
        1 + first_after(s.drop_first(), key, k)
    }
}

/// `s` sorted by `key`, stably: elements with equal keys keep their relative order.
pub open spec fn stable_sort<T>(s: Seq<T>, key: spec_fn(T) -> int) -> Seq<T>
    decreases s.len(),
{
    if s.len() == 0 {
        s
    } else {
        let r = stable_sort(s.drop_last(), key);
        r.insert(first_after(r, key, key(s.last())), s.last())
    }
}

/// The keys of `s` never decrease.
pub open spec fn sorted_by<T>(s: Seq<T>, key: spec_fn(T) -> int) -> bool {
    forall|i: int, j: int| 0 <= i <= j < s.len() ==> key(#[trigger] s[i]) <= key(#[trigger] s[j])
}

/// `first_after` is the index where scanning from the front first meets a larger key.
pub proof fn lemma_first_after_scan<T>(s: Seq<T>, key: spec_fn(T) -> int, k: int, p: int)
    requires
        0 <= p <= s.len(),
        forall|j: int| 0 <= j < p ==> key(#[trigger] s[j]) <= k,
        p < s.len() ==> key(s[p]) > k,
    ensures
        first_after(s, key, k) == p,
    decreases s.len(),
{
    if s.len() > 0 && p > 0 {
        assert forall|j: int| 0 <= j < p - 1 implies key(#[trigger] s.drop_first()[j]) <= k by {
            assert(s.drop_first()[j] == s[j + 1]);
        }
        if p < s.len() {
            assert(s.drop_first()[p - 1] == s[p]);
        }
        lemma_first_after_scan(s.drop_first(), key, k, p - 1);
    }
}

proof fn lemma_first_after_bounds<T>(s: Seq<T>, key: spec_fn(T) -> int, k: int)
    ensures
        0 <= first_after(s, key, k) <= s.len(),
        forall|j: int| 0 <= j < first_after(s, key, k) ==> key(#[trigger] s[j]) <= k,
        first_after(s, key, k) < s.len() ==> key(s[first_after(s, key, k)]) > k,
    decreases s.len(),
{
    if s.len() > 0 && key(s[0]) <= k {
        lemma_first_after_bounds(s.drop_first(), key, k);
        assert forall|j: int| 0 <= j < first_after(s, key, k) implies key(#[trigger] s[j]) <= k by {
            if j > 0 {
                assert(s[j] == s.drop_first()[j - 1]);
            }
        }
        if first_after(s, key, k) < s.len() {
            assert(s[first_after(s, key, k)] == s.drop_first()[first_after(s, key, k) - 1]);
        }
    }
}

/// A stable sort is sorted, and holds the same elements as its input.
pub proof fn lemma_stable_sort<T>(s: Seq<T>, key: spec_fn(T) -> int)
    ensures
        sorted_by(stable_sort(s, key), key),
        stable_sort(s, key).len() == s.len(),
        stable_sort(s, key).to_multiset() == s.to_multiset(),
    decreases s.len(),
{
    broadcast use vstd::seq_lib::group_to_multiset_ensures;
    if s.len() > 0 {
        let r = stable_sort(s.drop_last(), key);
        lemma_stable_sort(s.drop_last(), key);
        let k = key(s.last());
        let p = first_after(r, key, k);
        lemma_first_after_bounds(r, key, k);
        let out = r.insert(p, s.last());
        assert(out.len() == r.len() + 1);
        assert forall|i: int, j: int| 0 <= i <= j < out.len() implies key(#[trigger] out[i]) <= key(#[trigger] out[j]) by {
            if i < p && j < p {
                assert(out[i] == r[i] && out[j] == r[j]);
            } else if i < p && j == p {
                assert(out[i] == r[i]);
            } else if i < p && j > p {
                assert(out[i] == r[i] && out[j] == r[j - 1]);
            } else if i == p && j > p {
                assert(out[j] == r[j - 1]);
            } else if i > p {
                assert(out[i] == r[i - 1] && out[j] == r[j - 1]);
            }
        }
        vstd::seq_lib::to_multiset_insert(r, p, s.last());
        assert(s.drop_last().push(s.last()) =~= s);
        vstd::seq_lib::to_multiset_build(s.drop_last(), s.last());
    }
}

/// A sequence that is already sorted is its own stable sort.
pub proof fn lemma_stable_sort_sorted<T>(s: Seq<T>, key: spec_fn(T) -> int)
    requires
        sorted_by(s, key),
    ensures
        stable_sort(s, key) == s,
    decreases s.len(),
{
    if s.len() > 0 {
        let d = s.drop_last();
        assert(sorted_by(d, key)) by {
            assert forall|i: int, j: int| 0 <= i <= j < d.len() implies key(#[trigger] d[i]) <= key(#[trigger] d[j]) by {
                assert(d[i] == s[i] && d[j] == s[j]);
            }
        }
        lemma_stable_sort_sorted(d, key);
        assert forall|j: int| 0 <= j < d.len() implies key(#[trigger] d[j]) <= key(s.last()) by {
            assert(d[j] == s[j]);
        }
        lemma_first_after_scan(d, key, key(s.last()), d.len() as int);
        assert(stable_sort(d, key) == d);
        assert(first_after(d, key, key(s.last())) == d.len());
        d.insert_ensures(d.len() as int, s.last());
        assert(d.insert(d.len() as int, s.last()) =~= s);
        assert(stable_sort(s, key) == stable_sort(d, key).insert(first_after(stable_sort(d, key), key, key(s.last())), s.last()));
    }
}

/// Contains the same elements as a stable sort of it.
pub proof fn lemma_stable_sort_contains<T>(s: Seq<T>, key: spec_fn(T) -> int, x: T)
    ensures
        stable_sort(s, key).contains(x) <==> s.contains(x),
{
    lemma_stable_sort(s, key);
    vstd::seq_lib::to_multiset_contains(s, x);
    vstd::seq_lib::to_multiset_contains(stable_sort(s, key), x);
}

} // verus!
