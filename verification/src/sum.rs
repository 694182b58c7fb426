//! Sums over finite maps of amounts.

use vstd::prelude::*;

verus! {

/// The sum of all values of a finite map.
pub open spec fn map_sum<K>(m: Map<K, i128>) -> int
    decreases m.dom().len(),
    when m.dom().finite()
{
    if m.dom().len() == 0 {
        0
    } else {
        let k = m.dom().choose();
        m[k] + map_sum(m.remove(k))
    }
}

/// Every value of the map is non-negative.
pub open spec fn all_nonneg<K>(m: Map<K, i128>) -> bool {
    forall|k: K| #[trigger] m.contains_key(k) ==> m[k] >= 0
}

/// The value under `k`, 0 where there is none.
pub open spec fn value_or_zero<K>(m: Map<K, i128>, k: K) -> int {
    if m.contains_key(k) {
        m[k] as int
    } else {
        0
    }
}

/// Taking out one key takes its value out of the sum.
pub proof fn lemma_map_sum_remove<K>(m: Map<K, i128>, k: K)
    requires
        m.dom().finite(),
        m.contains_key(k),
    ensures
        map_sum(m) == m[k] + map_sum(m.remove(k)),
    decreases m.dom().len(),
{
    let c = m.dom().choose();
    if c != k {
        lemma_map_sum_remove(m.remove(c), k);
        lemma_map_sum_remove(m.remove(k), c);
        assert(m.remove(c).remove(k) =~= m.remove(k).remove(c));
    }
}

/// Replacing the value under `k` changes the sum by the difference.
pub proof fn lemma_map_sum_insert<K>(m: Map<K, i128>, k: K, v: i128)
    requires
        m.dom().finite(),
    ensures
        map_sum(m.insert(k, v)) == map_sum(m) - value_or_zero(m, k) + v,
{
    let m2 = m.insert(k, v);
    lemma_map_sum_remove(m2, k);
    if m.contains_key(k) {
        lemma_map_sum_remove(m, k);
        assert(m2.remove(k) =~= m.remove(k));
    } else {
        assert(m2.remove(k) =~= m);
    }
}

/// A map of non-negative values has a non-negative sum.
pub proof fn lemma_map_sum_nonneg<K>(m: Map<K, i128>)
    requires
        m.dom().finite(),
        all_nonneg(m),
    ensures
        map_sum(m) >= 0,
    decreases m.dom().len(),
{
    if m.dom().len() > 0 {
        let k = m.dom().choose();
        lemma_map_sum_nonneg(m.remove(k));
    }
}

/// With non-negative values, the sum bounds any one value.
pub proof fn lemma_map_sum_bounds_one<K>(m: Map<K, i128>, a: K)
    requires
        m.dom().finite(),
        all_nonneg(m),
    ensures
        value_or_zero(m, a) <= map_sum(m),
{
    lemma_map_sum_nonneg(m);
    if m.contains_key(a) {
        lemma_map_sum_remove(m, a);
        lemma_map_sum_nonneg(m.remove(a));
    }
}

/// With non-negative values, the sum bounds the sum of two different values.
pub proof fn lemma_map_sum_bounds_two<K>(m: Map<K, i128>, a: K, b: K)
    requires
        m.dom().finite(),
        all_nonneg(m),
        a != b,
    ensures
        value_or_zero(m, a) + value_or_zero(m, b) <= map_sum(m),
{
    lemma_map_sum_nonneg(m);
    if m.contains_key(a) {
        lemma_map_sum_remove(m, a);
        lemma_map_sum_bounds_one(m.remove(a), b);
    } else {
        lemma_map_sum_bounds_one(m, b);
    }
}

} // verus!
