//! Sums over the values of a finite map.

use vstd::prelude::*;

verus! {

/// The sum of `f` over the values of `m`.
pub open spec fn sum_over<K, V>(m: Map<K, V>, f: spec_fn(V) -> int) -> int
    decreases m.dom().len(),
{
    if m.dom().finite() && m.dom().len() > 0 {
        let key = m.dom().choose();
        f(m[key]) + sum_over(m.remove(key), f)
    } else {
        0
    }
}

/// Any key may be taken out of the sum first.
pub proof fn lemma_sum_remove<K, V>(m: Map<K, V>, f: spec_fn(V) -> int, key: K)
    requires
        m.dom().finite(),
        m.contains_key(key),
    ensures
        sum_over(m, f) == f(m[key]) + sum_over(m.remove(key), f),
    decreases m.dom().len(),
{
    let first = m.dom().choose();
    assert(m.dom().contains(key));
    if m.dom().len() == 0 {
        assert(m.dom() =~= Set::empty());
    }
    assert(m.dom().contains(first));
    if first != key {
        assert(m.remove(first).dom() =~= m.dom().remove(first));
        assert(m.remove(key).dom() =~= m.dom().remove(key));
        lemma_sum_remove(m.remove(first), f, key);
        lemma_sum_remove(m.remove(key), f, first);
        assert(m.remove(first).remove(key) =~= m.remove(key).remove(first));
    }
}

/// How an insertion changes the sum.
pub proof fn lemma_sum_insert<K, V>(m: Map<K, V>, f: spec_fn(V) -> int, key: K, value: V)
    requires
        m.dom().finite(),
    ensures
        sum_over(m.insert(key, value), f) == sum_over(m, f) + f(value) - (if m.contains_key(key) {
            f(m[key])
        } else {
            0
        }),
{
    let after = m.insert(key, value);
    lemma_sum_remove(after, f, key);
    if m.contains_key(key) {
        lemma_sum_remove(m, f, key);
        assert(after.remove(key) =~= m.remove(key));
    } else {
        assert(after.remove(key) =~= m);
    }
}

/// A sum of ones and nothings is at most the number of entries.
pub proof fn lemma_sum_at_most<K, V>(m: Map<K, V>, f: spec_fn(V) -> int)
    requires
        m.dom().finite(),
        forall|v: V| #[trigger] f(v) <= 1,
    ensures
        sum_over(m, f) <= m.dom().len(),
    decreases m.dom().len(),
{
    if m.dom().len() > 0 {
        let key = m.dom().choose();
        assert(m.remove(key).dom() =~= m.dom().remove(key));
        lemma_sum_at_most(m.remove(key), f);
    }
}

} // verus!
