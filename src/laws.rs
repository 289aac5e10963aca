use crate::mempool::{displaced, insert_map};
use crate::order::{is_least, key_laws, lemma_cmp_facts, lemma_least_exists, lemma_least_unique};
use vstd::prelude::*;
use vstd::std_specs::cmp::OrdSpec;

verus! {

/// The entries of a mempool within its bound stay within it after an insert.
pub proof fn lemma_insert_within_bound<K: Ord, V>(m: Map<K, V>, cap: usize, k: K, v: V)
    requires
        key_laws::<K>(),
        m.dom().finite(),
        m.len() <= cap,
    ensures
        insert_map(m, Some(cap), k, v).dom().finite(),
        insert_map(m, Some(cap), k, v).len() <= cap,
{
    if !m.contains_key(k) && m.len() >= cap && cap > 0 {
        lemma_least_exists(m);
    }
}

/// However many keys are inserted, one at a time, into a mempool within its
/// bound, it never holds more entries than the bound.
pub proof fn lemma_bound_kept<K: Ord, V>(m: Map<K, V>, cap: usize, items: Seq<(K, V)>)
    requires
        key_laws::<K>(),
        m.dom().finite(),
        m.len() <= cap,
    ensures
        insert_all(m, Some(cap), items).dom().finite(),
        insert_all(m, Some(cap), items).len() <= cap,
    decreases items.len(),
{
    if items.len() > 0 {
        lemma_bound_kept(m, cap, items.drop_last());
        lemma_insert_within_bound(
            insert_all(m, Some(cap), items.drop_last()),
            cap,
            items.last().0,
            items.last().1,
        );
    }
}

/// Inserting into a full mempool a new key that is greater than the current
/// minimum leaves that minimum out and the new key in.
pub proof fn lemma_eviction<K: Ord, V>(m: Map<K, V>, cap: usize, min: K, k: K, v: V)
    requires
        key_laws::<K>(),
        m.dom().finite(),
        m.len() == cap,
        is_least(m, min),
        !m.contains_key(k),
        k.cmp_spec(&min) is Greater,
    ensures
        !insert_map(m, Some(cap), k, v).contains_key(min),
        insert_map(m, Some(cap), k, v).contains_key(k),
{
    lemma_least_unique(m, min);
    assert(m.dom().contains(min));
    if cap == 0 {
        m.dom().lemma_len0_is_empty();
    }
}

/// Inserting the same key twice with two values keeps the size that the first
/// insert left, keeps only the second value under the key, and the second
/// insert hands back the first value. A bound of zero keeps nothing, so it is
/// left out.
pub proof fn lemma_overwrite<K: Ord, V>(m: Map<K, V>, cap: Option<usize>, k: K, v1: V, v2: V)
    requires
        cap != Some(0usize),
    ensures
        ({
            let once = insert_map(m, cap, k, v1);
            let twice = insert_map(once, cap, k, v2);
            &&& twice.len() == once.len()
            &&& twice == once.insert(k, v2)
            &&& twice[k] == v2
            &&& displaced(once, k) == Some(v1)
        }),
{
    let once = insert_map(m, cap, k, v1);
    assert(once.contains_key(k));
    assert(once.insert(k, v2).dom() =~= once.dom());
}

/// The entries left after inserting `items` one at a time, first to last, into
/// a mempool holding `m` with bound `cap`.
pub open spec fn insert_all<K: Ord, V>(m: Map<K, V>, cap: Option<usize>, items: Seq<(K, V)>) -> Map<
    K,
    V,
>
    decreases items.len(),
{
    if items.len() == 0 {
        m
    } else {
        insert_map(insert_all(m, cap, items.drop_last()), cap, items.last().0, items.last().1)
    }
}

/// The keys of `items` from index `lo` up to, not including, `hi`.
pub open spec fn keys_between<K, V>(items: Seq<(K, V)>, lo: int, hi: int) -> Set<K> {
    Set::new(|k: K| exists|i: int| lo <= i < hi && #[trigger] items[i].0 == k)
}

/// The keys of `items` increase strictly from first to last.
pub open spec fn strictly_increasing<K: Ord, V>(items: Seq<(K, V)>) -> bool {
    forall|i: int, j: int|
        #![trigger items[i], items[j]]
        0 <= i < j < items.len() ==> items[i].0.cmp_spec(&items[j].0) is Less
}

proof fn lemma_increasing_prefix<K: Ord, V>(cap: usize, items: Seq<(K, V)>)
    requires
        key_laws::<K>(),
        strictly_increasing(items),
    ensures
        ({
            let r = insert_all(Map::empty(), Some(cap), items);
            let lo = if items.len() > cap { items.len() - cap } else { 0 };
            &&& r.dom().finite()
            &&& r.len() == items.len() - lo
            &&& r.dom() == keys_between(items, lo, items.len() as int)
        }),
    decreases items.len(),
{
    lemma_cmp_facts::<K>();
    let n = items.len() as int;
    if n == 0 {
        assert(keys_between(items, 0, 0) =~= Set::empty());
        return;
    }
    let prev_items = items.drop_last();
    lemma_increasing_prefix(cap, prev_items);
    let prev = insert_all(Map::empty(), Some(cap), prev_items);
    let plo = if n - 1 > cap { n - 1 - cap } else { 0 };
    assert(prev.dom() == keys_between(prev_items, plo, n - 1));
    assert(keys_between(prev_items, plo, n - 1) =~= keys_between(items, plo, n - 1)) by {
        assert forall|k: K| #[trigger] keys_between(items, plo, n - 1).contains(k) implies keys_between(
            prev_items,
            plo,
            n - 1,
        ).contains(k) by {
            let i = choose|i: int| plo <= i < n - 1 && #[trigger] items[i].0 == k;
            assert(prev_items[i].0 == k);
        }
    }
    let k = items[n - 1].0;
    let v = items[n - 1].1;
    assert(!prev.contains_key(k)) by {
        if prev.contains_key(k) {
            let i = choose|i: int| plo <= i < n - 1 && #[trigger] items[i].0 == k;
            assert(items[i].0.cmp_spec(&items[n - 1].0) is Less);
        }
    }
    let r = insert_map(prev, Some(cap), k, v);
    assert(r == insert_all(Map::empty(), Some(cap), items));
    if n - 1 < cap {
        assert(r == prev.insert(k, v));
        assert(r.dom() =~= keys_between(items, 0, n)) by {
            assert forall|j: K| #[trigger] keys_between(items, 0, n).contains(j) implies r.dom().contains(j) by {
                let i = choose|i: int| 0 <= i < n && #[trigger] items[i].0 == j;
                if i < n - 1 {
                    assert(keys_between(items, plo, n - 1).contains(j));
                }
            }
        }
    } else if cap == 0 {
        assert(r == prev);
        assert(keys_between(items, n, n) =~= Set::empty());
        assert(keys_between(items, plo, n - 1) =~= Set::empty());
    } else {
        let lo = n - cap;
        let least = items[plo].0;
        assert(keys_between(items, plo, n - 1).contains(least));
        assert(is_least(prev, least)) by {
            assert forall|j: K| #[trigger] prev.contains_key(j) implies !(j.cmp_spec(
                &least,
            ) is Less) by {
                let i = choose|i: int| plo <= i < n - 1 && #[trigger] items[i].0 == j;
                if i > plo {
                    assert(items[plo].0.cmp_spec(&items[i].0) is Less);
                }
            }
        }
        lemma_least_unique(prev, least);
        assert(r == prev.remove(least).insert(k, v));
        assert(plo == lo - 1);
        assert(r.dom() =~= keys_between(items, lo, n)) by {
            assert forall|j: K| #[trigger] keys_between(items, lo, n).contains(j) implies r.dom().contains(j) by {
                let i = choose|i: int| lo <= i < n && #[trigger] items[i].0 == j;
                if i < n - 1 {
                    assert(keys_between(items, plo, n - 1).contains(j));
                    assert(items[plo].0.cmp_spec(&items[i].0) is Less);
                }
            }
            assert forall|j: K| #[trigger] r.dom().contains(j) implies keys_between(items, lo, n).contains(j) by {
                if j != k {
                    assert(keys_between(items, plo, n - 1).contains(j));
                    let i = choose|i: int| plo <= i < n - 1 && #[trigger] items[i].0 == j;
                    assert(i != plo);
                }
            }
        }
    }
}

/// After inserting more strictly increasing keys than the bound, one at a time
/// into an empty mempool, exactly the `cap` largest of them remain.
pub proof fn lemma_increasing_retention<K: Ord, V>(cap: usize, items: Seq<(K, V)>)
    requires
        key_laws::<K>(),
        items.len() > cap,
        strictly_increasing(items),
    ensures
        insert_all(Map::empty(), Some(cap), items).dom() == keys_between(
            items,
            items.len() - cap,
            items.len() as int,
        ),
        insert_all(Map::empty(), Some(cap), items).len() == cap,
{
    lemma_increasing_prefix(cap, items);
}

} // verus!
