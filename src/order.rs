use std::collections::BTreeMap;
use vstd::laws_cmp::{
    obeys_cmp, obeys_cmp_ord, obeys_cmp_partial_ord, obeys_partial_cmp_spec_properties,
};
use vstd::laws_eq::{obeys_concrete_eq, obeys_eq_spec_properties};
use vstd::prelude::*;
use vstd::std_specs::cmp::{OrdSpec, PartialOrdSpec};

verus! {

/// The key type orders its values totally, and its `==` is plain equality of values.
pub open spec fn key_laws<K: Ord>() -> bool {
    &&& obeys_cmp::<K>()
    &&& obeys_concrete_eq::<K>()
}

/// `k` is a key of `m` and no key of `m` is smaller.
pub open spec fn is_least<K: Ord, V>(m: Map<K, V>, k: K) -> bool {
    &&& m.contains_key(k)
    &&& forall|j: K| #[trigger] m.contains_key(j) ==> !(j.cmp_spec(&k) is Less)
}

/// `k` is a key of `m` and no key of `m` is greater.
pub open spec fn is_greatest<K: Ord, V>(m: Map<K, V>, k: K) -> bool {
    &&& m.contains_key(k)
    &&& forall|j: K| #[trigger] m.contains_key(j) ==> !(j.cmp_spec(&k) is Greater)
}

/// The smallest key of a non-empty map.
pub open spec fn least_key<K: Ord, V>(m: Map<K, V>) -> K {
    choose|k: K| is_least(m, k)
}

/// The greatest key of a non-empty map.
pub open spec fn greatest_key<K: Ord, V>(m: Map<K, V>) -> K {
    choose|k: K| is_greatest(m, k)
}

/// The consequences of `key_laws` that the proofs about ordered keys use.
pub proof fn lemma_cmp_facts<K: Ord>()
    requires
        key_laws::<K>(),
    ensures
        forall|a: K, b: K| #[trigger]
            a.cmp_spec(&b) is Less <==> b.cmp_spec(&a) is Greater,
        forall|a: K, b: K| #[trigger] a.cmp_spec(&b) is Equal <==> a == b,
        forall|a: K, b: K, c: K|
            #[trigger] a.cmp_spec(&b) is Less && #[trigger] b.cmp_spec(&c) is Less
                ==> a.cmp_spec(&c) is Less,
        forall|a: K, b: K, c: K|
            #[trigger] a.cmp_spec(&b) is Greater && #[trigger] b.cmp_spec(&c) is Greater
                ==> a.cmp_spec(&c) is Greater,
{
    reveal(obeys_cmp_ord);
    reveal(obeys_cmp_partial_ord);
    reveal(obeys_partial_cmp_spec_properties);
    reveal(obeys_eq_spec_properties);
    reveal(obeys_concrete_eq);
    assert forall|a: K, b: K| #[trigger]
        a.cmp_spec(&b) is Less <==> b.cmp_spec(&a) is Greater by {
        assert(a.partial_cmp_spec(&b) == Some(a.cmp_spec(&b)));
        assert(b.partial_cmp_spec(&a) == Some(b.cmp_spec(&a)));
    }
    assert forall|a: K, b: K| #[trigger] a.cmp_spec(&b) is Equal <==> a == b by {
        assert(a.partial_cmp_spec(&b) == Some(a.cmp_spec(&b)));
    }
    assert forall|a: K, b: K, c: K|
        #[trigger] a.cmp_spec(&b) is Less && #[trigger] b.cmp_spec(&c) is Less
            implies a.cmp_spec(&c) is Less by {
        assert(a.partial_cmp_spec(&b) == Some(a.cmp_spec(&b)));
        assert(b.partial_cmp_spec(&c) == Some(b.cmp_spec(&c)));
        assert(a.partial_cmp_spec(&c) == Some(a.cmp_spec(&c)));
    }
    assert forall|a: K, b: K, c: K|
        #[trigger] a.cmp_spec(&b) is Greater && #[trigger] b.cmp_spec(&c) is Greater
            implies a.cmp_spec(&c) is Greater by {
        assert(a.partial_cmp_spec(&b) == Some(a.cmp_spec(&b)));
        assert(b.partial_cmp_spec(&c) == Some(b.cmp_spec(&c)));
        assert(a.partial_cmp_spec(&c) == Some(a.cmp_spec(&c)));
    }
}

/// A map has at most one least key, and `least_key` names it.
pub proof fn lemma_least_unique<K: Ord, V>(m: Map<K, V>, k: K)
    requires
        key_laws::<K>(),
        is_least(m, k),
    ensures
        least_key(m) == k,
        is_least(m, least_key(m)),
{
    lemma_cmp_facts::<K>();
    let l = least_key(m);
    assert(is_least(m, l));
    assert(!(l.cmp_spec(&k) is Less));
    assert(!(k.cmp_spec(&l) is Less));
}

/// A map has at most one greatest key, and `greatest_key` names it.
pub proof fn lemma_greatest_unique<K: Ord, V>(m: Map<K, V>, k: K)
    requires
        key_laws::<K>(),
        is_greatest(m, k),
    ensures
        greatest_key(m) == k,
        is_greatest(m, greatest_key(m)),
{
    lemma_cmp_facts::<K>();
    let g = greatest_key(m);
    assert(is_greatest(m, g));
    assert(!(g.cmp_spec(&k) is Greater));
    assert(!(k.cmp_spec(&g) is Greater));
}

/// Every finite non-empty map has a least key.
pub proof fn lemma_least_exists<K: Ord, V>(m: Map<K, V>)
    requires
        key_laws::<K>(),
        m.dom().finite(),
        !m.is_empty(),
    ensures
        is_least(m, least_key(m)),
    decreases m.len(),
{
    lemma_cmp_facts::<K>();
    let k = m.dom().choose();
    assert(m.contains_key(k));
    let rest = m.remove(k);
    if rest.is_empty() {
        assert forall|j: K| #[trigger] m.contains_key(j) implies !(j.cmp_spec(&k) is Less) by {
            if j != k {
                assert(rest.contains_key(j));
            }
        }
        lemma_least_unique(m, k);
    } else {
        lemma_least_exists(rest);
        let l = least_key(rest);
        if k.cmp_spec(&l) is Less {
            assert forall|j: K| #[trigger] m.contains_key(j) implies !(j.cmp_spec(
                &k,
            ) is Less) by {
                if j != k {
                    assert(rest.contains_key(j));
                    assert(!(j.cmp_spec(&l) is Less));
                }
            }
            lemma_least_unique(m, k);
        } else {
            assert forall|j: K| #[trigger] m.contains_key(j) implies !(j.cmp_spec(
                &l,
            ) is Less) by {
                if j != k {
                    assert(rest.contains_key(j));
                }
            }
            lemma_least_unique(m, l);
        }
    }
}

/// Relies on `BTreeMap::first_key_value`: `None` on an empty map, else the pair
/// whose key is the minimum key in the map.
#[verifier::external_body]
pub(crate) fn first_entry<K: Ord, V>(m: &BTreeMap<K, V>) -> (r: Option<(&K, &V)>)
    ensures
        obeys_cmp::<K>() ==> match r {
            None => m@.is_empty(),
            Some((k, v)) => {
                &&& m@.contains_key(*k)
                &&& m@[*k] == *v
                &&& forall|j: K| #[trigger] m@.contains_key(j) ==> !(j.cmp_spec(k) is Less)
            },
        },
{
    m.first_key_value()
}

/// Relies on `BTreeMap::last_key_value`: `None` on an empty map, else the pair
/// whose key is the maximum key in the map.
#[verifier::external_body]
pub(crate) fn last_entry<K: Ord, V>(m: &BTreeMap<K, V>) -> (r: Option<(&K, &V)>)
    ensures
        obeys_cmp::<K>() ==> match r {
            None => m@.is_empty(),
            Some((k, v)) => {
                &&& m@.contains_key(*k)
                &&& m@[*k] == *v
                &&& forall|j: K| #[trigger] m@.contains_key(j) ==> !(j.cmp_spec(k) is Greater)
            },
        },
{
    m.last_key_value()
}

/// Relies on `BTreeMap::pop_first`: removes and returns the pair with the
/// minimum key, or leaves an empty map as it is and returns `None`.
#[verifier::external_body]
pub(crate) fn take_first<K: Ord, V>(m: &mut BTreeMap<K, V>) -> (r: Option<(K, V)>)
    ensures
        obeys_cmp::<K>() ==> match r {
            None => old(m)@.is_empty() && final(m)@ == old(m)@,
            Some((k, v)) => {
                &&& old(m)@.contains_key(k)
                &&& old(m)@[k] == v
                &&& forall|j: K| #[trigger] old(m)@.contains_key(j) ==> !(j.cmp_spec(&k) is Less)
                &&& final(m)@ == old(m)@.remove(k)
            },
        },
{
    m.pop_first()
}

} // verus!
