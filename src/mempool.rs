use crate::order::{
    first_entry, greatest_key, is_greatest, is_least, key_laws, last_entry, lemma_greatest_unique,
    lemma_least_unique, least_key, take_first,
};
use std::collections::BTreeMap;
use vstd::prelude::*;

verus! {

/// What inserting `(k, v)` makes of the entries `m` of a mempool bounded by `cap`.
///
/// An existing key is overwritten in place. A new key is added, except that a
/// mempool at its bound first gives up its smallest key; a bound of zero keeps
/// nothing at all.
pub open spec fn insert_map<K: Ord, V>(m: Map<K, V>, cap: Option<usize>, k: K, v: V) -> Map<K, V> {
    if cap is Some && !m.contains_key(k) && m.len() >= cap->0 {
        if cap->0 == 0 {
            m
        } else {
            m.remove(least_key(m)).insert(k, v)
        }
    } else {
        m.insert(k, v)
    }
}

/// The value that an insert under key `k` displaces from `m`.
pub open spec fn displaced<K, V>(m: Map<K, V>, k: K) -> Option<V> {
    if m.contains_key(k) {
        Some(m[k])
    } else {
        None
    }
}

/// Priority mempool with an optional maximum size. Inserting a new key into a
/// full mempool drops the entry with the smallest key.
pub struct Mempool<K, V> {
    data: BTreeMap<K, V>,
    max_size: Option<usize>,
}

impl<K, V> View for Mempool<K, V> {
    type V = Map<K, V>;

    closed spec fn view(&self) -> Map<K, V> {
        self.data@
    }
}

impl<K: Ord, V> Mempool<K, V> {
    /// The maximum size fixed at construction, if any.
    pub closed spec fn capacity(&self) -> Option<usize> {
        self.max_size
    }

    /// The key type is totally ordered and the entries respect the bound.
    pub open spec fn wf(&self) -> bool {
        &&& key_laws::<K>()
        &&& self.capacity() is Some ==> self@.len() <= self.capacity()->0
    }

    /// Create a new mempool with an unbound size.
    pub fn new() -> (r: Self)
        requires
            key_laws::<K>(),
        ensures
            r.wf(),
            r@ == Map::<K, V>::empty(),
            r.capacity() is None,
    {
        Mempool { data: BTreeMap::new(), max_size: None }
    }

    /// Creates a new mempool with a provided maximum size.
    pub fn new_with_capacity(max_size: usize) -> (r: Self)
        requires
            key_laws::<K>(),
        ensures
            r.wf(),
            r@ == Map::<K, V>::empty(),
            r.capacity() == Some(max_size),
    {
        Mempool { data: BTreeMap::new(), max_size: Some(max_size) }
    }

    /// Adds a new item and returns the value it replaced under the same key.
    /// A new key drops the smallest entry if the mempool is at its maximum size.
    pub fn insert(&mut self, key: K, value: V) -> (r: Option<V>)
        requires
            old(self).wf(),
        ensures
            final(self).wf(),
            final(self).capacity() == old(self).capacity(),
            final(self)@ == insert_map(old(self)@, old(self).capacity(), key, value),
            r == displaced(old(self)@, key),
    {
        if let Some(max_size) = self.max_size {
            if !self.data.contains_key(&key) && self.data.len() >= max_size {
                if max_size == 0 {
                    return None;
                }
                let smallest = take_first(&mut self.data);
                proof {
                    if let Some((k, v)) = smallest {
                        lemma_least_unique(old(self)@, k);
                    }
                }
            }
        }
        self.data.insert(key, value)
    }

    /// Removes and returns the value with the smallest key.
    pub fn pop(&mut self) -> (r: Option<V>)
        requires
            old(self).wf(),
        ensures
            final(self).wf(),
            final(self).capacity() == old(self).capacity(),
            old(self)@.is_empty() ==> r is None && final(self)@ == old(self)@,
            !old(self)@.is_empty() ==> r == Some(old(self)@[least_key(old(self)@)])
                && final(self)@ == old(self)@.remove(least_key(old(self)@)),
    {
        match take_first(&mut self.data) {
            Some((k, v)) => {
                proof {
                    lemma_least_unique(old(self)@, k);
                }
                Some(v)
            },
            None => None,
        }
    }

    /// Gets the value with the largest key in the mempool.
    pub fn max_value(&self) -> (r: Option<&V>)
        requires
            self.wf(),
        ensures
            r is None <==> self@.is_empty(),
            r matches Some(v) ==> *v == self@[greatest_key(self@)],
    {
        match last_entry(&self.data) {
            Some((k, v)) => {
                proof {
                    lemma_greatest_unique(self@, *k);
                }
                Some(v)
            },
            None => None,
        }
    }

    /// Gets the largest key in the mempool.
    pub fn max_key(&self) -> (r: Option<&K>)
        requires
            self.wf(),
        ensures
            r is None <==> self@.is_empty(),
            r matches Some(k) ==> *k == greatest_key(self@) && is_greatest(self@, *k),
    {
        match last_entry(&self.data) {
            Some((k, v)) => {
                proof {
                    lemma_greatest_unique(self@, *k);
                }
                Some(k)
            },
            None => None,
        }
    }

    /// Gets the value with the smallest key in the mempool.
    pub fn min_value(&self) -> (r: Option<&V>)
        requires
            self.wf(),
        ensures
            r is None <==> self@.is_empty(),
            r matches Some(v) ==> *v == self@[least_key(self@)],
    {
        match first_entry(&self.data) {
            Some((k, v)) => {
                proof {
                    lemma_least_unique(self@, *k);
                }
                Some(v)
            },
            None => None,
        }
    }

    /// Gets the smallest key in the mempool.
    pub fn min_key(&self) -> (r: Option<&K>)
        requires
            self.wf(),
        ensures
            r is None <==> self@.is_empty(),
            r matches Some(k) ==> *k == least_key(self@) && is_least(self@, *k),
    {
        match first_entry(&self.data) {
            Some((k, v)) => {
                proof {
                    lemma_least_unique(self@, *k);
                }
                Some(k)
            },
            None => None,
        }
    }

    /// Gets the current size of the mempool.
    pub fn len(&self) -> (r: usize)
        requires
            self.wf(),
        ensures
            r == self@.len(),
    {
        self.data.len()
    }

    /// The entries in key order, for traversal from either end.
    pub fn data(&self) -> (r: &BTreeMap<K, V>)
        ensures
            r@ == self@,
    {
        &self.data
    }
}

} // verus!
