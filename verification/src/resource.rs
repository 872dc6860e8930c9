//! The table in which a host keeps the resources that it hands out to a
//! guest by number.

use std::collections::hash_map::Entry;
use std::collections::HashMap;
use vstd::prelude::*;
use vstd::set_lib::{lemma_int_range, lemma_map_size, set_int_range};

verus! {

/// The number by which a guest names a resource.
pub type ResourceId = u32;

/// Why the table could not do what was asked.
#[derive(Clone, Copy, Debug, PartialEq, Eq, Structural)]
pub enum ResourceError {
    /// The table has no free keys.
    Full,
    /// The key is not in the table.
    NotFound,
}

/// How many keys lie from `from` up to `to`, going round after the last
/// key.
pub open spec fn distance(from: u32, to: u32) -> int {
    if to >= from {
        to - from
    } else {
        to + 0x1_0000_0000 - from
    }
}

/// `key` is the first key from `start` on, going round after the last key,
/// that the set does not hold.
pub open spec fn first_free(used: Set<u32>, start: u32, key: u32) -> bool {
    &&& !used.contains(key)
    &&& forall|k: u32| distance(start, k) < distance(start, key) ==> used.contains(k)
}

/// The key after `key`, which is the first key after the last.
pub open spec fn successor(key: u32) -> u32 {
    if key == u32::MAX {
        0
    } else {
        (key + 1) as u32
    }
}

proof fn lemma_all_keys(used: Set<u32>)
    requires
        used.finite(),
        forall|k: u32| used.contains(k),
    ensures
        used.len() == 0x1_0000_0000,
{
    let ints = set_int_range(0, 0x1_0000_0000);
    let f = |i: int| i as u32;
    lemma_int_range(0, 0x1_0000_0000);
    assert(vstd::relations::injective_on(f, ints));
    assert forall|k: u32| ints.map(f).contains(k) by {
        assert(ints.contains(k as int));
        assert(f(k as int) == k);
    }
    assert(ints.map(f) =~= used);
    lemma_map_size(ints, used, f);
}

/// The resources by key, and where the search for a free key goes on.
pub struct ResourceTableInner<V> {
    map: HashMap<ResourceId, V>,
    next_rid: ResourceId,
}

/// A table of resources.
pub struct ResourceTable<V>(ResourceTableInner<V>);

impl<V> ResourceTableInner<V> {
    /// The resources by key.
    pub closed spec fn view(self) -> Map<ResourceId, V> {
        self.map@
    }

    /// The key at which the search for a free key starts.
    pub closed spec fn next(self) -> ResourceId {
        self.next_rid
    }

    fn new() -> (inner: Self)
        ensures
            inner@ == Map::<ResourceId, V>::empty(),
            inner.next() == 0,
    {
        broadcast use vstd::std_specs::hash::group_hash_axioms;

        ResourceTableInner { map: HashMap::new(), next_rid: 0 }
    }

    fn push(&mut self, a: V) -> (key: Result<ResourceId, ResourceError>)
        ensures
            old(self)@.len() >= u32::MAX ==> key == Err::<ResourceId, ResourceError>(
                ResourceError::Full,
            ) && final(self)@ == old(self)@ && final(self).next() == old(self).next(),
            old(self)@.len() < u32::MAX ==> (key matches Ok(k) && first_free(
                old(self)@.dom(),
                old(self).next(),
                k,
            ) && final(self)@ == old(self)@.insert(k, a) && final(self).next() == successor(k)),
    {
        broadcast use vstd::std_specs::hash::group_hash_axioms;

        if self.map.len() >= 0xffff_ffff {
            return Err(ResourceError::Full);
        }
        let ghost used = self.map@.dom();
        let ghost start = self.next_rid;
        let ghost free: u32 = 0;
        proof {
            if forall|k: u32| used.contains(k) {
                lemma_all_keys(used);
            }
            free = choose|k: u32| !used.contains(k);
        }
        let mut key = self.next_rid;
        while self.map.contains_key(&key)
            invariant
                self.map@.dom() == used,
                self.map@ == old(self).map@,
                !used.contains(free),
                forall|k: u32| distance(start, k) < distance(start, key) ==> used.contains(k),
                distance(start, key) + distance(key, free) == distance(start, free),
            decreases distance(key, free),
        {
            key = if key == 0xffff_ffff {
                0
            } else {
                key + 1
            };
        }
        self.next_rid = if key == 0xffff_ffff {
            0
        } else {
            key + 1
        };
        self.map.insert(key, a);
        Ok(key)
    }

    fn contains_key(&self, key: ResourceId) -> (b: bool)
        ensures
            b == self@.contains_key(key),
    {
        broadcast use vstd::std_specs::hash::group_hash_axioms;

        self.map.contains_key(&key)
    }

    fn get(&self, key: ResourceId) -> (resource: Option<&V>)
        ensures
            resource == (if self@.contains_key(key) {
                Some(&self@[key])
            } else {
                None
            }),
    {
        broadcast use vstd::std_specs::hash::group_hash_axioms;

        self.map.get(&key)
    }

    fn get_mut(&mut self, key: ResourceId) -> (resource: Option<&mut V>)
        ensures
            match resource {
                Some(r) => old(self)@.contains_key(key) && *r == old(self)@[key] && final(self)@
                    == old(self)@.insert(key, *final(r)),
                None => !old(self)@.contains_key(key) && final(self)@ == old(self)@,
            },
            final(self).next() == old(self).next(),
    {
        broadcast use vstd::std_specs::hash::group_hash_axioms;

        if !self.map.contains_key(&key) {
            return None;
        }
        let ghost before = self.map@;
        match self.map.entry(key) {
            Entry::Occupied(entry) => {
                let resource = entry.into_mut();
                proof {
                    assert(before.insert(key, *final(resource)).dom() =~= before.dom());
                }
                Some(resource)
            },
            Entry::Vacant(_) => None,
        }
    }

    fn take(&mut self, key: ResourceId) -> (resource: Option<V>)
        ensures
            resource == (if old(self)@.contains_key(key) {
                Some(old(self)@[key])
            } else {
                None
            }),
            final(self)@ == old(self)@.remove(key),
            final(self).next() == old(self).next(),
    {
        broadcast use vstd::std_specs::hash::group_hash_axioms;

        let ghost before = self.map@;
        let resource = self.map.remove(&key);
        proof {
            if before.contains_key(key) {
                assert(before.dom().finite());
                assert(self.map@.dom() == before.dom().remove(key));
            }
        }
        resource
    }
}

impl<V> Default for ResourceTable<V> {
    /// The empty table.
    fn default() -> (table: Self)
        ensures
            table@ == Map::<ResourceId, V>::empty(),
            table.next() == 0,
    {
        ResourceTable::new()
    }
}

impl<V> ResourceTable<V> {
    /// The resources by key.
    pub closed spec fn view(self) -> Map<ResourceId, V> {
        self.0@
    }

    /// The key at which the search for a free key starts.
    pub closed spec fn next(self) -> ResourceId {
        self.0.next()
    }

    /// Create an empty table.
    pub fn new() -> (table: Self)
        ensures
            table@ == Map::<ResourceId, V>::empty(),
            table.next() == 0,
    {
        ResourceTable(ResourceTableInner::new())
    }

    /// Insert a resource at the next available index: the first free key
    /// from where the last search ended, going round after the last key.
    /// The table is full when it holds as many resources as the largest key
    /// tells, so that one key is never taken.
    pub fn push(&mut self, a: V) -> (key: Result<ResourceId, ResourceError>)
        ensures
            old(self)@.len() >= u32::MAX ==> key == Err::<ResourceId, ResourceError>(
                ResourceError::Full,
            ) && final(self)@ == old(self)@ && final(self).next() == old(self).next(),
            old(self)@.len() < u32::MAX ==> (key matches Ok(k) && first_free(
                old(self)@.dom(),
                old(self).next(),
                k,
            ) && final(self)@ == old(self)@.insert(k, a) && final(self).next() == successor(k)),
    {
        self.0.push(a)
    }

    /// Check if the table has a resource at the given index.
    pub fn contains_key(&self, key: ResourceId) -> (b: bool)
        ensures
            b == self@.contains_key(key),
    {
        self.0.contains_key(key)
    }

    /// Get a reference to the resource at a given index.
    pub fn get(&self, key: ResourceId) -> (resource: Result<&V, ResourceError>)
        ensures
            resource == (if self@.contains_key(key) {
                Ok::<&V, ResourceError>(&self@[key])
            } else {
                Err::<&V, ResourceError>(ResourceError::NotFound)
            }),
    {
        match self.0.get(key) {
            Some(resource) => Ok(resource),
            None => Err(ResourceError::NotFound),
        }
    }

    /// Get a mutable reference to the resource at a given index: what is
    /// written through it is what the table holds at that index afterwards.
    pub fn get_mut(&mut self, key: ResourceId) -> (resource: Result<&mut V, ResourceError>)
        ensures
            match resource {
                Ok(r) => old(self)@.contains_key(key) && *r == old(self)@[key] && final(self)@
                    == old(self)@.insert(key, *final(r)),
                Err(error) => error == ResourceError::NotFound && !old(self)@.contains_key(key)
                    && final(self)@ == old(self)@,
            },
            final(self).next() == old(self).next(),
    {
        match self.0.get_mut(key) {
            Some(resource) => Ok(resource),
            None => Err(ResourceError::NotFound),
        }
    }

    /// Remove a resource at a given index from the table and returns it.
    pub fn take(&mut self, key: ResourceId) -> (resource: Option<V>)
        ensures
            resource == (if old(self)@.contains_key(key) {
                Some(old(self)@[key])
            } else {
                None
            }),
            final(self)@ == old(self)@.remove(key),
            final(self).next() == old(self).next(),
    {
        self.0.take(key)
    }
}

} // verus!
