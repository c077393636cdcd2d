//! IMSI → entity id. Kept apart from the `World` because ids are reused:
//! the mapping is registered and deregistered explicitly at attach and
//! detach.

use std::collections::HashMap;

use vstd::prelude::*;

use crate::ecs::world::EntityId;

verus! {

broadcast use vstd::std_specs::hash::group_hash_axioms;

/// IMSI → entity id.
pub struct ImsiRegistry {
    map: HashMap<u64, EntityId>,
}

impl View for ImsiRegistry {
    type V = Map<u64, EntityId>;

    closed spec fn view(&self) -> Map<u64, EntityId> {
        self.map@
    }
}

impl ImsiRegistry {
    pub fn new() -> (r: Self)
        ensures
            r@ == Map::<u64, EntityId>::empty(),
            r@.dom().finite(),
    {
        ImsiRegistry { map: HashMap::new() }
    }

    /// Map `imsi` to `entity`; the entity it was mapped to before, if any
    /// (a re-attach without a detach).
    pub fn register(&mut self, imsi: u64, entity: EntityId) -> (prev: Option<EntityId>)
        ensures
            final(self)@ == old(self)@.insert(imsi, entity),
            prev == (if old(self)@.contains_key(imsi) { Some(old(self)@[imsi]) } else { None::<EntityId> }),
            final(self)@.dom().finite(),
            final(self)@.len() == old(self)@.len() + (if prev is None { 1int } else { 0int }),
    {
        proof {
            assert(self.map@.dom().finite());
        }
        self.map.insert(imsi, entity)
    }

    /// Remove `imsi`; the entity it was mapped to, if any.
    pub fn deregister(&mut self, imsi: u64) -> (prev: Option<EntityId>)
        ensures
            final(self)@ == old(self)@.remove(imsi),
            prev == (if old(self)@.contains_key(imsi) { Some(old(self)@[imsi]) } else { None::<EntityId> }),
            final(self)@.dom().finite(),
            final(self)@.len() == old(self)@.len() - (if prev is Some { 1int } else { 0int }),
    {
        proof {
            assert(self.map@.dom().finite());
        }
        self.map.remove(&imsi)
    }

    pub fn lookup(&self, imsi: u64) -> (r: Option<EntityId>)
        ensures
            r == (if self@.contains_key(imsi) { Some(self@[imsi]) } else { None::<EntityId> }),
    {
        match self.map.get(&imsi) {
            Some(e) => Some(*e),
            None => None,
        }
    }

    pub fn len(&self) -> (n: usize)
        ensures
            n == self@.len(),
            self@.dom().finite(),
    {
        self.map.len()
    }

    pub fn is_empty(&self) -> (b: bool)
        ensures
            b == (self@.len() == 0),
    {
        self.map.len() == 0
    }
}

impl Default for ImsiRegistry {
    fn default() -> (r: Self)
        ensures
            r@ == Map::<u64, EntityId>::empty(),
    {
        ImsiRegistry::new()
    }
}

} // verus!
