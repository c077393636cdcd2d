//! `CoreWorld`: the entity allocator and one map per component, keyed by
//! the entity's number. Freed ids are reused, most recently freed first.

use std::collections::HashMap;

use vstd::prelude::*;

use crate::core_ecs::components::{AuthState, ImsiComponent, SecurityContext, SessionState, TunnelComponent};

verus! {

broadcast use vstd::std_specs::hash::group_hash_axioms;

/// An entity id: an opaque `u32`.
#[derive(Debug, Clone, Copy, PartialEq, Eq, Hash, Structural)]
pub struct EntityId(pub u32);

/// The subscriber store. Each component map is keyed by `EntityId.0`.
pub struct CoreWorld {
    next_id: u32,
    free_list: Vec<EntityId>,
    pub imsi: HashMap<u32, ImsiComponent>,
    pub auth: HashMap<u32, AuthState>,
    pub security: HashMap<u32, SecurityContext>,
    pub session: HashMap<u32, SessionState>,
    pub tunnel: HashMap<u32, TunnelComponent>,
}

/// What a `CoreWorld` holds.
pub struct CoreWorldView {
    pub next_id: u32,
    pub free_list: Seq<EntityId>,
    pub imsi: Map<u32, ImsiComponent>,
    pub auth: Map<u32, AuthState>,
    pub security: Map<u32, SecurityContext>,
    pub session: Map<u32, SessionState>,
    pub tunnel: Map<u32, TunnelComponent>,
}

impl View for CoreWorld {
    type V = CoreWorldView;

    closed spec fn view(&self) -> CoreWorldView {
        CoreWorldView {
            next_id: self.next_id,
            free_list: self.free_list@,
            imsi: self.imsi@,
            auth: self.auth@,
            security: self.security@,
            session: self.session@,
            tunnel: self.tunnel@,
        }
    }
}

/// The id `spawn` hands out and the allocator after it: the most recently
/// freed id, else the counter's, which then advances.
pub open spec fn core_spawn_result(a: CoreWorldView) -> (EntityId, CoreWorldView) {
    if a.free_list.len() > 0 {
        (a.free_list.last(), CoreWorldView { free_list: a.free_list.drop_last(), ..a })
    } else {
        (EntityId(a.next_id), CoreWorldView { next_id: (a.next_id + 1) as u32, ..a })
    }
}

impl CoreWorld {
    pub fn new() -> (w: Self)
        ensures
            w@.next_id == 0,
            w@.free_list.len() == 0,
            w@.imsi == Map::<u32, ImsiComponent>::empty(),
            w@.auth == Map::<u32, AuthState>::empty(),
            w@.security == Map::<u32, SecurityContext>::empty(),
            w@.session == Map::<u32, SessionState>::empty(),
            w@.tunnel == Map::<u32, TunnelComponent>::empty(),
    {
        CoreWorld {
            next_id: 0,
            free_list: Vec::new(),
            imsi: HashMap::new(),
            auth: HashMap::new(),
            security: HashMap::new(),
            session: HashMap::new(),
            tunnel: HashMap::new(),
        }
    }

    /// Allocate an entity (a subscriber slot).
    pub fn spawn(&mut self) -> (id: EntityId)
        requires
            old(self)@.free_list.len() > 0 || old(self)@.next_id < u32::MAX,
        ensures
            (id, final(self)@) == core_spawn_result(old(self)@),
    {
        match self.free_list.pop() {
            Some(id) => id,
            None => {
                let id = EntityId(self.next_id);
                self.next_id = self.next_id + 1;
                id
            },
        }
    }

    /// Free an entity: every component is removed and the id is queued for
    /// reuse.
    pub fn despawn(&mut self, id: EntityId)
        ensures
            final(self)@ == (CoreWorldView {
                free_list: old(self)@.free_list.push(id),
                imsi: old(self)@.imsi.remove(id.0),
                auth: old(self)@.auth.remove(id.0),
                security: old(self)@.security.remove(id.0),
                session: old(self)@.session.remove(id.0),
                tunnel: old(self)@.tunnel.remove(id.0),
                ..old(self)@
            }),
    {
        self.imsi.remove(&id.0);
        self.auth.remove(&id.0);
        self.security.remove(&id.0);
        self.session.remove(&id.0);
        self.tunnel.remove(&id.0);
        self.free_list.push(id);
    }

    /// Give `id` its IMSI component (replacing any it had).
    pub fn insert_imsi(&mut self, id: EntityId, c: ImsiComponent)
        ensures
            final(self)@ == (CoreWorldView { imsi: old(self)@.imsi.insert(id.0, c), ..old(self)@ }),
    {
        self.imsi.insert(id.0, c);
    }

    /// Set the authentication state of `id`.
    pub fn set_auth(&mut self, id: EntityId, c: AuthState)
        ensures
            final(self)@ == (CoreWorldView { auth: old(self)@.auth.insert(id.0, c), ..old(self)@ }),
    {
        self.auth.insert(id.0, c);
    }

    /// Give `id` its NAS security component.
    pub fn insert_security(&mut self, id: EntityId, c: SecurityContext)
        ensures
            final(self)@ == (CoreWorldView { security: old(self)@.security.insert(id.0, c), ..old(self)@ }),
    {
        self.security.insert(id.0, c);
    }

    /// Give `id` its session component.
    pub fn insert_session(&mut self, id: EntityId, c: SessionState)
        ensures
            final(self)@ == (CoreWorldView { session: old(self)@.session.insert(id.0, c), ..old(self)@ }),
    {
        self.session.insert(id.0, c);
    }

    /// Give `id` its tunnel component.
    pub fn insert_tunnel(&mut self, id: EntityId, c: TunnelComponent)
        ensures
            final(self)@ == (CoreWorldView { tunnel: old(self)@.tunnel.insert(id.0, c), ..old(self)@ }),
    {
        self.tunnel.insert(id.0, c);
    }

    /// Number of live entities: those with an IMSI.
    pub fn len(&self) -> (n: usize)
        ensures
            n == self@.imsi.len(),
    {
        self.imsi.len()
    }

    pub fn is_empty(&self) -> (b: bool)
        ensures
            b == (self@.imsi.len() == 0),
    {
        self.imsi.len() == 0
    }
}

impl Default for CoreWorld {
    fn default() -> (w: Self)
        ensures
            w@.next_id == 0,
            w@.free_list.len() == 0,
            w@.imsi == Map::<u32, ImsiComponent>::empty(),
            w@.auth == Map::<u32, AuthState>::empty(),
            w@.security == Map::<u32, SecurityContext>::empty(),
            w@.session == Map::<u32, SessionState>::empty(),
            w@.tunnel == Map::<u32, TunnelComponent>::empty(),
    {
        CoreWorld::new()
    }
}

/// A freed entity id is the next one spawned.
pub proof fn law_core_despawned_id_is_reused(a: CoreWorldView, id: EntityId)
    ensures
        core_spawn_result(CoreWorldView { free_list: a.free_list.push(id), ..a }).0 == id,
        core_spawn_result(CoreWorldView { free_list: a.free_list.push(id), ..a }).1 == a,
{
    assert(a.free_list.push(id).drop_last() =~= a.free_list);
}

} // verus!
