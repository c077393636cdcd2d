//! `World`: one dense `Vec` per component, indexed by entity id. Every live
//! entity has every component; the NAS security contexts and the tunnel
//! are optional. A despawned slot is reset to its empty values and its id
//! goes on a free list, reused before a new slot is grown.
//!
//! Each entity carries both the EPS (`security`, `nas_security`) and the 5G
//! (`security5g`, `nas_security5g`) slots; the MME and the AMF each drive a
//! `World` of their own, so only one kind is ever filled.

use vstd::prelude::*;

use crate::ecs::components::{
    all_zero, AuthState, IdentityComponent, Nas5gsAkaContext, SecurityContext, TunnelComponent,
};
use crate::proto::nas::security::NasSecurityContext;
use crate::proto::nas5gs::security::Nas5gsSecurityContext;

verus! {

pub type EntityId = u32;

/// The subscriber store.
pub struct World {
    next_id: u32,
    free_ids: Vec<u32>,
    live_count: usize,
    live: Vec<bool>,
    identity: Vec<IdentityComponent>,
    auth: Vec<AuthState>,
    security: Vec<SecurityContext>,
    nas_security: Vec<Option<NasSecurityContext>>,
    tunnel: Vec<Option<TunnelComponent>>,
    security5g: Vec<Nas5gsAkaContext>,
    nas_security5g: Vec<Option<Nas5gsSecurityContext>>,
}

/// What a `World` holds: the id counter, the free list, and per slot its
/// liveness and components.
pub struct EcsView {
    pub next_id: u32,
    pub free_ids: Seq<u32>,
    pub live: Seq<bool>,
    pub identity: Seq<IdentityComponent>,
    pub auth: Seq<AuthState>,
    pub security: Seq<SecurityContext>,
    pub nas_security: Seq<Option<NasSecurityContext>>,
    pub tunnel: Seq<Option<TunnelComponent>>,
    pub security5g: Seq<Nas5gsAkaContext>,
    pub nas_security5g: Seq<Option<Nas5gsSecurityContext>>,
}

impl View for World {
    type V = EcsView;

    closed spec fn view(&self) -> EcsView {
        EcsView {
            next_id: self.next_id,
            free_ids: self.free_ids@,
            live: self.live@,
            identity: self.identity@,
            auth: self.auth@,
            security: self.security@,
            nas_security: self.nas_security@,
            tunnel: self.tunnel@,
            security5g: self.security5g@,
            nas_security5g: self.nas_security5g@,
        }
    }
}

/// `id` names a live entity.
pub open spec fn live_at(v: EcsView, id: u32) -> bool {
    id < v.live.len() && v.live[id as int]
}

/// Slot `i` holds the values of a fresh entity: zero identity,
/// unauthenticated, empty AKA material, no NAS security, no tunnel.
pub open spec fn fresh_slot(v: EcsView, i: int) -> bool {
    &&& v.identity[i].imsi == 0
    &&& v.identity[i].enb_ue_s1ap_id == 0
    &&& all_zero(v.identity[i].ue_ip@, 4)
    &&& v.auth[i] == AuthState::Unauthenticated
    &&& v.security[i].is_empty()
    &&& v.nas_security[i] is None
    &&& v.tunnel[i] is None
    &&& v.security5g[i].is_empty()
    &&& v.nas_security5g[i] is None
}

/// Number of `true` entries.
pub open spec fn count_true(s: Seq<bool>) -> nat
    decreases s.len(),
{
    if s.len() == 0 {
        0
    } else {
        count_true(s.drop_last()) + if s.last() {
            1nat
        } else {
            0nat
        }
    }
}

/// Number of live entities in the Authenticated state among the first `n` slots.
pub open spec fn count_authenticated(live: Seq<bool>, auth: Seq<AuthState>, n: int) -> nat
    decreases n,
{
    if n <= 0 {
        0
    } else {
        count_authenticated(live, auth, n - 1) + if live[n - 1] && auth[n - 1] == AuthState::Authenticated {
            1nat
        } else {
            0nat
        }
    }
}

/// `new` differs from `old` only in the slot components, which are the
/// old ones with a fresh slot appended.
pub open spec fn grown_by_fresh_slot(old: EcsView, new: EcsView) -> bool {
    let n = old.live.len() as int;
    &&& new.live == old.live.push(true)
    &&& new.identity == old.identity.push(new.identity[n])
    &&& new.auth == old.auth.push(new.auth[n])
    &&& new.security == old.security.push(new.security[n])
    &&& new.nas_security == old.nas_security.push(new.nas_security[n])
    &&& new.tunnel == old.tunnel.push(new.tunnel[n])
    &&& new.security5g == old.security5g.push(new.security5g[n])
    &&& new.nas_security5g == old.nas_security5g.push(new.nas_security5g[n])
    &&& fresh_slot(new, n)
}

/// What `spawn` does: reuse the most recently freed id, marking it live
/// (its slot is fresh already), else grow a fresh slot under the counter.
pub open spec fn spawn_post(old: EcsView, new: EcsView, id: u32) -> bool {
    if old.free_ids.len() > 0 {
        id == old.free_ids.last() && new == EcsView {
            free_ids: old.free_ids.drop_last(),
            live: old.live.update(id as int, true),
            ..old
        }
    } else {
        &&& id == old.next_id
        &&& new.next_id == old.next_id + 1
        &&& new.free_ids == old.free_ids
        &&& grown_by_fresh_slot(old, new)
    }
}

/// `new` is `old` with slot `i` reset to a fresh, dead slot.
pub open spec fn slot_reset(old: EcsView, new: EcsView, i: int) -> bool {
    &&& new.live == old.live.update(i, false)
    &&& new.identity == old.identity.update(i, new.identity[i])
    &&& new.auth == old.auth.update(i, new.auth[i])
    &&& new.security == old.security.update(i, new.security[i])
    &&& new.nas_security == old.nas_security.update(i, new.nas_security[i])
    &&& new.tunnel == old.tunnel.update(i, new.tunnel[i])
    &&& new.security5g == old.security5g.update(i, new.security5g[i])
    &&& new.nas_security5g == old.nas_security5g.update(i, new.nas_security5g[i])
    &&& fresh_slot(new, i)
}

proof fn lemma_count_true_bound(s: Seq<bool>)
    ensures
        count_true(s) <= s.len(),
    decreases s.len(),
{
    if s.len() > 0 {
        lemma_count_true_bound(s.drop_last());
    }
}

proof fn lemma_count_true_push(s: Seq<bool>, b: bool)
    ensures
        count_true(s.push(b)) == count_true(s) + if b {
            1nat
        } else {
            0nat
        },
{
    assert(s.push(b).drop_last() =~= s);
}

proof fn lemma_count_true_update(s: Seq<bool>, i: int, b: bool)
    requires
        0 <= i < s.len(),
    ensures
        count_true(s.update(i, b)) + (if s[i] {
            1int
        } else {
            0int
        }) == count_true(s) + (if b {
            1int
        } else {
            0int
        }),
    decreases s.len(),
{
    if i == s.len() - 1 {
        assert(s.update(i, b).drop_last() =~= s.drop_last());
    } else {
        lemma_count_true_update(s.drop_last(), i, b);
        assert(s.update(i, b).drop_last() =~= s.drop_last().update(i, b));
    }
}

impl World {
    /// The store's internal invariant: all columns as long as the slot
    /// count, which is the id counter; `live_count` counts the live slots;
    /// the free list holds distinct dead ids; every dead slot is fresh.
    pub closed spec fn wf(&self) -> bool {
        let v = self@;
        let n = v.live.len();
        &&& v.identity.len() == n
        &&& v.auth.len() == n
        &&& v.security.len() == n
        &&& v.nas_security.len() == n
        &&& v.tunnel.len() == n
        &&& v.security5g.len() == n
        &&& v.nas_security5g.len() == n
        &&& n == v.next_id
        &&& self.live_count == count_true(v.live)
        &&& forall|j: int| 0 <= j < v.free_ids.len() ==> #[trigger] v.free_ids[j] < n && !v.live[v.free_ids[j] as int]
        &&& forall|j: int, k: int| 0 <= j < k < v.free_ids.len() ==> v.free_ids[j] != v.free_ids[k]
        &&& forall|i: int| 0 <= i < n && !#[trigger] v.live[i] ==> fresh_slot(v, i)
    }

    /// There is an id to hand out: a freed one, or room under the counter.
    pub open spec fn can_spawn(&self) -> bool {
        self@.free_ids.len() > 0 || self@.next_id < u32::MAX
    }

    /// An empty store; `capacity` is a hint for how many slots to reserve.
    pub fn with_capacity(capacity: usize) -> (w: Self)
        ensures
            w.wf(),
            w@.next_id == 0,
            w@.free_ids.len() == 0,
            w@.live.len() == 0,
    {
        let w = World {
            next_id: 0,
            free_ids: Vec::new(),
            live_count: 0,
            live: Vec::with_capacity(capacity),
            identity: Vec::with_capacity(capacity),
            auth: Vec::with_capacity(capacity),
            security: Vec::with_capacity(capacity),
            nas_security: Vec::with_capacity(capacity),
            tunnel: Vec::with_capacity(capacity),
            security5g: Vec::with_capacity(capacity),
            nas_security5g: Vec::with_capacity(capacity),
        };
        w
    }

    /// An empty store with room for 1024 entities.
    pub fn new() -> (w: Self)
        ensures
            w.wf(),
            w@.next_id == 0,
            w@.free_ids.len() == 0,
            w@.live.len() == 0,
    {
        World::with_capacity(1024)
    }

    /// A live entity with fresh components.
    pub fn spawn(&mut self) -> (id: EntityId)
        requires
            old(self).wf(),
            old(self).can_spawn(),
        ensures
            final(self).wf(),
            spawn_post(old(self)@, final(self)@, id),
            live_at(final(self)@, id),
            fresh_slot(final(self)@, id as int),
    {
        proof {
            lemma_count_true_bound(self.live@);
        }
        let ghost old_v = self@;
        match self.free_ids.pop() {
            Some(id) => {
                proof {
                    assert(old_v.free_ids[old_v.free_ids.len() - 1] == id);
                    lemma_count_true_update(self.live@, id as int, true);
                }
                self.live.set(id as usize, true);
                proof {
                    lemma_count_true_bound(self.live@);
                    assert(self.live@.len() <= u32::MAX);
                }
                self.live_count = self.live_count + 1;
                proof {
                    assert forall|j: int| 0 <= j < self@.free_ids.len() implies #[trigger] self@.free_ids[j] < self@.live.len()
                        && !self@.live[self@.free_ids[j] as int] by {
                        assert(old_v.free_ids[j] == self@.free_ids[j]);
                        assert(old_v.free_ids[j] != old_v.free_ids[old_v.free_ids.len() - 1]);
                    }
                    assert(self@ == EcsView { free_ids: old_v.free_ids.drop_last(), live: old_v.live.update(id as int, true), ..old_v });
                }
                id
            },
            None => {
                let id = self.next_id;
                self.next_id = self.next_id + 1;
                self.live.push(true);
                self.identity.push(IdentityComponent::empty());
                self.auth.push(AuthState::Unauthenticated);
                self.security.push(SecurityContext::new_empty());
                self.nas_security.push(None);
                self.tunnel.push(None);
                self.security5g.push(Nas5gsAkaContext::new_empty());
                self.nas_security5g.push(None);
                proof {
                    lemma_count_true_push(old_v.live, true);
                    assert(self.live_count as int <= old_v.live.len());
                    assert(old_v.live.len() < u32::MAX);
                }
                self.live_count = self.live_count + 1;
                proof {
                    assert(grown_by_fresh_slot(old_v, self@));
                }
                id
            },
        }
    }

    /// Reset `id`'s slot and free the id; nothing for an id that is not live.
    pub fn despawn(&mut self, id: EntityId)
        requires
            old(self).wf(),
        ensures
            final(self).wf(),
            live_at(old(self)@, id) ==> final(self)@.next_id == old(self)@.next_id && final(self)@.free_ids == old(
                self,
            )@.free_ids.push(id) && slot_reset(old(self)@, final(self)@, id as int),
            !live_at(old(self)@, id) ==> final(self)@ == old(self)@,
    {
        if !self.is_live(id) {
            return;
        }
        let ghost old_v = self@;
        let idx = id as usize;
        proof {
            lemma_count_true_update(self.live@, id as int, false);
        }
        self.live.set(idx, false);
        self.identity.set(idx, IdentityComponent::empty());
        self.auth.set(idx, AuthState::Unauthenticated);
        self.security.set(idx, SecurityContext::new_empty());
        self.nas_security.set(idx, None);
        self.tunnel.set(idx, None);
        self.security5g.set(idx, Nas5gsAkaContext::new_empty());
        self.nas_security5g.set(idx, None);
        self.free_ids.push(id);
        self.live_count = self.live_count - 1;
        proof {
            assert(slot_reset(old_v, self@, id as int));
            assert forall|j: int| 0 <= j < self@.free_ids.len() implies #[trigger] self@.free_ids[j] < self@.live.len()
                && !self@.live[self@.free_ids[j] as int] by {
                if j < old_v.free_ids.len() {
                    assert(old_v.free_ids[j] == self@.free_ids[j]);
                    assert(old_v.free_ids[j] != id);
                }
            }
            assert forall|i: int| 0 <= i < self@.live.len() && !#[trigger] self@.live[i] implies fresh_slot(self@, i) by {
                if i != id as int {
                    assert(!old_v.live[i]);
                }
            }
            assert forall|j: int, k: int| 0 <= j < k < self@.free_ids.len() implies self@.free_ids[j] != self@.free_ids[k] by {
                if k == self@.free_ids.len() - 1 {
                    assert(old_v.free_ids[j] == self@.free_ids[j]);
                    assert(!old_v.live[old_v.free_ids[j] as int]);
                } else {
                    assert(old_v.free_ids[j] == self@.free_ids[j]);
                    assert(old_v.free_ids[k] == self@.free_ids[k]);
                }
            }
        }
    }

    /// `id` names a live entity.
    pub fn is_live(&self, id: EntityId) -> (b: bool)
        requires
            self.wf(),
        ensures
            b == live_at(self@, id),
    {
        (id as usize) < self.live.len() && self.live[id as usize]
    }

    pub fn insert_identity(&mut self, id: EntityId, identity: IdentityComponent)
        requires
            old(self).wf(),
        ensures
            final(self).wf(),
            final(self)@ == (if live_at(old(self)@, id) {
                EcsView { identity: old(self)@.identity.update(id as int, identity), ..old(self)@ }
            } else {
                old(self)@
            }),
    {
        if self.is_live(id) {
            self.identity.set(id as usize, identity);
        }
    }

    pub fn identity(&self, id: EntityId) -> (r: Option<&IdentityComponent>)
        requires
            self.wf(),
        ensures
            match r {
                Some(c) => live_at(self@, id) && *c == self@.identity[id as int],
                None => !live_at(self@, id),
            },
    {
        if self.is_live(id) {
            Some(&self.identity[id as usize])
        } else {
            None
        }
    }

    pub fn auth_state(&self, id: EntityId) -> (r: Option<AuthState>)
        requires
            self.wf(),
        ensures
            r == (if live_at(self@, id) { Some(self@.auth[id as int]) } else { None::<AuthState> }),
    {
        if self.is_live(id) {
            Some(self.auth[id as usize])
        } else {
            None
        }
    }

    pub fn set_auth_state(&mut self, id: EntityId, state: AuthState)
        requires
            old(self).wf(),
        ensures
            final(self).wf(),
            final(self)@ == (if live_at(old(self)@, id) {
                EcsView { auth: old(self)@.auth.update(id as int, state), ..old(self)@ }
            } else {
                old(self)@
            }),
    {
        if self.is_live(id) {
            self.auth.set(id as usize, state);
        }
    }

    /// `id` is live and authenticated.
    pub fn is_authenticated(&self, id: EntityId) -> (b: bool)
        requires
            self.wf(),
        ensures
            b == (live_at(self@, id) && self@.auth[id as int] == AuthState::Authenticated),
    {
        match self.auth_state(id) {
            Some(AuthState::Authenticated) => true,
            _ => false,
        }
    }

    /// Number of live, authenticated entities.
    pub fn authenticated_count(&self) -> (n: usize)
        requires
            self.wf(),
        ensures
            n == count_authenticated(self@.live, self@.auth, self@.live.len() as int),
    {
        let mut n: usize = 0;
        let mut i: usize = 0;
        while i < self.live.len()
            invariant
                self.wf(),
                i <= self@.live.len(),
                n == count_authenticated(self@.live, self@.auth, i as int),
                n <= i,
            decreases self@.live.len() - i,
        {
            if self.live[i] && self.auth[i] == AuthState::Authenticated {
                n = n + 1;
            }
            i = i + 1;
        }
        n
    }

    // ── EPS security ─────────────────────────────────────────────────────────

    pub fn insert_security(&mut self, id: EntityId, security: SecurityContext)
        requires
            old(self).wf(),
        ensures
            final(self).wf(),
            final(self)@ == (if live_at(old(self)@, id) {
                EcsView { security: old(self)@.security.update(id as int, security), ..old(self)@ }
            } else {
                old(self)@
            }),
    {
        if self.is_live(id) {
            self.security.set(id as usize, security);
        }
    }

    pub fn security(&self, id: EntityId) -> (r: Option<&SecurityContext>)
        requires
            self.wf(),
        ensures
            match r {
                Some(c) => live_at(self@, id) && *c == self@.security[id as int],
                None => !live_at(self@, id),
            },
    {
        if self.is_live(id) {
            Some(&self.security[id as usize])
        } else {
            None
        }
    }

    pub fn security_mut(&mut self, id: EntityId) -> (r: Option<&mut SecurityContext>)
        requires
            old(self).wf(),
        ensures
            match r {
                Some(c) => live_at(old(self)@, id) && *c == old(self)@.security[id as int] && final(self)@ == (EcsView {
                    security: old(self)@.security.update(id as int, *final(c)),
                    ..old(self)@
                }),
                None => !live_at(old(self)@, id) && final(self)@ == old(self)@,
            },
    {
        if self.is_live(id) {
            Some(&mut self.security[id as usize])
        } else {
            None
        }
    }

    pub fn set_nas_security(&mut self, id: EntityId, ctx: NasSecurityContext)
        requires
            old(self).wf(),
        ensures
            final(self).wf(),
            final(self)@ == (if live_at(old(self)@, id) {
                EcsView { nas_security: old(self)@.nas_security.update(id as int, Some(ctx)), ..old(self)@ }
            } else {
                old(self)@
            }),
    {
        if self.is_live(id) {
            self.nas_security.set(id as usize, Some(ctx));
        }
    }

    pub fn nas_security(&self, id: EntityId) -> (r: Option<&NasSecurityContext>)
        requires
            self.wf(),
        ensures
            match r {
                Some(c) => live_at(self@, id) && self@.nas_security[id as int] == Some(*c),
                None => !live_at(self@, id) || self@.nas_security[id as int] is None,
            },
    {
        if self.is_live(id) {
            match &self.nas_security[id as usize] {
                Some(c) => Some(c),
                None => None,
            }
        } else {
            None
        }
    }

    pub fn nas_security_mut(&mut self, id: EntityId) -> (r: Option<&mut NasSecurityContext>)
        requires
            old(self).wf(),
        ensures
            match r {
                Some(c) => live_at(old(self)@, id) && old(self)@.nas_security[id as int] == Some(*c) && final(self)@ == (EcsView {
                    nas_security: old(self)@.nas_security.update(id as int, Some(*final(c))),
                    ..old(self)@
                }),
                None => (!live_at(old(self)@, id) || old(self)@.nas_security[id as int] is None) && final(self)@ == old(self)@,
            },
    {
        if self.is_live(id) && self.nas_security[id as usize].is_some() {
            self.nas_security[id as usize].as_mut()
        } else {
            None
        }
    }

    // ── 5G security ──────────────────────────────────────────────────────────

    pub fn insert_security5g(&mut self, id: EntityId, security: Nas5gsAkaContext)
        requires
            old(self).wf(),
        ensures
            final(self).wf(),
            final(self)@ == (if live_at(old(self)@, id) {
                EcsView { security5g: old(self)@.security5g.update(id as int, security), ..old(self)@ }
            } else {
                old(self)@
            }),
    {
        if self.is_live(id) {
            self.security5g.set(id as usize, security);
        }
    }

    pub fn security5g(&self, id: EntityId) -> (r: Option<&Nas5gsAkaContext>)
        requires
            self.wf(),
        ensures
            match r {
                Some(c) => live_at(self@, id) && *c == self@.security5g[id as int],
                None => !live_at(self@, id),
            },
    {
        if self.is_live(id) {
            Some(&self.security5g[id as usize])
        } else {
            None
        }
    }

    pub fn security5g_mut(&mut self, id: EntityId) -> (r: Option<&mut Nas5gsAkaContext>)
        requires
            old(self).wf(),
        ensures
            match r {
                Some(c) => live_at(old(self)@, id) && *c == old(self)@.security5g[id as int] && final(self)@ == (EcsView {
                    security5g: old(self)@.security5g.update(id as int, *final(c)),
                    ..old(self)@
                }),
                None => !live_at(old(self)@, id) && final(self)@ == old(self)@,
            },
    {
        if self.is_live(id) {
            Some(&mut self.security5g[id as usize])
        } else {
            None
        }
    }

    pub fn set_nas_security5g(&mut self, id: EntityId, ctx: Nas5gsSecurityContext)
        requires
            old(self).wf(),
        ensures
            final(self).wf(),
            final(self)@ == (if live_at(old(self)@, id) {
                EcsView { nas_security5g: old(self)@.nas_security5g.update(id as int, Some(ctx)), ..old(self)@ }
            } else {
                old(self)@
            }),
    {
        if self.is_live(id) {
            self.nas_security5g.set(id as usize, Some(ctx));
        }
    }

    pub fn nas_security5g(&self, id: EntityId) -> (r: Option<&Nas5gsSecurityContext>)
        requires
            self.wf(),
        ensures
            match r {
                Some(c) => live_at(self@, id) && self@.nas_security5g[id as int] == Some(*c),
                None => !live_at(self@, id) || self@.nas_security5g[id as int] is None,
            },
    {
        if self.is_live(id) {
            match &self.nas_security5g[id as usize] {
                Some(c) => Some(c),
                None => None,
            }
        } else {
            None
        }
    }

    pub fn nas_security5g_mut(&mut self, id: EntityId) -> (r: Option<&mut Nas5gsSecurityContext>)
        requires
            old(self).wf(),
        ensures
            match r {
                Some(c) => live_at(old(self)@, id) && old(self)@.nas_security5g[id as int] == Some(*c) && final(self)@ == (EcsView {
                    nas_security5g: old(self)@.nas_security5g.update(id as int, Some(*final(c))),
                    ..old(self)@
                }),
                None => (!live_at(old(self)@, id) || old(self)@.nas_security5g[id as int] is None) && final(self)@ == old(self)@,
            },
    {
        if self.is_live(id) && self.nas_security5g[id as usize].is_some() {
            self.nas_security5g[id as usize].as_mut()
        } else {
            None
        }
    }

    // ── Tunnel ───────────────────────────────────────────────────────────────

    pub fn set_tunnel(&mut self, id: EntityId, tunnel: TunnelComponent)
        requires
            old(self).wf(),
        ensures
            final(self).wf(),
            final(self)@ == (if live_at(old(self)@, id) {
                EcsView { tunnel: old(self)@.tunnel.update(id as int, Some(tunnel)), ..old(self)@ }
            } else {
                old(self)@
            }),
    {
        if self.is_live(id) {
            self.tunnel.set(id as usize, Some(tunnel));
        }
    }

    pub fn tunnel(&self, id: EntityId) -> (r: Option<&TunnelComponent>)
        requires
            self.wf(),
        ensures
            match r {
                Some(c) => live_at(self@, id) && self@.tunnel[id as int] == Some(*c),
                None => !live_at(self@, id) || self@.tunnel[id as int] is None,
            },
    {
        if self.is_live(id) {
            match &self.tunnel[id as usize] {
                Some(c) => Some(c),
                None => None,
            }
        } else {
            None
        }
    }

    pub fn tunnel_mut(&mut self, id: EntityId) -> (r: Option<&mut TunnelComponent>)
        requires
            old(self).wf(),
        ensures
            match r {
                Some(c) => live_at(old(self)@, id) && old(self)@.tunnel[id as int] == Some(*c) && final(self)@ == (EcsView {
                    tunnel: old(self)@.tunnel.update(id as int, Some(*final(c))),
                    ..old(self)@
                }),
                None => (!live_at(old(self)@, id) || old(self)@.tunnel[id as int] is None) && final(self)@ == old(self)@,
            },
    {
        if self.is_live(id) && self.tunnel[id as usize].is_some() {
            self.tunnel[id as usize].as_mut()
        } else {
            None
        }
    }

    /// Number of live entities.
    pub fn subscriber_count(&self) -> (n: usize)
        requires
            self.wf(),
        ensures
            n == count_true(self@.live),
    {
        self.live_count
    }
}

impl Default for World {
    fn default() -> (w: Self)
        ensures
            w.wf(),
            w@.next_id == 0,
            w@.free_ids.len() == 0,
            w@.live.len() == 0,
    {
        World::new()
    }
}

/// A despawned id is the next one spawned, and it comes back live with
/// fresh components: nothing of the previous subscriber survives.
pub proof fn law_despawned_id_comes_back_fresh(v0: EcsView, v1: EcsView, v2: EcsView, id: u32, id2: u32)
    requires
        live_at(v0, id),
        v1.free_ids == v0.free_ids.push(id),
        v1.next_id == v0.next_id,
        slot_reset(v0, v1, id as int),
        spawn_post(v1, v2, id2),
    ensures
        id2 == id,
        live_at(v2, id),
        fresh_slot(v2, id as int),
{
    assert(v1.free_ids.last() == id);
}

} // verus!
