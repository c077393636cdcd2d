//! MME state: the per-UE component store (`World`), the IMSI registry, the
//! uplink TEID allocator, and the `Mme` entry point `process_s1ap`.

use std::collections::HashMap;

use vstd::prelude::*;

use crate::hss::{Hss, SubscriberEntry};
use crate::hss::{vector_for, HssAuthInfo};
use crate::mme::attach::{
    attach_accept_plain, attach_outcome, attach_request_imsi, fresh_nas_context, is_downlink, is_icsr, kasme_of,
    protected_with, auth_response_outcome, handle_attach_complete, handle_auth_response, handle_security_mode_complete,
    sec_mode_complete_outcome, start_attach, start_attach_outcome, law_attach_answer_is_accepted_by_the_ue,
    ue_accepts_auth_request,
};
use crate::mme::detach::{detach_outcome, handle_detach_request};
use crate::proto::nas::codec::{decode_nas, decode_nas_spec, decode_protected, is_protected_envelope, NasPdu, NasView};
use crate::proto::nas::security::{unprotect_uplink_post, NasSecurityContext, NAS_BEARER};
use crate::proto::s1ap::messages::{InitialContextSetupResponse, S1apMessage, UeContextReleaseComplete};
use crate::proto::wire::{be32, read_be32};

verus! {

broadcast use vstd::std_specs::hash::group_hash_axioms;

/// Entity ids are `u32`.
pub type EntityId = u32;

/// Calls `HashMap::get_mut`.
/// Trusted: per its documentation, a mutable reference to the value under
/// `k` when present (what is written through it is what the map then
/// holds), else `None` with the map unchanged.
#[verifier::external_body]
pub(crate) fn map_get_mut<'a, V>(m: &'a mut HashMap<u32, V>, k: u32) -> (r: Option<&'a mut V>)
    ensures
        match r {
            Some(v) => old(m)@.contains_key(k) && *v == old(m)@[k] && final(m)@ == old(m)@.insert(k, *final(v)),
            None => !old(m)@.contains_key(k) && final(m)@ == old(m)@,
        },
{
    m.get_mut(&k)
}

// ── Components ───────────────────────────────────────────────────────────────

/// Per-UE attach state.
#[derive(Clone, Copy)]
pub struct AttachContext {
    pub imsi: u64,
    pub enb_ue_s1ap_id: u32,
    pub mme_ue_s1ap_id: u32,
    pub rand: [u8; 16],
    pub xres: [u8; 8],
    pub ck: [u8; 16],
    pub ik: [u8; 16],
    /// Milenage f5 output; SQN ⊕ AK is a Kasme input.
    pub ak: [u8; 6],
    /// Serving network PLMN, taken from the S1AP TAI.
    pub plmn: [u8; 3],
    pub sqn_used: [u8; 6],
    pub ue_ip: [u8; 4],
    pub ul_teid: Option<u32>,
    /// NAS security, once Security Mode Complete has activated it.
    pub nas_security: Option<NasSecurityContext>,
}

/// Session state of an attached UE.
#[derive(Clone, Copy, Debug)]
pub struct SessionState {
    pub imsi: u64,
    pub ul_teid: u32,
}

/// GTP-U tunnel endpoints of an attached UE.
#[derive(Clone, Copy, Debug)]
pub struct TunnelComponent {
    pub ul_teid: u32,
    pub dl_teid: u32,
    pub enb_addr: [u8; 4],
}

// ── World ────────────────────────────────────────────────────────────────────

/// Entity ids with their components; freed ids are reused, most recently
/// freed first.
pub struct World {
    next_id: u32,
    free_ids: Vec<u32>,
    attach_contexts: HashMap<u32, AttachContext>,
    session_states: HashMap<u32, SessionState>,
    pub tunnels: HashMap<u32, TunnelComponent>,
}

/// What a `World` holds.
pub struct WorldView {
    pub next_id: u32,
    pub free_ids: Seq<u32>,
    pub contexts: Map<u32, AttachContext>,
    pub sessions: Map<u32, SessionState>,
    pub tunnels: Map<u32, TunnelComponent>,
}

impl View for World {
    type V = WorldView;

    closed spec fn view(&self) -> WorldView {
        WorldView {
            next_id: self.next_id,
            free_ids: self.free_ids@,
            contexts: self.attach_contexts@,
            sessions: self.session_states@,
            tunnels: self.tunnels@,
        }
    }
}

/// The id `spawn` hands out and the world after it: the most recently
/// freed id, else the counter (which then advances, wrapping).
pub open spec fn spawn_result(w: WorldView) -> (u32, WorldView) {
    if w.free_ids.len() > 0 {
        (w.free_ids.last(), WorldView { free_ids: w.free_ids.drop_last(), ..w })
    } else {
        (w.next_id, WorldView { next_id: ((w.next_id as int + 1) % 0x1_0000_0000) as u32, ..w })
    }
}

impl World {
    /// What a new `World` holds.
    pub open spec fn new_view() -> WorldView {
        WorldView {
            next_id: 0,
            free_ids: Seq::empty(),
            contexts: Map::empty(),
            sessions: Map::empty(),
            tunnels: Map::empty(),
        }
    }

    pub fn new() -> (w: Self)
        ensures
            w@.next_id == 0,
            w@.free_ids == Seq::<u32>::empty(),
            w@.contexts == Map::<u32, AttachContext>::empty(),
            w@.sessions == Map::<u32, SessionState>::empty(),
            w@.tunnels == Map::<u32, TunnelComponent>::empty(),
    {
        World {
            next_id: 0,
            free_ids: Vec::new(),
            attach_contexts: HashMap::new(),
            session_states: HashMap::new(),
            tunnels: HashMap::new(),
        }
    }

    /// A new entity id.
    pub fn spawn(&mut self) -> (id: u32)
        ensures
            (id, final(self)@) == spawn_result(old(self)@),
    {
        match self.free_ids.pop() {
            Some(id) => id,
            None => {
                let id = self.next_id;
                self.next_id = self.next_id.wrapping_add(1);
                id
            },
        }
    }

    /// Drop every component of `entity` and free its id.
    pub fn despawn(&mut self, entity: u32)
        ensures
            final(self)@ == (WorldView {
                free_ids: old(self)@.free_ids.push(entity),
                contexts: old(self)@.contexts.remove(entity),
                sessions: old(self)@.sessions.remove(entity),
                tunnels: old(self)@.tunnels.remove(entity),
                ..old(self)@
            }),
    {
        self.attach_contexts.remove(&entity);
        self.session_states.remove(&entity);
        self.tunnels.remove(&entity);
        self.free_ids.push(entity);
    }

    pub fn insert_attach_context(&mut self, entity: u32, ctx: AttachContext)
        ensures
            final(self)@ == (WorldView { contexts: old(self)@.contexts.insert(entity, ctx), ..old(self)@ }),
    {
        self.attach_contexts.insert(entity, ctx);
    }

    pub fn get_attach_context(&self, entity: u32) -> (r: Option<AttachContext>)
        ensures
            r == (if self@.contexts.contains_key(entity) { Some(self@.contexts[entity]) } else { None::<AttachContext> }),
    {
        match self.attach_contexts.get(&entity) {
            Some(c) => Some(*c),
            None => None,
        }
    }

    /// The attach context of `entity`, to change in place.
    pub fn get_attach_context_mut(&mut self, entity: u32) -> (r: Option<&mut AttachContext>)
        ensures
            match r {
                Some(c) => old(self)@.contexts.contains_key(entity) && *c == old(self)@.contexts[entity] && final(self)@
                    == (WorldView { contexts: old(self)@.contexts.insert(entity, *final(c)), ..old(self)@ }),
                None => !old(self)@.contexts.contains_key(entity) && final(self)@ == old(self)@,
            },
    {
        map_get_mut(&mut self.attach_contexts, entity)
    }

    pub fn insert_session_state(&mut self, entity: u32, s: SessionState)
        ensures
            final(self)@ == (WorldView { sessions: old(self)@.sessions.insert(entity, s), ..old(self)@ }),
    {
        self.session_states.insert(entity, s);
    }

    pub fn insert_tunnel(&mut self, entity: u32, t: TunnelComponent)
        ensures
            final(self)@ == (WorldView { tunnels: old(self)@.tunnels.insert(entity, t), ..old(self)@ }),
    {
        self.tunnels.insert(entity, t);
    }

    /// The tunnel of `entity`, to change in place.
    pub fn get_tunnel_mut(&mut self, entity: u32) -> (r: Option<&mut TunnelComponent>)
        ensures
            match r {
                Some(t) => old(self)@.tunnels.contains_key(entity) && *t == old(self)@.tunnels[entity] && final(self)@
                    == (WorldView { tunnels: old(self)@.tunnels.insert(entity, *final(t)), ..old(self)@ }),
                None => !old(self)@.tunnels.contains_key(entity) && final(self)@ == old(self)@,
            },
    {
        map_get_mut(&mut self.tunnels, entity)
    }

    /// The tunnel of `entity`.
    pub fn get_tunnel(&self, entity: u32) -> (r: Option<TunnelComponent>)
        ensures
            r == (if self@.tunnels.contains_key(entity) { Some(self@.tunnels[entity]) } else { None::<TunnelComponent> }),
    {
        match self.tunnels.get(&entity) {
            Some(t) => Some(*t),
            None => None,
        }
    }

    /// Number of entities with an attach context.
    pub fn subscriber_count(&self) -> (n: usize)
        ensures
            n == self@.contexts.len(),
    {
        self.attach_contexts.len()
    }
}

impl Default for World {
    fn default() -> (w: Self)
        ensures
            w@.next_id == 0,
            w@.free_ids == Seq::<u32>::empty(),
            w@.contexts == Map::<u32, AttachContext>::empty(),
            w@.sessions == Map::<u32, SessionState>::empty(),
            w@.tunnels == Map::<u32, TunnelComponent>::empty(),
    {
        World::new()
    }
}

// ── IMSI registry ────────────────────────────────────────────────────────────

/// IMSI to entity id.
pub struct ImsiRegistry {
    map: HashMap<u64, u32>,
}

impl View for ImsiRegistry {
    type V = Map<u64, u32>;

    closed spec fn view(&self) -> Map<u64, u32> {
        self.map@
    }
}

impl ImsiRegistry {
    pub fn new() -> (r: Self)
        ensures
            r@ == Map::<u64, u32>::empty(),
    {
        ImsiRegistry { map: HashMap::new() }
    }

    pub fn register(&mut self, imsi: u64, entity: u32)
        ensures
            final(self)@ == old(self)@.insert(imsi, entity),
    {
        self.map.insert(imsi, entity);
    }

    pub fn deregister(&mut self, imsi: u64)
        ensures
            final(self)@ == old(self)@.remove(imsi),
    {
        self.map.remove(&imsi);
    }

    pub fn lookup(&self, imsi: u64) -> (r: Option<u32>)
        ensures
            r == (if self@.contains_key(imsi) { Some(self@[imsi]) } else { None::<u32> }),
    {
        match self.map.get(&imsi) {
            Some(e) => Some(*e),
            None => None,
        }
    }
}

impl Default for ImsiRegistry {
    fn default() -> (r: Self)
        ensures
            r@ == Map::<u64, u32>::empty(),
    {
        ImsiRegistry::new()
    }
}

// ── TEID allocator ───────────────────────────────────────────────────────────

/// Uplink TEIDs: freed ones are reused (most recently freed first), else
/// a counter advances.
#[derive(Debug)]
pub struct TeidAllocator {
    next: u32,
    free: Vec<u32>,
}

/// What a `TeidAllocator` holds.
pub struct TeidView {
    pub next: u32,
    pub free: Seq<u32>,
}

impl View for TeidAllocator {
    type V = TeidView;

    closed spec fn view(&self) -> TeidView {
        TeidView { next: self.next, free: self.free@ }
    }
}

/// The TEID `alloc` hands out and the allocator after it.
pub open spec fn alloc_result(t: TeidView) -> (u32, TeidView) {
    if t.free.len() > 0 {
        (t.free.last(), TeidView { free: t.free.drop_last(), ..t })
    } else {
        (t.next, TeidView { next: ((t.next as int + 1) % 0x1_0000_0000) as u32, ..t })
    }
}

/// The first TEID a default allocator hands out.
pub const DEFAULT_TEID_BASE: u32 = 0x0001_0000;

impl TeidAllocator {
    pub fn new(base: u32) -> (a: Self)
        ensures
            a@.next == base,
            a@.free == Seq::<u32>::empty(),
    {
        TeidAllocator { next: base, free: Vec::new() }
    }

    /// Allocate a TEID: a freed one if any, else the counter's.
    pub fn allocate(&mut self) -> (t: u32)
        ensures
            (t, final(self)@) == alloc_result(old(self)@),
    {
        match self.free.pop() {
            Some(id) => id,
            None => {
                let t = self.next;
                self.next = self.next.wrapping_add(1);
                t
            },
        }
    }

    /// Return a TEID to the free list.
    pub fn release(&mut self, teid: u32)
        ensures
            final(self)@ == (TeidView { free: old(self)@.free.push(teid), ..old(self)@ }),
    {
        self.free.push(teid);
    }

    /// Number of TEIDs waiting for reuse.
    pub fn free_count(&self) -> (n: usize)
        ensures
            n == self@.free.len(),
    {
        self.free.len()
    }
}

impl Default for TeidAllocator {
    fn default() -> (a: Self)
        ensures
            a@.next == DEFAULT_TEID_BASE,
            a@.free == Seq::<u32>::empty(),
    {
        TeidAllocator::new(0x0001_0000)
    }
}

/// A released TEID is the next one handed out.
pub proof fn law_released_teid_is_reused(t: TeidView, teid: u32)
    ensures
        alloc_result(TeidView { free: t.free.push(teid), ..t }).0 == teid,
        alloc_result(TeidView { free: t.free.push(teid), ..t }).1 == t,
{
    assert(t.free.push(teid).drop_last() =~= t.free);
}

/// A freed entity id is the next one spawned.
pub proof fn law_despawned_id_is_reused(w: WorldView, entity: u32)
    ensures
        spawn_result(WorldView { free_ids: w.free_ids.push(entity), ..w }).0 == entity,
        spawn_result(WorldView { free_ids: w.free_ids.push(entity), ..w }).1.free_ids == w.free_ids,
{
    assert(w.free_ids.push(entity).drop_last() =~= w.free_ids);
}

// ── UPF events ───────────────────────────────────────────────────────────────

/// What the user plane must do.
#[derive(Debug, Clone, Copy)]
pub enum UpfEvent {
    CreateSession { ul_teid: u32, entity_id: u32, imsi: u64, ue_ip: [u8; 4], enb_addr: [u8; 4], qci: u8 },
    UpdateBearer { ul_teid: u32, dl_teid: u32, enb_addr: [u8; 4] },
    RemoveSession { ul_teid: u32 },
}

// ── Mme ──────────────────────────────────────────────────────────────────────

/// The MME: per-UE state, the IMSI registry, the HSS, the UPF address once
/// phase 3 is on, and the uplink TEID allocator.
///
/// | Mode    | Built by                 | Security Mode Complete answered by |
/// |---------|--------------------------|------------------------------------|
/// | Phase 2 | `Mme::new()`             | DownlinkNASTransport(AttachAccept) |
/// | Phase 3 | `.with_phase3(upf_addr)` | InitialContextSetupRequest         |
pub struct Mme {
    pub world: World,
    pub registry: ImsiRegistry,
    pub hss: Hss,
    pub phase3_upf: Option<[u8; 4]>,
    pub teid_allocator: TeidAllocator,
}

/// Security header type of an uplink NAS PDU: the high nibble of octet 1,
/// 0 for an empty PDU.
pub open spec fn uplink_sht(nas: Seq<u8>) -> u8 {
    if nas.len() == 0 {
        0
    } else {
        (nas[0] >> 4u8) & 0x0F
    }
}

/// The NAS security context of `mme`'s attach context, if there is one.
pub open spec fn nas_security_of(w: WorldView, mme: u32) -> Option<NasSecurityContext> {
    if w.contexts.contains_key(mme) {
        w.contexts[mme].nas_security
    } else {
        None
    }
}

/// Unwrapping the protected uplink PDU `nas` under `sec` leaves `sec2` and
/// gives `r`: the plain message when the envelope's MAC-I verifies.
pub open spec fn unwrapped_with(sec: NasSecurityContext, sec2: NasSecurityContext, nas: Seq<u8>, r: Option<Vec<u8>>) -> bool {
    if is_protected_envelope(nas) {
        unprotect_uplink_post(sec, sec2, NAS_BEARER, nas[5], nas.subrange(1, 5), nas.skip(6), r)
    } else {
        r is None && sec2 == sec
    }
}

/// Nothing changes and nothing is sent.
pub open spec fn quiet(old_w: WorldView, new_w: WorldView, old_t: TeidView, new_t: TeidView, out: (Seq<S1apMessage>, Seq<UpfEvent>)) -> bool {
    new_w == old_w && new_t == old_t && out.0.len() == 0 && out.1.len() == 0
}

/// What a plain uplink NAS PDU leads to: step 2 for an Authentication
/// Response, step 3 for a Security Mode Complete, the detach trigger (and
/// never a UPF event) for a Detach Request; an Attach Complete, any other
/// message and anything undecodable change nothing.
pub open spec fn dispatch_outcome(
    old_w: WorldView,
    new_w: WorldView,
    old_t: TeidView,
    new_t: TeidView,
    upf: Option<[u8; 4]>,
    enb: u32,
    mme: u32,
    plain: Seq<u8>,
    out: (Seq<S1apMessage>, Seq<UpfEvent>),
) -> bool {
    match decode_nas_spec(plain) {
        Ok(NasView::AuthenticationResponse { .. }) => new_w == old_w && new_t == old_t && out.1.len() == 0
            && auth_response_outcome(old_w, enb, mme, plain, out.0),
        Ok(NasView::SecurityModeComplete) => sec_mode_complete_outcome(old_w, new_w, old_t, new_t, enb, mme, upf, out),
        Ok(NasView::DetachRequest { .. }) => new_t == old_t && out.1.len() == 0 && detach_outcome(
            old_w,
            new_w,
            enb,
            mme,
            plain,
            out.0,
        ),
        _ => quiet(old_w, new_w, old_t, new_t, out),
    }
}

/// What an UplinkNASTransport's PDU leads to. A plain PDU (security header
/// type 0) is dispatched as it is. A protected one needs the UE's NAS
/// security context (else nothing happens); it is unwrapped under it, the
/// context keeps its new uplink COUNT, and the plain message is dispatched
/// when the MAC-I verified, nothing more happening when it did not.
pub open spec fn uplink_nas_outcome(
    old_w: WorldView,
    new_w: WorldView,
    old_t: TeidView,
    new_t: TeidView,
    upf: Option<[u8; 4]>,
    enb: u32,
    mme: u32,
    nas: Seq<u8>,
    out: (Seq<S1apMessage>, Seq<UpfEvent>),
) -> bool {
    if uplink_sht(nas) == 0 {
        dispatch_outcome(old_w, new_w, old_t, new_t, upf, enb, mme, nas, out)
    } else {
        match nas_security_of(old_w, mme) {
            None => quiet(old_w, new_w, old_t, new_t, out),
            Some(sec) => exists|sec2: NasSecurityContext, r: Option<Vec<u8>>|
                #[trigger] unwrapped_with(sec, sec2, nas, r) && {
                    let w1 = WorldView {
                        contexts: old_w.contexts.insert(mme, AttachContext { nas_security: Some(sec2), ..old_w.contexts[mme] }),
                        ..old_w
                    };
                    match r {
                        None => quiet(w1, new_w, old_t, new_t, out),
                        Some(p) => dispatch_outcome(w1, new_w, old_t, new_t, upf, enb, mme, p@, out),
                    }
                },
        }
    }
}

/// What an InitialContextSetupResponse leads to: with a set-up E-RAB and a
/// tunnel for the entity, the tunnel takes the eNodeB's downlink TEID and
/// address from the first E-RAB and the UPF is told to update the bearer;
/// otherwise nothing.
pub open spec fn icsrsp_outcome(old_w: WorldView, new_w: WorldView, resp: InitialContextSetupResponse, out: (Seq<S1apMessage>, Seq<UpfEvent>)) -> bool {
    let entity = resp.mme_ue_s1ap_id;
    if resp.e_rabs_setup@.len() == 0 || !old_w.tunnels.contains_key(entity) {
        new_w == old_w && out.0.len() == 0 && out.1.len() == 0
    } else {
        let erab = resp.e_rabs_setup@[0];
        let t = erab.gtp_teid;
        let dl_teid = be32(t[0], t[1], t[2], t[3]);
        let tunnel = old_w.tunnels[entity];
        &&& new_w == WorldView {
            tunnels: old_w.tunnels.insert(
                entity,
                TunnelComponent { dl_teid, enb_addr: erab.transport_layer_addr, ..tunnel },
            ),
            ..old_w
        }
        &&& out.0.len() == 0
        &&& out.1 == seq![UpfEvent::UpdateBearer { ul_teid: tunnel.ul_teid, dl_teid, enb_addr: erab.transport_layer_addr }]
    }
}

/// What a UEContextReleaseComplete leads to — the one teardown path: the
/// entity is despawned, its IMSI deregistered, and when it had a tunnel the
/// uplink TEID goes back to the allocator and the UPF is told to remove the
/// session.
pub open spec fn release_outcome(
    old_w: WorldView,
    new_w: WorldView,
    old_r: Map<u64, u32>,
    new_r: Map<u64, u32>,
    old_t: TeidView,
    new_t: TeidView,
    entity: u32,
    out: (Seq<S1apMessage>, Seq<UpfEvent>),
) -> bool {
    &&& new_w == WorldView {
        free_ids: old_w.free_ids.push(entity),
        contexts: old_w.contexts.remove(entity),
        sessions: old_w.sessions.remove(entity),
        tunnels: old_w.tunnels.remove(entity),
        ..old_w
    }
    &&& new_r == (if old_w.contexts.contains_key(entity) {
        old_r.remove(old_w.contexts[entity].imsi)
    } else {
        old_r
    })
    &&& out.0.len() == 0
    &&& if old_w.tunnels.contains_key(entity) {
        let ul_teid = old_w.tunnels[entity].ul_teid;
        new_t == (TeidView { free: old_t.free.push(ul_teid), ..old_t }) && out.1 == seq![UpfEvent::RemoveSession { ul_teid }]
    } else {
        new_t == old_t && out.1.len() == 0
    }
}

/// What an `Mme` holds.
pub struct MmeView {
    pub world: WorldView,
    pub registry: Map<u64, u32>,
    pub hss: Map<u64, SubscriberEntry>,
    pub phase3_upf: Option<[u8; 4]>,
    pub teids: TeidView,
}

impl View for Mme {
    type V = MmeView;

    open spec fn view(&self) -> MmeView {
        MmeView {
            world: self.world@,
            registry: self.registry@,
            hss: self.hss@,
            phase3_upf: self.phase3_upf,
            teids: self.teid_allocator@,
        }
    }
}

/// What an S1AP message does to the MME and what it answers: an
/// InitialUEMessage starts an attach, an UplinkNASTransport carries the
/// next NAS step, an InitialContextSetupResponse completes the tunnel, a
/// UEContextReleaseComplete tears the UE down; anything else is ignored.
/// The phase never changes.
pub open spec fn s1ap_outcome(old: MmeView, new: MmeView, msg: S1apMessage, out: (Seq<S1apMessage>, Seq<UpfEvent>)) -> bool {
    &&& new.phase3_upf == old.phase3_upf
    &&& match msg {
        S1apMessage::InitialUeMessage(m) => new.teids == old.teids && start_attach_outcome(
            old.hss,
            new.hss,
            old.world,
            new.world,
            old.registry,
            new.registry,
            m.enb_ue_s1ap_id,
            m.nas_pdu@,
            m.tai@.subrange(0, 3),
            out,
        ),
        S1apMessage::UplinkNasTransport(m) => new.registry == old.registry && new.hss == old.hss && uplink_nas_outcome(
            old.world,
            new.world,
            old.teids,
            new.teids,
            old.phase3_upf,
            m.enb_ue_s1ap_id,
            m.mme_ue_s1ap_id,
            m.nas_pdu@,
            out,
        ),
        S1apMessage::InitialContextSetupResponse(m) => new.registry == old.registry && new.hss == old.hss && new.teids
            == old.teids && icsrsp_outcome(old.world, new.world, m, out),
        S1apMessage::UeContextReleaseComplete(m) => new.hss == old.hss && release_outcome(
            old.world,
            new.world,
            old.registry,
            new.registry,
            old.teids,
            new.teids,
            m.mme_ue_s1ap_id,
            out,
        ),
        _ => new.registry == old.registry && new.hss == old.hss && quiet(old.world, new.world, old.teids, new.teids, out),
    }
}

impl Mme {
    /// A phase-2 MME: empty state, no UPF, TEIDs from `DEFAULT_TEID_BASE`.
    pub fn new() -> (m: Self)
        ensures
            m.world@ == World::new_view(),
            m.registry@ == Map::<u64, u32>::empty(),
            m.hss@ == Map::<u64, SubscriberEntry>::empty(),
            m.phase3_upf is None,
            m.teid_allocator@ == (TeidView { next: DEFAULT_TEID_BASE, free: Seq::empty() }),
    {
        Mme {
            world: World::new(),
            registry: ImsiRegistry::new(),
            hss: Hss::new(),
            phase3_upf: None,
            teid_allocator: TeidAllocator::new(0x0001_0000),
        }
    }

    /// The same MME in phase 3, with the UPF at `upf_addr`.
    pub fn with_phase3(self, upf_addr: [u8; 4]) -> (m: Self)
        ensures
            m.phase3_upf == Some(upf_addr),
            m.world@ == self.world@,
            m.registry@ == self.registry@,
            m.hss@ == self.hss@,
            m.teid_allocator@ == self.teid_allocator@,
    {
        let mut m = self;
        m.phase3_upf = Some(upf_addr);
        m
    }

    /// The HSS, to provision subscribers.
    pub fn hss_mut(&mut self) -> (h: &mut Hss)
        ensures
            *h == old(self).hss,
            final(self).hss == *final(h),
            final(self).world == old(self).world,
            final(self).registry == old(self).registry,
            final(self).phase3_upf == old(self).phase3_upf,
            final(self).teid_allocator == old(self).teid_allocator,
    {
        &mut self.hss
    }

    /// An uplink TEID from the allocator.
    pub fn alloc_ul_teid(&mut self) -> (t: u32)
        ensures
            (t, final(self).teid_allocator@) == alloc_result(old(self).teid_allocator@),
            final(self).world == old(self).world,
            final(self).registry == old(self).registry,
            final(self).hss == old(self).hss,
            final(self).phase3_upf == old(self).phase3_upf,
    {
        self.teid_allocator.allocate()
    }

    /// Return a TEID to the allocator once its session is gone.
    pub fn release_ul_teid(&mut self, teid: u32)
        ensures
            final(self).teid_allocator@ == (TeidView { free: old(self).teid_allocator@.free.push(teid), ..old(self).teid_allocator@ }),
            final(self).world == old(self).world,
            final(self).registry == old(self).registry,
            final(self).hss == old(self).hss,
            final(self).phase3_upf == old(self).phase3_upf,
    {
        self.teid_allocator.release(teid);
    }

    /// Number of TEIDs waiting for reuse.
    pub fn free_teid_count(&self) -> (n: usize)
        ensures
            n == self.teid_allocator@.free.len(),
    {
        self.teid_allocator.free_count()
    }

    /// Number of entities with an attach context.
    pub fn subscriber_count(&self) -> (n: usize)
        ensures
            n == self.world@.contexts.len(),
    {
        self.world.subscriber_count()
    }

    /// Handle one S1AP message from an eNodeB; returns the S1AP messages to
    /// send and the events for the user plane.
    pub fn process_s1ap(&mut self, msg: S1apMessage) -> (r: (Vec<S1apMessage>, Vec<UpfEvent>))
        ensures
            s1ap_outcome(old(self)@, final(self)@, msg, (r.0@, r.1@)),
    {
        match msg {
            S1apMessage::InitialUeMessage(m) => start_attach(
                &mut self.world,
                &mut self.registry,
                &mut self.hss,
                m.enb_ue_s1ap_id,
                m.nas_pdu.as_slice(),
                m.tai,
            ),
            S1apMessage::UplinkNasTransport(m) => self.handle_uplink_nas(m.enb_ue_s1ap_id, m.mme_ue_s1ap_id, m.nas_pdu.as_slice()),
            S1apMessage::InitialContextSetupResponse(m) => self.handle_icsrsp(m),
            S1apMessage::UeContextReleaseComplete(m) => self.handle_release_complete(m),
            _ => (Vec::new(), Vec::new()),
        }
    }

    /// An uplink NAS PDU: unwrap it if protected, then dispatch it.
    fn handle_uplink_nas(&mut self, enb_ue_s1ap_id: u32, mme_ue_s1ap_id: u32, nas_pdu: &[u8]) -> (r: (Vec<S1apMessage>, Vec<UpfEvent>))
        ensures
            final(self).phase3_upf == old(self).phase3_upf,
            final(self).registry@ == old(self).registry@,
            final(self).hss@ == old(self).hss@,
            uplink_nas_outcome(
                old(self).world@,
                final(self).world@,
                old(self).teid_allocator@,
                final(self).teid_allocator@,
                old(self).phase3_upf,
                enb_ue_s1ap_id,
                mme_ue_s1ap_id,
                nas_pdu@,
                (r.0@, r.1@),
            ),
    {
        let sht: u8 = if nas_pdu.len() == 0 {
            0
        } else {
            (nas_pdu[0] >> 4u8) & 0x0F
        };
        if sht == 0 {
            return self.dispatch(enb_ue_s1ap_id, mme_ue_s1ap_id, nas_pdu);
        }
        let ctx = match self.world.get_attach_context(mme_ue_s1ap_id) {
            Some(c) => c,
            None => {
                return (Vec::new(), Vec::new());
            },
        };
        let mut sec = match ctx.nas_security {
            Some(s) => s,
            None => {
                return (Vec::new(), Vec::new());
            },
        };
        let ghost sec0 = sec;
        let unwrapped = decode_protected(&mut sec, nas_pdu, NAS_BEARER);
        self.world.insert_attach_context(mme_ue_s1ap_id, AttachContext { nas_security: Some(sec), ..ctx });
        assert(unwrapped_with(sec0, sec, nas_pdu@, unwrapped));
        match unwrapped {
            Some(plain) => self.dispatch(enb_ue_s1ap_id, mme_ue_s1ap_id, plain.as_slice()),
            None => (Vec::new(), Vec::new()),
        }
    }

    /// A plain uplink NAS PDU, by message type.
    fn dispatch(&mut self, enb_ue_s1ap_id: u32, mme_ue_s1ap_id: u32, plain: &[u8]) -> (r: (Vec<S1apMessage>, Vec<UpfEvent>))
        ensures
            final(self).phase3_upf == old(self).phase3_upf,
            final(self).registry@ == old(self).registry@,
            final(self).hss@ == old(self).hss@,
            dispatch_outcome(
                old(self).world@,
                final(self).world@,
                old(self).teid_allocator@,
                final(self).teid_allocator@,
                old(self).phase3_upf,
                enb_ue_s1ap_id,
                mme_ue_s1ap_id,
                plain@,
                (r.0@, r.1@),
            ),
    {
        match decode_nas(plain) {
            Ok(NasPdu::AuthenticationResponse(_)) => handle_auth_response(
                &mut self.world,
                &self.registry,
                enb_ue_s1ap_id,
                mme_ue_s1ap_id,
                plain,
            ),
            Ok(NasPdu::SecurityModeComplete) => handle_security_mode_complete(
                &mut self.world,
                enb_ue_s1ap_id,
                mme_ue_s1ap_id,
                self.phase3_upf,
                &mut self.teid_allocator,
            ),
            Ok(NasPdu::AttachComplete) => handle_attach_complete(&mut self.world, mme_ue_s1ap_id),
            Ok(NasPdu::DetachRequest(_)) => {
                let responses = handle_detach_request(&mut self.world, enb_ue_s1ap_id, mme_ue_s1ap_id, plain);
                (responses, Vec::new())
            },
            _ => (Vec::new(), Vec::new()),
        }
    }

    /// InitialContextSetupResponse: record the eNodeB's end of the tunnel.
    fn handle_icsrsp(&mut self, resp: InitialContextSetupResponse) -> (r: (Vec<S1apMessage>, Vec<UpfEvent>))
        ensures
            final(self).phase3_upf == old(self).phase3_upf,
            final(self).registry@ == old(self).registry@,
            final(self).hss@ == old(self).hss@,
            final(self).teid_allocator@ == old(self).teid_allocator@,
            icsrsp_outcome(old(self).world@, final(self).world@, resp, (r.0@, r.1@)),
    {
        let entity = resp.mme_ue_s1ap_id;
        if resp.e_rabs_setup.len() == 0 {
            return (Vec::new(), Vec::new());
        }
        let erab = resp.e_rabs_setup[0];
        let dl_teid = read_be32(erab.gtp_teid[0], erab.gtp_teid[1], erab.gtp_teid[2], erab.gtp_teid[3]);
        let enb_addr = erab.transport_layer_addr;
        match self.world.get_tunnel_mut(entity) {
            Some(t) => {
                let ul_teid = t.ul_teid;
                t.dl_teid = dl_teid;
                t.enb_addr = enb_addr;
                let mut evts: Vec<UpfEvent> = Vec::new();
                evts.push(UpfEvent::UpdateBearer { ul_teid, dl_teid, enb_addr });
                (Vec::new(), evts)
            },
            None => (Vec::new(), Vec::new()),
        }
    }

    /// UEContextReleaseComplete: the one teardown path.
    fn handle_release_complete(&mut self, msg: UeContextReleaseComplete) -> (r: (Vec<S1apMessage>, Vec<UpfEvent>))
        ensures
            final(self).phase3_upf == old(self).phase3_upf,
            final(self).hss@ == old(self).hss@,
            release_outcome(
                old(self).world@,
                final(self).world@,
                old(self).registry@,
                final(self).registry@,
                old(self).teid_allocator@,
                final(self).teid_allocator@,
                msg.mme_ue_s1ap_id,
                (r.0@, r.1@),
            ),
    {
        let entity = msg.mme_ue_s1ap_id;
        let ul_teid = match self.world.get_tunnel(entity) {
            Some(t) => Some(t.ul_teid),
            None => None,
        };
        match self.world.get_attach_context(entity) {
            Some(ctx) => self.registry.deregister(ctx.imsi),
            None => {},
        }
        self.world.despawn(entity);
        match ul_teid {
            Some(t) => {
                self.teid_allocator.release(t);
                let mut evts: Vec<UpfEvent> = Vec::new();
                evts.push(UpfEvent::RemoveSession { ul_teid: t });
                (Vec::new(), evts)
            },
            None => (Vec::new(), Vec::new()),
        }
    }
}

impl Default for Mme {
    fn default() -> (m: Self)
        ensures
            m.world@ == World::new_view(),
            m.registry@ == Map::<u64, u32>::empty(),
            m.hss@ == Map::<u64, SubscriberEntry>::empty(),
            m.phase3_upf is None,
            m.teid_allocator@ == (TeidView { next: DEFAULT_TEID_BASE, free: Seq::empty() }),
    {
        Mme::new()
    }
}


/// A plain NAS step keeps every attach context and raises no RemoveSession.
proof fn lemma_dispatch_keeps_ues(
    old_w: WorldView,
    new_w: WorldView,
    old_t: TeidView,
    new_t: TeidView,
    upf: Option<[u8; 4]>,
    enb: u32,
    mme: u32,
    plain: Seq<u8>,
    out: (Seq<S1apMessage>, Seq<UpfEvent>),
)
    requires
        dispatch_outcome(old_w, new_w, old_t, new_t, upf, enb, mme, plain, out),
    ensures
        forall|e: u32| old_w.contexts.contains_key(e) ==> #[trigger] new_w.contexts.contains_key(e),
        forall|i: int| 0 <= i < out.1.len() ==> !(#[trigger] out.1[i] is RemoveSession),
{
    match decode_nas_spec(plain) {
        Ok(NasView::SecurityModeComplete) => {
            if old_w.contexts.contains_key(mme) {
                let ctx = old_w.contexts[mme];
                let (c0, sec, env) = choose|c0: NasSecurityContext, sec: NasSecurityContext, env: Seq<u8>|
                    fresh_nas_context(c0, kasme_of(ctx)) && protected_with(c0, sec, attach_accept_plain(ctx.ue_ip@), env)
                        && match upf {
                        Some(addr) => {
                            let (t, t1) = alloc_result(old_t);
                            &&& new_t == t1
                            &&& new_w == WorldView {
                                contexts: old_w.contexts.insert(
                                    mme,
                                    AttachContext { ul_teid: Some(t), nas_security: Some(sec), ..ctx },
                                ),
                                sessions: old_w.sessions.insert(mme, SessionState { imsi: ctx.imsi, ul_teid: t }),
                                tunnels: old_w.tunnels.insert(mme, new_w.tunnels[mme]),
                                ..old_w
                            }
                            &&& new_w.tunnels[mme].ul_teid == t && new_w.tunnels[mme].dl_teid == 0
                            &&& new_w.tunnels[mme].enb_addr@ == seq![0u8, 0u8, 0u8, 0u8]
                            &&& out.0.len() == 1 && is_icsr(out.0[0], enb, mme, t, addr, env, kasme_of(ctx))
                            &&& out.1.len() == 1
                            &&& out.1[0] matches UpfEvent::CreateSession { ul_teid, entity_id, imsi, ue_ip, enb_addr, qci }
                            &&& ul_teid == t && entity_id == mme && imsi == ctx.imsi && ue_ip == ctx.ue_ip && qci == 9
                            &&& enb_addr@ == seq![0u8, 0u8, 0u8, 0u8]
                        },
                        None => {
                            &&& new_t == old_t
                            &&& new_w == WorldView {
                                contexts: old_w.contexts.insert(mme, AttachContext { nas_security: Some(sec), ..ctx }),
                                ..old_w
                            }
                            &&& out.0.len() == 1 && is_downlink(out.0[0], enb, mme, env)
                            &&& out.1.len() == 0
                        },
                    };
                assert forall|i: int| 0 <= i < out.1.len() implies !(#[trigger] out.1[i] is RemoveSession) by {
                    assert(i == 0);
                }
            }
        },
        Ok(NasView::DetachRequest { .. }) => {},
        _ => {},
    }
}

/// Only a UEContextReleaseComplete tears a UE down: every other S1AP
/// message keeps each attach context and each registered IMSI, and never
/// asks the user plane to remove a session.
pub proof fn law_only_release_complete_tears_down(
    old: MmeView,
    new: MmeView,
    msg: S1apMessage,
    out: (Seq<S1apMessage>, Seq<UpfEvent>),
)
    requires
        s1ap_outcome(old, new, msg, out),
        !(msg is UeContextReleaseComplete),
    ensures
        forall|e: u32| old.world.contexts.contains_key(e) ==> #[trigger] new.world.contexts.contains_key(e),
        forall|imsi: u64| old.registry.contains_key(imsi) ==> #[trigger] new.registry.contains_key(imsi),
        forall|i: int| 0 <= i < out.1.len() ==> !(#[trigger] out.1[i] is RemoveSession),
{
    match msg {
        S1apMessage::InitialUeMessage(m) => {
            match attach_request_imsi(m.nas_pdu@) {
                Some(imsi) => {
                    if old.hss.contains_key(imsi) {
                        let info = choose|info: HssAuthInfo|
                            #[trigger] vector_for(old.hss, imsi, info.rand@, info) && attach_outcome(
                                old.world,
                                new.world,
                                old.registry,
                                new.registry,
                                m.enb_ue_s1ap_id,
                                imsi,
                                info,
                                m.tai@.subrange(0, 3),
                                out.0,
                            );
                        let (entity, w1) = spawn_result(old.world);
                        assert forall|e: u32| old.world.contexts.contains_key(e) implies #[trigger] new.world.contexts.contains_key(e) by {
                            assert(w1.contexts.dom().contains(e));
                        }
                    }
                },
                None => {},
            }
        },
        S1apMessage::UplinkNasTransport(m) => {
            let nas = m.nas_pdu@;
            if uplink_sht(nas) == 0 {
                lemma_dispatch_keeps_ues(old.world, new.world, old.teids, new.teids, old.phase3_upf, m.enb_ue_s1ap_id, m.mme_ue_s1ap_id, nas, out);
            } else {
                match nas_security_of(old.world, m.mme_ue_s1ap_id) {
                    None => {},
                    Some(sec) => {
                        let (sec2, r) = choose|sec2: NasSecurityContext, r: Option<Vec<u8>>|
                            #[trigger] unwrapped_with(sec, sec2, nas, r) && {
                                let w1 = WorldView {
                                    contexts: old.world.contexts.insert(
                                        m.mme_ue_s1ap_id,
                                        AttachContext { nas_security: Some(sec2), ..old.world.contexts[m.mme_ue_s1ap_id] },
                                    ),
                                    ..old.world
                                };
                                match r {
                                    None => quiet(w1, new.world, old.teids, new.teids, out),
                                    Some(p) => dispatch_outcome(w1, new.world, old.teids, new.teids, old.phase3_upf, m.enb_ue_s1ap_id, m.mme_ue_s1ap_id, p@, out),
                                }
                            };
                        let w1 = WorldView {
                            contexts: old.world.contexts.insert(
                                m.mme_ue_s1ap_id,
                                AttachContext { nas_security: Some(sec2), ..old.world.contexts[m.mme_ue_s1ap_id] },
                            ),
                            ..old.world
                        };
                        match r {
                            None => {},
                            Some(p) => {
                                lemma_dispatch_keeps_ues(w1, new.world, old.teids, new.teids, old.phase3_upf, m.enb_ue_s1ap_id, m.mme_ue_s1ap_id, p@, out);
                            },
                        }
                    },
                }
            }
        },
        _ => {},
    }
}

/// An InitialUEMessage carrying an Attach Request from a provisioned
/// subscriber is answered with one DownlinkNASTransport to that eNodeB UE
/// id, whose Authentication Request the subscriber's UE accepts.
pub proof fn law_attach_request_gets_an_acceptable_challenge(
    old: MmeView,
    new: MmeView,
    msg: S1apMessage,
    out: (Seq<S1apMessage>, Seq<UpfEvent>),
)
    requires
        s1ap_outcome(old, new, msg, out),
        msg matches S1apMessage::InitialUeMessage(m) && attach_request_imsi(m.nas_pdu@) matches Some(imsi)
            && old.hss.contains_key(imsi),
    ensures
        out.0.len() == 1,
        out.1.len() == 0,
        msg matches S1apMessage::InitialUeMessage(m) && out.0[0] matches S1apMessage::DownlinkNasTransport(d)
            && d.enb_ue_s1ap_id == m.enb_ue_s1ap_id && exists|rand: Seq<u8>|
            #[trigger] ue_accepts_auth_request(old.hss[attach_request_imsi(m.nas_pdu@)->0], rand, d.nas_pdu@),
{
    match msg {
        S1apMessage::InitialUeMessage(m) => {
            law_attach_answer_is_accepted_by_the_ue(
                old.hss,
                new.hss,
                old.world,
                new.world,
                old.registry,
                new.registry,
                m.enb_ue_s1ap_id,
                m.nas_pdu@,
                m.tai@.subrange(0, 3),
                out,
            );
        },
        _ => {},
    }
}

} // verus!
