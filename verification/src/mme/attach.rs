//! EPS-AKA attach, step by step. Each handler returns the S1AP messages to
//! send and the user-plane events to raise.
//!
//! | Trigger                          | Handler                         |
//! |----------------------------------|---------------------------------|
//! | InitialUEMessage(AttachRequest)  | `start_attach`                  |
//! | UplinkNAS(AuthenticationResponse)| `handle_auth_response`          |
//! | UplinkNAS(SecurityModeComplete)  | `handle_security_mode_complete` |
//! | UplinkNAS(AttachComplete)        | `handle_attach_complete`        |
//!
//! NAS security activates at Security Mode Complete: Kasme comes from
//! CK, IK, the serving PLMN and SQN ⊕ AK, the NAS keys from Kasme for
//! 128-EEA2 / 128-EIA2 (the pair the Security Mode Command offered), and the
//! Attach Accept is the first message sent protected.

use vstd::prelude::*;

use crate::auth::keys::sqn_bytes;
use crate::auth::milenage::{autn_spec, is_milenage_vector, milenage_out, milenage_out1, xor_seq, AuthVector};
use crate::hss::{next_sqn, vector_for, Hss, HssAuthInfo, SubscriberEntry};
use crate::kdf::{ck_ik, derive_kasme, kdf_spec, FC_KASME_DERIVATION};
use crate::mme::state_machine::{
    alloc_result, spawn_result, AttachContext, ImsiRegistry, SessionState, TeidAllocator, TeidView,
    TunnelComponent, UpfEvent, World, WorldView,
};
use crate::proto::nas::codec::{
    law_attach_accept_round_trip, law_auth_request_round_trip, attach_accept_bytes, auth_request_bytes, decode_nas, decode_nas_spec, encode_attach_accept,
    encode_auth_request, encode_protected, encode_sec_mode_cmd, protected_octet1, sec_mode_cmd_bytes,
    NasPdu, NasView,
};
use crate::proto::nas::ie::{NasEeaAlgorithm, NasEiaAlgorithm};
use crate::proto::nas::security::{
    eea2_spec, eia2_mac, law_eea2_involution, nas_key_spec, protect_downlink_post, Direction, NasSecurityContext, ALGO_DISTINGUISHER_NAS_ENC,
    ALGO_DISTINGUISHER_NAS_INT, FC_NAS_ALGO_KEY_DERIVATION, NAS_BEARER, SHT_INTEGRITY_CIPHERED,
};
use crate::proto::s1ap::messages::{DownlinkNasTransport, ErabToSetup, InitialContextSetupRequest, S1apMessage};
use crate::proto::wire::u32_be;

verus! {

/// Why an attach step could not go on.
#[derive(Debug)]
pub enum AttachError {
    UnknownSubscriber(u64),
    NoContext(u32),
    ResVerifyFailed,
    NasDecode,
    ImsiNotFound,
}

/// AMF of the vectors the MME asks for (UMTS AKA).
pub open spec fn attach_amf() -> Seq<u8> {
    seq![0x80u8, 0x00u8]
}

/// The UE security capabilities the Security Mode Command replays.
pub open spec fn replayed_ue_cap() -> Seq<u8> {
    seq![0x20u8, 0x40u8]
}

/// The IMSI of an Attach Request carrying one.
pub open spec fn attach_request_imsi(nas: Seq<u8>) -> Option<u64> {
    match decode_nas_spec(nas) {
        Ok(NasView::AttachRequest { imsi: Some(imsi), .. }) => Some(imsi),
        _ => None,
    }
}

/// `m` is a DownlinkNASTransport with these ids and NAS PDU.
pub open spec fn is_downlink(m: S1apMessage, enb: u32, mme: u32, nas: Seq<u8>) -> bool {
    &&& m matches S1apMessage::DownlinkNasTransport(d)
    &&& d.enb_ue_s1ap_id == enb
    &&& d.mme_ue_s1ap_id == mme
    &&& d.nas_pdu@ == nas
}

/// The attach context `start_attach` records for a fresh vector.
pub open spec fn is_fresh_attach_context(c: AttachContext, imsi: u64, enb: u32, entity: u32, info: HssAuthInfo, plmn: Seq<u8>) -> bool {
    &&& c.imsi == imsi
    &&& c.enb_ue_s1ap_id == enb
    &&& c.mme_ue_s1ap_id == entity
    &&& c.rand == info.rand
    &&& c.xres == info.vector.res
    &&& c.ck == info.vector.ck
    &&& c.ik == info.vector.ik
    &&& c.ak == info.vector.ak
    &&& c.plmn@ == plmn
    &&& c.sqn_used == info.sqn_used
    &&& c.ue_ip@ == seq![0u8, 0u8, 0u8, 0u8]
    &&& c.ul_teid is None
    &&& c.nas_security is None
}

/// What attaching `imsi` with vector `info` does: spawn an entity, map
/// the IMSI to it, record the attach context, and send the Authentication
/// Request (NAS KSI 0, RAND, AUTN) down.
pub open spec fn attach_outcome(
    old_w: WorldView,
    new_w: WorldView,
    old_r: Map<u64, u32>,
    new_r: Map<u64, u32>,
    enb: u32,
    imsi: u64,
    info: HssAuthInfo,
    plmn: Seq<u8>,
    out: Seq<S1apMessage>,
) -> bool {
    let (entity, w1) = spawn_result(old_w);
    &&& new_w.next_id == w1.next_id
    &&& new_w.free_ids == w1.free_ids
    &&& new_w.sessions == w1.sessions
    &&& new_w.tunnels == w1.tunnels
    &&& new_w.contexts.dom() == w1.contexts.dom().insert(entity)
    &&& forall|e: u32| #[trigger] w1.contexts.contains_key(e) && e != entity ==> new_w.contexts[e] == w1.contexts[e]
    &&& is_fresh_attach_context(new_w.contexts[entity], imsi, enb, entity, info, plmn)
    &&& new_r == old_r.insert(imsi, entity)
    &&& out.len() == 1
    &&& is_downlink(
        out[0],
        enb,
        entity,
        auth_request_bytes(0, info.rand@, autn_spec(info.vector, info.sqn_used@, attach_amf())),
    )
}

/// A vector was made for `imsi` (its SQN advancing by one) and the attach
/// went on with it.
pub open spec fn attach_started(
    old_h: Map<u64, SubscriberEntry>,
    new_h: Map<u64, SubscriberEntry>,
    old_w: WorldView,
    new_w: WorldView,
    old_r: Map<u64, u32>,
    new_r: Map<u64, u32>,
    enb: u32,
    imsi: u64,
    plmn: Seq<u8>,
    out: Seq<S1apMessage>,
) -> bool {
    &&& new_h == old_h.insert(imsi, SubscriberEntry { sqn: next_sqn(old_h[imsi].sqn), ..old_h[imsi] })
    &&& exists|info: HssAuthInfo|
        #[trigger] vector_for(old_h, imsi, info.rand@, info) && attach_outcome(old_w, new_w, old_r, new_r, enb, imsi, info, plmn, out)
}

/// What step 1 does: `attach_started` for an Attach Request carrying the
/// IMSI of a provisioned subscriber, nothing otherwise; never a UPF event.
pub open spec fn start_attach_outcome(
    old_h: Map<u64, SubscriberEntry>,
    new_h: Map<u64, SubscriberEntry>,
    old_w: WorldView,
    new_w: WorldView,
    old_r: Map<u64, u32>,
    new_r: Map<u64, u32>,
    enb: u32,
    nas: Seq<u8>,
    plmn: Seq<u8>,
    out: (Seq<S1apMessage>, Seq<UpfEvent>),
) -> bool {
    &&& out.1.len() == 0
    &&& match attach_request_imsi(nas) {
        Some(imsi) if old_h.contains_key(imsi) => attach_started(old_h, new_h, old_w, new_w, old_r, new_r, enb, imsi, plmn, out.0),
        _ => out.0.len() == 0 && new_w == old_w && new_r == old_r && new_h == old_h,
    }
}

/// Step 1: an InitialUEMessage whose NAS PDU is an Attach Request. Nothing
/// happens unless it decodes to one carrying an IMSI of a provisioned
/// subscriber; then the HSS makes a vector and `attach_outcome` follows.
pub fn start_attach(
    world: &mut World,
    registry: &mut ImsiRegistry,
    hss: &mut Hss,
    enb_ue_s1ap_id: u32,
    nas_pdu: &[u8],
    tai: [u8; 5],
) -> (r: (Vec<S1apMessage>, Vec<UpfEvent>))
    ensures
        start_attach_outcome(
            old(hss)@,
            final(hss)@,
            old(world)@,
            final(world)@,
            old(registry)@,
            final(registry)@,
            enb_ue_s1ap_id,
            nas_pdu@,
            tai@.subrange(0, 3),
            (r.0@, r.1@),
        ),
{
    let plmn = [tai[0], tai[1], tai[2]];
    let imsi = match decode_nas(nas_pdu) {
        Ok(NasPdu::AttachRequest(inner)) => match inner.imsi {
            Some(imsi) => imsi,
            None => {
                return (Vec::new(), Vec::new());
            },
        },
        _ => {
            return (Vec::new(), Vec::new());
        },
    };
    let info = match hss.generate_auth_vector(imsi) {
        Some(info) => info,
        None => {
            return (Vec::new(), Vec::new());
        },
    };
    proof {
        assert(plmn@ =~= tai@.subrange(0, 3));
    }
    let ghost w0 = old(world)@;
    let ghost r0 = old(registry)@;
    let out = attach_with_vector(world, registry, enb_ue_s1ap_id, imsi, &info, plmn);
    proof {
        assert(attach_request_imsi(nas_pdu@) == Some(imsi));
        assert(vector_for(old(hss)@, imsi, info.rand@, info));
        assert(attach_outcome(w0, world@, r0, registry@, enb_ue_s1ap_id, imsi, info, tai@.subrange(0, 3), out@));
    }
    (out, Vec::new())
}

/// Attach `imsi` with a vector the HSS made: spawn the entity, register
/// the IMSI, record the attach context, and build the Authentication
/// Request.
pub fn attach_with_vector(
    world: &mut World,
    registry: &mut ImsiRegistry,
    enb_ue_s1ap_id: u32,
    imsi: u64,
    info: &HssAuthInfo,
    plmn: [u8; 3],
) -> (out: Vec<S1apMessage>)
    ensures
        attach_outcome(old(world)@, final(world)@, old(registry)@, final(registry)@, enb_ue_s1ap_id, imsi, *info, plmn@, out@),
{
    let amf = [0x80u8, 0x00u8];
    let autn = info.vector.autn(&info.sqn_used, &amf);
    proof {
        assert(amf@ =~= attach_amf());
    }
    let entity = world.spawn();
    registry.register(imsi, entity);
    let ghost w1 = world@;
    world.insert_attach_context(
        entity,
        AttachContext {
            imsi,
            enb_ue_s1ap_id,
            mme_ue_s1ap_id: entity,
            rand: info.rand,
            xres: info.vector.res,
            ck: info.vector.ck,
            ik: info.vector.ik,
            ak: info.vector.ak,
            plmn,
            sqn_used: info.sqn_used,
            ue_ip: [0u8; 4],
            ul_teid: None,
            nas_security: None,
        },
    );
    let nas = encode_auth_request(0, &info.rand, &autn);
    let mut out: Vec<S1apMessage> = Vec::new();
    out.push(S1apMessage::DownlinkNasTransport(DownlinkNasTransport { enb_ue_s1ap_id, mme_ue_s1ap_id: entity, nas_pdu: nas }));
    proof {
        assert(world@.contexts[entity].ue_ip@ =~= seq![0u8, 0u8, 0u8, 0u8]);
        assert(world@.contexts.dom() =~= w1.contexts.dom().insert(entity));
    }
    out
}

/// The RES of an Authentication Response.
pub open spec fn auth_response_res(nas: Seq<u8>) -> Option<Seq<u8>> {
    match decode_nas_spec(nas) {
        Ok(NasView::AuthenticationResponse { res }) => Some(res),
        _ => None,
    }
}

/// What step 2 answers: the Security Mode Command (EEA2, EIA2, NAS KSI 0,
/// replayed capability) when the PDU is an Authentication Response whose
/// RES matches the stored XRES; nothing otherwise.
pub open spec fn auth_response_outcome(w: WorldView, enb: u32, mme: u32, nas: Seq<u8>, out: Seq<S1apMessage>) -> bool {
    match auth_response_res(nas) {
        Some(res) if w.contexts.contains_key(mme) && w.contexts[mme].xres@ == res => out.len() == 1 && is_downlink(
            out[0],
            enb,
            mme,
            sec_mode_cmd_bytes(NasEeaAlgorithm::Eea2, NasEiaAlgorithm::Eia2, 0, replayed_ue_cap()),
        ),
        _ => out.len() == 0,
    }
}

/// Step 2: check RES against XRES (in constant time) and answer with the
/// Security Mode Command.
pub fn handle_auth_response(
    world: &mut World,
    _registry: &ImsiRegistry,
    enb_ue_s1ap_id: u32,
    mme_ue_s1ap_id: u32,
    nas_pdu: &[u8],
) -> (r: (Vec<S1apMessage>, Vec<UpfEvent>))
    ensures
        final(world)@ == old(world)@,
        r.1@.len() == 0,
        auth_response_outcome(old(world)@, enb_ue_s1ap_id, mme_ue_s1ap_id, nas_pdu@, r.0@),
{
    let res_arr: [u8; 8] = match decode_nas(nas_pdu) {
        Ok(NasPdu::AuthenticationResponse(inner)) => inner.res,
        _ => {
            return (Vec::new(), Vec::new());
        },
    };
    let ctx = match world.get_attach_context(mme_ue_s1ap_id) {
        Some(c) => c,
        None => {
            return (Vec::new(), Vec::new());
        },
    };
    if !crate::auth::milenage::MilenageContext::verify_res(&ctx.xres, &res_arr) {
        return (Vec::new(), Vec::new());
    }
    let cap = [0x20u8, 0x40u8];
    let nas = encode_sec_mode_cmd(NasEeaAlgorithm::Eea2, NasEiaAlgorithm::Eia2, 0, &cap);
    proof {
        assert(cap@ =~= replayed_ue_cap());
    }
    let mut out: Vec<S1apMessage> = Vec::new();
    out.push(S1apMessage::DownlinkNasTransport(DownlinkNasTransport { enb_ue_s1ap_id, mme_ue_s1ap_id, nas_pdu: nas }));
    (out, Vec::new())
}

/// Kasme of an attach context: `KDF(CK ‖ IK, 0x10, [PLMN, SQN ⊕ AK])`.
pub open spec fn kasme_of(c: AttachContext) -> Seq<u8> {
    kdf_spec(ck_ik(c.ck@, c.ik@), FC_KASME_DERIVATION, seq![c.plmn@, xor_seq(c.sqn_used@, c.ak@)])
}

/// A NAS security context just derived from `kasme` for EEA2 / EIA2.
pub open spec fn fresh_nas_context(c: NasSecurityContext, kasme: Seq<u8>) -> bool {
    &&& c.spec_k_enc() == nas_key_spec(kasme, FC_NAS_ALGO_KEY_DERIVATION, ALGO_DISTINGUISHER_NAS_ENC, 2)
    &&& c.spec_k_int() == nas_key_spec(kasme, FC_NAS_ALGO_KEY_DERIVATION, ALGO_DISTINGUISHER_NAS_INT, 2)
    &&& c.spec_eea() == NasEeaAlgorithm::Eea2
    &&& c.spec_eia() == NasEiaAlgorithm::Eia2
    &&& c.spec_dl_count() == 0
    &&& c.spec_ul_count() == 0
}

/// `env` is `plain` protected (integrity and ciphering) under `before`,
/// which becomes `after`.
pub open spec fn protected_with(before: NasSecurityContext, after: NasSecurityContext, plain: Seq<u8>, env: Seq<u8>) -> bool {
    exists|count: u32, payload: Seq<u8>, mac: Seq<u8>|
        protect_downlink_post(before, after, NAS_BEARER, plain, count, payload, mac) && env == seq![
            protected_octet1(SHT_INTEGRITY_CIPHERED),
        ] + mac + seq![count as u8] + payload
}

/// The plain Attach Accept the MME sends: EPS only, T3412 0x54, no TAI,
/// the UE's IPv4 address, no APN.
pub open spec fn attach_accept_plain(ue_ip: Seq<u8>) -> Seq<u8> {
    attach_accept_bytes(1, 0x54, Seq::empty(), Some(ue_ip), None)
}

/// `m` is the InitialContextSetupRequest of a phase-3 attach.
pub open spec fn is_icsr(m: S1apMessage, enb: u32, mme: u32, ul_teid: u32, upf: [u8; 4], env: Seq<u8>, kasme: Seq<u8>) -> bool {
    &&& m matches S1apMessage::InitialContextSetupRequest(r)
    &&& r.enb_ue_s1ap_id == enb
    &&& r.mme_ue_s1ap_id == mme
    &&& r.e_rabs@.len() == 1
    &&& r.e_rabs@[0].erab_id == 5
    &&& r.e_rabs@[0].qci == 9
    &&& r.e_rabs@[0].gtp_teid@ == u32_be(ul_teid)
    &&& r.e_rabs@[0].transport_layer_addr == upf
    &&& r.nas_pdu matches Some(p) && p@ == env
    &&& r.ue_ambr == (50_000_000u64, 50_000_000u64)
    &&& r.security_key@ == kasme
}

/// What step 3 does for an entity with an attach context: derive Kasme and
/// the NAS security context, protect the Attach Accept; with a UPF
/// (phase 3) allocate the uplink TEID, record session and tunnel, send the
/// InitialContextSetupRequest and raise CreateSession; without, send the
/// Attach Accept in a DownlinkNASTransport.
pub open spec fn sec_mode_complete_outcome(
    old_w: WorldView,
    new_w: WorldView,
    old_t: TeidView,
    new_t: TeidView,
    enb: u32,
    mme: u32,
    upf: Option<[u8; 4]>,
    out: (Seq<S1apMessage>, Seq<UpfEvent>),
) -> bool {
    if !old_w.contexts.contains_key(mme) {
        new_w == old_w && new_t == old_t && out.0.len() == 0 && out.1.len() == 0
    } else {
        let ctx = old_w.contexts[mme];
        let kasme = kasme_of(ctx);
        exists|c0: NasSecurityContext, sec: NasSecurityContext, env: Seq<u8>|
            fresh_nas_context(c0, kasme) && protected_with(c0, sec, attach_accept_plain(ctx.ue_ip@), env) && match upf {
                Some(addr) => {
                    let (t, t1) = alloc_result(old_t);
                    &&& new_t == t1
                    &&& new_w == WorldView {
                        contexts: old_w.contexts.insert(mme, AttachContext { ul_teid: Some(t), nas_security: Some(sec), ..ctx }),
                        sessions: old_w.sessions.insert(mme, SessionState { imsi: ctx.imsi, ul_teid: t }),
                        tunnels: old_w.tunnels.insert(mme, new_w.tunnels[mme]),
                        ..old_w
                    }
                    &&& new_w.tunnels[mme].ul_teid == t && new_w.tunnels[mme].dl_teid == 0
                    &&& new_w.tunnels[mme].enb_addr@ == seq![0u8, 0u8, 0u8, 0u8]
                    &&& out.0.len() == 1 && is_icsr(out.0[0], enb, mme, t, addr, env, kasme)
                    &&& out.1.len() == 1
                    &&& out.1[0] matches UpfEvent::CreateSession { ul_teid, entity_id, imsi, ue_ip, enb_addr, qci }
                    &&& ul_teid == t && entity_id == mme && imsi == ctx.imsi && ue_ip == ctx.ue_ip && qci == 9
                    &&& enb_addr@ == seq![0u8, 0u8, 0u8, 0u8]
                },
                None => {
                    &&& new_t == old_t
                    &&& new_w == WorldView {
                        contexts: old_w.contexts.insert(mme, AttachContext { nas_security: Some(sec), ..ctx }),
                        ..old_w
                    }
                    &&& out.0.len() == 1 && is_downlink(out.0[0], enb, mme, env)
                    &&& out.1.len() == 0
                },
            }
    }
}

/// Step 3: Security Mode Complete — activate NAS security and accept the
/// attach.
pub fn handle_security_mode_complete(
    world: &mut World,
    enb_ue_s1ap_id: u32,
    mme_ue_s1ap_id: u32,
    phase3_upf: Option<[u8; 4]>,
    teid_allocator: &mut TeidAllocator,
) -> (r: (Vec<S1apMessage>, Vec<UpfEvent>))
    ensures
        sec_mode_complete_outcome(
            old(world)@,
            final(world)@,
            old(teid_allocator)@,
            final(teid_allocator)@,
            enb_ue_s1ap_id,
            mme_ue_s1ap_id,
            phase3_upf,
            (r.0@, r.1@),
        ),
{
    let ctx = match world.get_attach_context(mme_ue_s1ap_id) {
        Some(c) => c,
        None => {
            return (Vec::new(), Vec::new());
        },
    };
    let imsi = ctx.imsi;
    let ue_ip = ctx.ue_ip;
    let mut sqn_xor_ak = [0u8; 6];
    let mut i: usize = 0;
    while i < 6
        invariant
            i <= 6,
            forall|j: int| 0 <= j < i ==> sqn_xor_ak@[j] == ctx.sqn_used@[j] ^ ctx.ak@[j],
        decreases 6 - i,
    {
        sqn_xor_ak[i] = ctx.sqn_used[i] ^ ctx.ak[i];
        i = i + 1;
    }
    proof {
        assert(sqn_xor_ak@ =~= xor_seq(ctx.sqn_used@, ctx.ak@));
    }
    let kasme = derive_kasme(&ctx.ck, &ctx.ik, &ctx.plmn, &sqn_xor_ak);
    let mut nas_security = NasSecurityContext::new(&kasme, NasEeaAlgorithm::Eea2, NasEiaAlgorithm::Eia2);
    let ghost c0 = nas_security;
    let attach_accept = encode_attach_accept(1, 0x54, &[], Some(ue_ip), None);
    proof {
        let empty: Seq<[u8; 5]> = Seq::empty();
        assert(attach_accept@ == attach_accept_plain(ue_ip@));
    }
    let env = encode_protected(&mut nas_security, SHT_INTEGRITY_CIPHERED, NAS_BEARER, attach_accept.as_slice());
    match phase3_upf {
        Some(upf_addr) => {
            let ul_teid = teid_allocator.allocate();
            world.insert_attach_context(
                mme_ue_s1ap_id,
                AttachContext { ul_teid: Some(ul_teid), nas_security: Some(nas_security), ..ctx },
            );
            world.insert_session_state(mme_ue_s1ap_id, SessionState { imsi, ul_teid });
            world.insert_tunnel(mme_ue_s1ap_id, TunnelComponent { ul_teid, dl_teid: 0, enb_addr: [0u8; 4] });
            let teid_bytes = crate::proto::wire::u32_to_be(ul_teid);
            let mut e_rabs: Vec<ErabToSetup> = Vec::new();
            e_rabs.push(ErabToSetup { erab_id: 5, qci: 9, gtp_teid: teid_bytes, transport_layer_addr: upf_addr });
            let icsr = S1apMessage::InitialContextSetupRequest(
                InitialContextSetupRequest {
                    enb_ue_s1ap_id,
                    mme_ue_s1ap_id,
                    e_rabs,
                    nas_pdu: Some(env),
                    ue_ambr: (50_000_000, 50_000_000),
                    security_key: kasme,
                },
            );
            let evt = UpfEvent::CreateSession { ul_teid, entity_id: mme_ue_s1ap_id, imsi, ue_ip, enb_addr: [0u8; 4], qci: 9 };
            let mut out: Vec<S1apMessage> = Vec::new();
            out.push(icsr);
            let mut evts: Vec<UpfEvent> = Vec::new();
            evts.push(evt);
            proof {
                assert(fresh_nas_context(c0, kasme@));
                assert(world@.tunnels[mme_ue_s1ap_id].enb_addr@ =~= seq![0u8, 0u8, 0u8, 0u8]);
                assert(protected_with(c0, nas_security, attach_accept_plain(ctx.ue_ip@), env@));
                assert(is_icsr(out@[0], enb_ue_s1ap_id, mme_ue_s1ap_id, ul_teid, upf_addr, env@, kasme@));
            }
            (out, evts)
        },
        None => {
            world.insert_attach_context(mme_ue_s1ap_id, AttachContext { nas_security: Some(nas_security), ..ctx });
            let mut out: Vec<S1apMessage> = Vec::new();
            out.push(S1apMessage::DownlinkNasTransport(DownlinkNasTransport { enb_ue_s1ap_id, mme_ue_s1ap_id, nas_pdu: env }));
            proof {
                assert(fresh_nas_context(c0, kasme@));
                assert(protected_with(c0, nas_security, attach_accept_plain(ctx.ue_ip@), env@));
            }
            (out, Vec::new())
        },
    }
}

/// Step 4: Attach Complete — the subscriber is online; nothing to send.
pub fn handle_attach_complete(_world: &mut World, _mme_ue_s1ap_id: u32) -> (r: (Vec<S1apMessage>, Vec<UpfEvent>))
    ensures
        final(_world)@ == old(_world)@,
        r.0@.len() == 0,
        r.1@.len() == 0,
{
    (Vec::new(), Vec::new())
}

// ── What the UE checks ───────────────────────────────────────────────────────

/// The Authentication Request passes the UE's network check (TS 33.102
/// §6.3.3): with the subscriber's K and OPc the UE recovers, from AUTN and
/// RAND, the SQN the HSS holds (AK = f5(RAND)), and f1 over that SQN, the
/// AUTN's own AMF field and RAND gives the AUTN's MAC-A. The AMF carries
/// the separation bit (its top bit) that E-UTRAN requires (TS 33.401
/// §6.1.1).
pub open spec fn ue_accepts_auth_request(e: SubscriberEntry, rand_sent: Seq<u8>, nas: Seq<u8>) -> bool {
    decode_nas_spec(nas) matches Ok(NasView::AuthenticationRequest { rand, autn, .. }) && {
        let ak = milenage_out(e.k, e.opc, rand, 0, 1).subrange(0, 6);
        let sqn = xor_seq(autn.subrange(0, 6), ak);
        &&& rand == rand_sent
        &&& sqn == sqn_bytes(e.sqn)
        &&& autn.subrange(8, 16) == milenage_out1(e.k, e.opc, rand, sqn, autn.subrange(6, 8)).subrange(0, 8)
        &&& autn[6] >= 0x80u8
    }
}

/// Attaching with a vector the HSS made for the subscriber sends one
/// Authentication Request, which the subscriber's UE accepts.
pub proof fn law_auth_request_is_accepted_by_the_ue(
    old_h: Map<u64, SubscriberEntry>,
    old_w: WorldView,
    new_w: WorldView,
    old_r: Map<u64, u32>,
    new_r: Map<u64, u32>,
    enb: u32,
    imsi: u64,
    info: HssAuthInfo,
    plmn: Seq<u8>,
    out: Seq<S1apMessage>,
)
    requires
        old_h.contains_key(imsi),
        vector_for(old_h, imsi, info.rand@, info),
        attach_outcome(old_w, new_w, old_r, new_r, enb, imsi, info, plmn, out),
    ensures
        out.len() == 1,
        out[0] matches S1apMessage::DownlinkNasTransport(d) && d.enb_ue_s1ap_id == enb
            && ue_accepts_auth_request(old_h[imsi], info.rand@, d.nas_pdu@),
{
    let nas = auth_request_bytes(0, info.rand@, autn_spec(info.vector, info.sqn_used@, attach_amf()));
    assert(out.len() == 1 && is_downlink(out[0], enb, spawn_result(old_w).0, nas));
    lemma_vector_request_accepted(old_h, imsi, info);
}

/// Xoring with the same bytes twice gives the bytes back.
proof fn lemma_xor_seq_twice(a: Seq<u8>, b: Seq<u8>)
    requires
        a.len() == b.len(),
    ensures
        xor_seq(xor_seq(a, b), b) == a,
{
    let r = xor_seq(xor_seq(a, b), b);
    assert forall|j: int| 0 <= j < a.len() implies #[trigger] r[j] == a[j] by {
        crate::proto::wire::lemma_xor_twice(a[j], b[j]);
    }
    assert(r =~= a);
}

/// The AUTN of a Milenage vector made over SQN and the HSS's AMF gives the
/// UE back that SQN and a MAC-A equal to f1 over its own AMF field.
proof fn lemma_autn_checks(k: Seq<u8>, opc: Seq<u8>, rand: Seq<u8>, sqn: Seq<u8>, v: AuthVector)
    requires
        sqn.len() == 6,
        is_milenage_vector(v, k, opc, rand, sqn, crate::hss::hss_amf()),
    ensures
        ({
            let autn = autn_spec(v, sqn, attach_amf());
            &&& autn.len() == 16
            &&& xor_seq(autn.subrange(0, 6), milenage_out(k, opc, rand, 0, 1).subrange(0, 6)) == sqn
            &&& autn.subrange(8, 16) == milenage_out1(k, opc, rand, sqn, autn.subrange(6, 8)).subrange(0, 8)
            &&& autn[6] >= 0x80u8
        }),
{
    let autn = autn_spec(v, sqn, attach_amf());
    let ak = milenage_out(k, opc, rand, 0, 1).subrange(0, 6);
    assert(v.ak@ == ak);
    assert(autn.subrange(0, 6) =~= xor_seq(sqn, v.ak@));
    assert(autn.subrange(6, 8) =~= crate::hss::hss_amf());
    assert(autn.subrange(8, 16) =~= v.mac_a@);
    lemma_xor_seq_twice(sqn, ak);
}

/// The Authentication Request built from a vector the HSS made for the
/// subscriber passes the subscriber's UE check.
proof fn lemma_vector_request_accepted(old_h: Map<u64, SubscriberEntry>, imsi: u64, info: HssAuthInfo)
    requires
        old_h.contains_key(imsi),
        vector_for(old_h, imsi, info.rand@, info),
    ensures
        ue_accepts_auth_request(
            old_h[imsi],
            info.rand@,
            auth_request_bytes(0, info.rand@, autn_spec(info.vector, info.sqn_used@, attach_amf())),
        ),
{
    let e = old_h[imsi];
    let autn = autn_spec(info.vector, info.sqn_used@, attach_amf());
    lemma_autn_checks(e.k, e.opc, info.rand@, info.sqn_used@, info.vector);
    law_auth_request_round_trip(0, info.rand@, autn);
}

/// An InitialUEMessage whose NAS PDU is an Attach Request from a
/// provisioned subscriber is answered with one Authentication Request that
/// the subscriber's UE accepts.
pub proof fn law_attach_answer_is_accepted_by_the_ue(
    old_h: Map<u64, SubscriberEntry>,
    new_h: Map<u64, SubscriberEntry>,
    old_w: WorldView,
    new_w: WorldView,
    old_r: Map<u64, u32>,
    new_r: Map<u64, u32>,
    enb: u32,
    nas: Seq<u8>,
    plmn: Seq<u8>,
    out: (Seq<S1apMessage>, Seq<UpfEvent>),
)
    requires
        start_attach_outcome(old_h, new_h, old_w, new_w, old_r, new_r, enb, nas, plmn, out),
        attach_request_imsi(nas) matches Some(imsi) && old_h.contains_key(imsi),
    ensures
        out.0.len() == 1,
        out.1.len() == 0,
        out.0[0] matches S1apMessage::DownlinkNasTransport(d) && d.enb_ue_s1ap_id == enb && exists|rand: Seq<u8>|
            #[trigger] ue_accepts_auth_request(old_h[attach_request_imsi(nas)->0], rand, d.nas_pdu@),
{
    let imsi = attach_request_imsi(nas)->0;
    let info = choose|info: HssAuthInfo|
        #[trigger] vector_for(old_h, imsi, info.rand@, info) && attach_outcome(old_w, new_w, old_r, new_r, enb, imsi, info, plmn, out.0);
    law_auth_request_is_accepted_by_the_ue(old_h, old_w, new_w, old_r, new_r, enb, imsi, info, plmn, out.0);
}

// ── What the UE opens ────────────────────────────────────────────────────────

/// The NAS PDU an S1AP message carries to the UE, if any.
pub open spec fn carried_nas(m: S1apMessage) -> Option<Seq<u8>> {
    match m {
        S1apMessage::DownlinkNasTransport(d) => Some(d.nas_pdu@),
        S1apMessage::InitialContextSetupRequest(r) => match r.nas_pdu {
            Some(p) => Some(p@),
            None => None,
        },
        _ => None,
    }
}

/// The UE, holding CK, IK, the PLMN and SQN xor AK of its attach, derives
/// Kasme (TS 33.401 A.2: FC 0x10) and from it the 128-EEA2 / 128-EIA2 keys
/// (A.7: FC 0x15, distinguishers 1 and 2, algorithm 2); `env` is then the
/// first integrity-protected and ciphered downlink message (COUNT 0): its
/// MAC-I verifies and its deciphered payload is an Attach Accept with
/// T3412 0x54 that assigns the UE its IPv4 address.
pub open spec fn ue_opens_attach_accept(ctx: AttachContext, env: Seq<u8>) -> bool {
    let kasme = kdf_spec(ctx.ck@ + ctx.ik@, 0x10u8, seq![ctx.plmn@, xor_seq(ctx.sqn_used@, ctx.ak@)]);
    let k_enc = kdf_spec(kasme, 0x15u8, seq![seq![0x01u8], seq![2u8]]).subrange(16, 32);
    let k_int = kdf_spec(kasme, 0x15u8, seq![seq![0x02u8], seq![2u8]]).subrange(16, 32);
    exists|mac: Seq<u8>, payload: Seq<u8>|
        #![auto]
        {
            &&& env == seq![protected_octet1(SHT_INTEGRITY_CIPHERED)] + mac + seq![0u8] + payload
            &&& mac == eia2_mac(k_int, 0, 0, Direction::Downlink, payload)
            &&& decode_nas_spec(eea2_spec(k_enc, 0, 0, Direction::Downlink, payload)) matches Ok(
                NasView::AttachAccept { t3412_value, ip_address, .. },
            ) && t3412_value == 0x54 && ip_address == Some(ctx.ue_ip@)
        }
}

/// The Attach Accept protected under a NAS context freshly derived from
/// the attach's Kasme opens at the UE.
proof fn lemma_ue_opens(ctx: AttachContext, c0: NasSecurityContext, sec: NasSecurityContext, env: Seq<u8>)
    requires
        fresh_nas_context(c0, kasme_of(ctx)),
        protected_with(c0, sec, attach_accept_plain(ctx.ue_ip@), env),
    ensures
        ue_opens_attach_accept(ctx, env),
{
    let plain = attach_accept_plain(ctx.ue_ip@);
    let kasme = kasme_of(ctx);
    let k_enc = kdf_spec(kasme, 0x15u8, seq![seq![0x01u8], seq![2u8]]).subrange(16, 32);
    let k_int = kdf_spec(kasme, 0x15u8, seq![seq![0x02u8], seq![2u8]]).subrange(16, 32);
    c0.lemma_null_flags();
    let (count, payload, mac) = choose|count: u32, payload: Seq<u8>, mac: Seq<u8>|
        protect_downlink_post(c0, sec, NAS_BEARER, plain, count, payload, mac) && env == seq![
            protected_octet1(SHT_INTEGRITY_CIPHERED),
        ] + mac + seq![count as u8] + payload;
    assert(count == 0);
    assert(payload == eea2_spec(k_enc, 0, 0, Direction::Downlink, plain));
    assert(mac == eia2_mac(k_int, 0, 0, Direction::Downlink, payload));
    law_eea2_involution(k_enc, 0, 0, Direction::Downlink, plain);
    law_attach_accept_round_trip(1, 0x54, Some(ctx.ue_ip@), None);
    assert(kasme == kdf_spec(ctx.ck@ + ctx.ik@, 0x10u8, seq![ctx.plmn@, xor_seq(ctx.sqn_used@, ctx.ak@)]));
}

/// Security Mode Complete for a UE with an attach context sends one S1AP
/// message (the InitialContextSetupRequest with a UPF, else a
/// DownlinkNASTransport) whose NAS PDU the UE opens to an Attach Accept
/// assigning it its address.
pub proof fn law_attach_accept_opens_at_the_ue(
    old_w: WorldView,
    new_w: WorldView,
    old_t: TeidView,
    new_t: TeidView,
    enb: u32,
    mme: u32,
    upf: Option<[u8; 4]>,
    out: (Seq<S1apMessage>, Seq<UpfEvent>),
)
    requires
        sec_mode_complete_outcome(old_w, new_w, old_t, new_t, enb, mme, upf, out),
        old_w.contexts.contains_key(mme),
    ensures
        out.0.len() == 1,
        carried_nas(out.0[0]) matches Some(env) && ue_opens_attach_accept(old_w.contexts[mme], env),
{
    let ctx = old_w.contexts[mme];
    let kasme = kasme_of(ctx);
    let (c0, sec, env) = choose|c0: NasSecurityContext, sec: NasSecurityContext, env: Seq<u8>|
            fresh_nas_context(c0, kasme) && protected_with(c0, sec, attach_accept_plain(ctx.ue_ip@), env) && match upf {
                Some(addr) => {
                    let (t, t1) = alloc_result(old_t);
                    &&& new_t == t1
                    &&& new_w == WorldView {
                        contexts: old_w.contexts.insert(mme, AttachContext { ul_teid: Some(t), nas_security: Some(sec), ..ctx }),
                        sessions: old_w.sessions.insert(mme, SessionState { imsi: ctx.imsi, ul_teid: t }),
                        tunnels: old_w.tunnels.insert(mme, new_w.tunnels[mme]),
                        ..old_w
                    }
                    &&& new_w.tunnels[mme].ul_teid == t && new_w.tunnels[mme].dl_teid == 0
                    &&& new_w.tunnels[mme].enb_addr@ == seq![0u8, 0u8, 0u8, 0u8]
                    &&& out.0.len() == 1 && is_icsr(out.0[0], enb, mme, t, addr, env, kasme)
                    &&& out.1.len() == 1
                    &&& out.1[0] matches UpfEvent::CreateSession { ul_teid, entity_id, imsi, ue_ip, enb_addr, qci }
                    &&& ul_teid == t && entity_id == mme && imsi == ctx.imsi && ue_ip == ctx.ue_ip && qci == 9
                    &&& enb_addr@ == seq![0u8, 0u8, 0u8, 0u8]
                },
                None => {
                    &&& new_t == old_t
                    &&& new_w == WorldView {
                        contexts: old_w.contexts.insert(mme, AttachContext { nas_security: Some(sec), ..ctx }),
                        ..old_w
                    }
                    &&& out.0.len() == 1 && is_downlink(out.0[0], enb, mme, env)
                    &&& out.1.len() == 0
                },
            };
    lemma_ue_opens(ctx, c0, sec, env);
}

/// With a UPF, Security Mode Complete sets up one bearer end to end: the
/// InitialContextSetupRequest gives the eNodeB the uplink TEID and UPF
/// address that the CreateSession event gives the UPF, with Kasme as the
/// security key, and the UE's tunnel and session hold that same TEID.
pub proof fn law_bearer_setup_agrees(
    old_w: WorldView,
    new_w: WorldView,
    old_t: TeidView,
    new_t: TeidView,
    enb: u32,
    mme: u32,
    upf: Option<[u8; 4]>,
    out: (Seq<S1apMessage>, Seq<UpfEvent>),
)
    requires
        sec_mode_complete_outcome(old_w, new_w, old_t, new_t, enb, mme, upf, out),
        old_w.contexts.contains_key(mme),
        upf is Some,
    ensures
        out.0.len() == 1,
        out.1.len() == 1,
        out.0[0] matches S1apMessage::InitialContextSetupRequest(r) && out.1[0] matches UpfEvent::CreateSession {
            ul_teid,
            entity_id,
            imsi,
            ue_ip,
            ..
        } && {
            let ctx = old_w.contexts[mme];
            &&& r.enb_ue_s1ap_id == enb && r.mme_ue_s1ap_id == mme
            &&& r.e_rabs@.len() == 1
            &&& r.e_rabs@[0].gtp_teid@ == u32_be(ul_teid)
            &&& r.e_rabs@[0].transport_layer_addr == upf->0
            &&& r.security_key@ == kdf_spec(ctx.ck@ + ctx.ik@, 0x10u8, seq![ctx.plmn@, xor_seq(ctx.sqn_used@, ctx.ak@)])
            &&& entity_id == mme && imsi == ctx.imsi && ue_ip == ctx.ue_ip
            &&& new_w.tunnels.contains_key(mme) && new_w.tunnels[mme].ul_teid == ul_teid
            &&& new_w.sessions.contains_key(mme) && new_w.sessions[mme].ul_teid == ul_teid
            &&& new_w.contexts[mme].ul_teid == Some(ul_teid)
        },
{
    let ctx = old_w.contexts[mme];
    let kasme = kasme_of(ctx);
    let (c0, sec, env) = choose|c0: NasSecurityContext, sec: NasSecurityContext, env: Seq<u8>|
            fresh_nas_context(c0, kasme) && protected_with(c0, sec, attach_accept_plain(ctx.ue_ip@), env) && match upf {
                Some(addr) => {
                    let (t, t1) = alloc_result(old_t);
                    &&& new_t == t1
                    &&& new_w == WorldView {
                        contexts: old_w.contexts.insert(mme, AttachContext { ul_teid: Some(t), nas_security: Some(sec), ..ctx }),
                        sessions: old_w.sessions.insert(mme, SessionState { imsi: ctx.imsi, ul_teid: t }),
                        tunnels: old_w.tunnels.insert(mme, new_w.tunnels[mme]),
                        ..old_w
                    }
                    &&& new_w.tunnels[mme].ul_teid == t && new_w.tunnels[mme].dl_teid == 0
                    &&& new_w.tunnels[mme].enb_addr@ == seq![0u8, 0u8, 0u8, 0u8]
                    &&& out.0.len() == 1 && is_icsr(out.0[0], enb, mme, t, addr, env, kasme)
                    &&& out.1.len() == 1
                    &&& out.1[0] matches UpfEvent::CreateSession { ul_teid, entity_id, imsi, ue_ip, enb_addr, qci }
                    &&& ul_teid == t && entity_id == mme && imsi == ctx.imsi && ue_ip == ctx.ue_ip && qci == 9
                    &&& enb_addr@ == seq![0u8, 0u8, 0u8, 0u8]
                },
                None => {
                    &&& new_t == old_t
                    &&& new_w == WorldView {
                        contexts: old_w.contexts.insert(mme, AttachContext { nas_security: Some(sec), ..ctx }),
                        ..old_w
                    }
                    &&& out.0.len() == 1 && is_downlink(out.0[0], enb, mme, env)
                    &&& out.1.len() == 0
                },
            };
}

} // verus!
