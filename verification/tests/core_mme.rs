use midn::auth::keys::{Amf, AuthKey, OpCode, Rand, Sqn};
use midn::auth::milenage::MilenageContext;
use midn::kdf::derive_kasme;
use midn::mme::detach::handle_detach_request;
use midn::mme::state_machine::{
    AttachContext, ImsiRegistry, Mme, SessionState, TeidAllocator, TunnelComponent, UpfEvent, World,
};
use midn::proto::nas::codec::{
    decode_nas, encode_attach_complete, encode_attach_request, encode_auth_response, encode_detach_request,
    encode_sec_mode_complete, NasPdu, NAS_EPS_MM_PD,
};
use midn::proto::nas::ie::{NasEeaAlgorithm, NasEiaAlgorithm};
use midn::proto::nas::security::{
    derive_nas_keys, eea2_apply, eia2_compute_mac, eia2_verify_mac, Direction, NasSecurityContext, NAS_BEARER,
    SHT_INTEGRITY_CIPHERED,
};
use midn::proto::s1ap::messages::{
    ErabSetupItem, InitialContextSetupResponse, InitialUeMessage, S1apCause, S1apMessage, UeContextReleaseComplete,
    UplinkNasTransport,
};

const K: [u8; 16] = [0x46, 0x5b, 0x5c, 0xe8, 0xb1, 0x99, 0xb4, 0x9f, 0xaa, 0x5f, 0x0a, 0x2e, 0xe2, 0x38, 0xa6, 0xbc];
const OPC: [u8; 16] = [0xcd, 0x63, 0xcb, 0x71, 0x95, 0x4a, 0x9f, 0x4e, 0x48, 0xa5, 0x99, 0x4e, 0x37, 0xa0, 0x2b, 0xaf];

fn context(imsi: u64, entity: u32, nas_security: Option<NasSecurityContext>) -> AttachContext {
    AttachContext {
        imsi,
        enb_ue_s1ap_id: 0,
        mme_ue_s1ap_id: entity,
        rand: [0; 16],
        xres: [0; 8],
        ck: [0; 16],
        ik: [0; 16],
        ak: [0; 6],
        plmn: [0; 3],
        sqn_used: [0; 6],
        ue_ip: [0; 4],
        ul_teid: None,
        nas_security,
    }
}

fn world_with_context(entity: u32) -> World {
    let mut w = World::new();
    w.insert_attach_context(entity, context(1, entity, None));
    w
}

fn initial_ue(enb: u32, imsi: u64) -> S1apMessage {
    S1apMessage::InitialUeMessage(InitialUeMessage {
        enb_ue_s1ap_id: enb,
        nas_pdu: encode_attach_request(imsi, 1, 0),
        tai: [0; 5],
        eutran_cgi: [0; 7],
        rrc_cause: 1,
    })
}

fn uplink(enb: u32, mme_ue: u32, nas_pdu: Vec<u8>) -> S1apMessage {
    S1apMessage::UplinkNasTransport(UplinkNasTransport {
        enb_ue_s1ap_id: enb,
        mme_ue_s1ap_id: mme_ue,
        nas_pdu,
        tai: [0; 5],
        eutran_cgi: [0; 7],
    })
}

/// Steps 1 and 2 of an attach: returns the MME UE id, the RAND and the vector.
fn attach_through_auth(mme: &mut Mme, enb: u32, imsi: u64) -> (u32, midn::auth::milenage::AuthVector) {
    let (responses, _) = mme.process_s1ap(initial_ue(enb, imsi));
    let (mme_ue_id, auth_req_pdu) = match &responses[0] {
        S1apMessage::DownlinkNasTransport(m) => (m.mme_ue_s1ap_id, m.nas_pdu.clone()),
        _ => panic!("expected DownlinkNasTransport"),
    };
    let rand_bytes = match decode_nas(&auth_req_pdu).unwrap() {
        NasPdu::AuthenticationRequest(d) => d.rand,
        _ => panic!("expected AuthReq"),
    };
    let ctx = MilenageContext::new(AuthKey(K), OpCode(OPC));
    let av = ctx.generate_vector_with_rand(Sqn::from_bytes(&[0u8; 6]), Amf([0x80, 0x00]), Rand(rand_bytes));
    mme.process_s1ap(uplink(enb, mme_ue_id, encode_auth_response(&av.res)));
    (mme_ue_id, av)
}

// ── World, registry, TEIDs ───────────────────────────────────────────────────

#[test]
fn ecs_spawn_returns_sequential_ids() {
    let mut w = World::new();
    assert_eq!(w.spawn(), 0);
    assert_eq!(w.spawn(), 1);
    assert_eq!(w.spawn(), 2);
}

#[test]
fn ecs_spawn_reuses_despawned_ids() {
    let mut w = World::new();
    let a = w.spawn();
    let b = w.spawn();
    w.despawn(a);
    let c = w.spawn();
    assert_eq!(c, a);
    let _ = b;
}

#[test]
fn ecs_spawn_with_all_components() {
    let mut w = World::new();
    let e = w.spawn();
    w.insert_attach_context(e, context(1, e, None));
    w.insert_session_state(e, SessionState { imsi: 1, ul_teid: 0x0001_0000 });
    w.insert_tunnel(e, TunnelComponent { ul_teid: 0x0001_0000, dl_teid: 0, enb_addr: [0; 4] });
    assert!(w.get_attach_context(e).is_some());
    assert_eq!(w.subscriber_count(), 1);
}

#[test]
fn ecs_despawn_removes_all_components() {
    let mut w = World::new();
    let e = w.spawn();
    w.insert_attach_context(e, context(1, e, None));
    w.despawn(e);
    assert!(w.get_attach_context(e).is_none());
    assert_eq!(w.subscriber_count(), 0);
}

#[test]
fn imsi_registry_register_and_lookup() {
    let mut r = ImsiRegistry::new();
    r.register(901_700_000_000_001, 42);
    assert_eq!(r.lookup(901_700_000_000_001), Some(42));
    assert_eq!(r.lookup(999), None);
}

#[test]
fn imsi_registry_deregister() {
    let mut r = ImsiRegistry::new();
    r.register(1, 0);
    r.deregister(1);
    assert_eq!(r.lookup(1), None);
}

#[test]
fn mme_new_is_phase2() {
    let mme = Mme::new();
    assert!(mme.phase3_upf.is_none());
}

#[test]
fn mme_with_phase3_sets_flag() {
    let mme = Mme::new().with_phase3([127, 0, 0, 1]);
    assert_eq!(mme.phase3_upf, Some([127, 0, 0, 1]));
}

#[test]
fn alloc_ul_teid_starts_at_base() {
    let mut mme = Mme::new();
    assert_eq!(mme.alloc_ul_teid(), 0x0001_0000);
    assert_eq!(mme.alloc_ul_teid(), 0x0001_0001);
}

#[test]
fn teid_allocator_recycles_freed_ids() {
    let mut alloc = TeidAllocator::new(100);
    let a = alloc.allocate();
    let b = alloc.allocate();
    assert_eq!(a, 100);
    assert_eq!(b, 101);
    alloc.release(a);
    assert_eq!(alloc.free_count(), 1);
    let c = alloc.allocate();
    assert_eq!(c, a, "freed id should be handed out before advancing the counter");
    assert_eq!(alloc.free_count(), 0);
}

#[test]
fn mme_release_ul_teid_recycles_via_allocator() {
    let mut mme = Mme::new();
    let t1 = mme.alloc_ul_teid();
    mme.release_ul_teid(t1);
    assert_eq!(mme.free_teid_count(), 1);
    let t2 = mme.alloc_ul_teid();
    assert_eq!(t2, t1);
}

#[test]
fn hss_provision_and_generate() {
    let mut mme = Mme::new();
    mme.hss.provision(901_700_000_000_001, AuthKey(K), OpCode(OPC));
    assert!(mme.hss.generate_auth_vector(901_700_000_000_001).is_some());
}

#[test]
fn hss_unknown_imsi_returns_none() {
    let mut mme = Mme::new();
    assert!(mme.hss.generate_auth_vector(999).is_none());
}

// ── Detach ───────────────────────────────────────────────────────────────────

#[test]
fn normal_detach_sends_accept_then_release_command() {
    let mut world = world_with_context(7);
    let nas_pdu = encode_detach_request(1, false, 0, &[0; 10]);
    let out = handle_detach_request(&mut world, 1, 7, &nas_pdu);
    assert_eq!(out.len(), 2, "expect DetachAccept + UeContextReleaseCommand");
    assert!(matches!(out[0], S1apMessage::DownlinkNasTransport(_)));
    assert!(matches!(out[1], S1apMessage::UeContextReleaseCommand { cause: S1apCause::NasDetach }));
}

#[test]
fn switch_off_detach_skips_accept() {
    let mut world = world_with_context(7);
    let nas_pdu = encode_detach_request(1, true, 0, &[0; 10]);
    let out = handle_detach_request(&mut world, 1, 7, &nas_pdu);
    assert_eq!(out.len(), 1, "switch-off skips DetachAccept");
    assert!(matches!(out[0], S1apMessage::UeContextReleaseCommand { cause: S1apCause::NasDetach }));
}

#[test]
fn detach_for_unknown_entity_is_noop() {
    let mut world = World::new();
    let nas_pdu = encode_detach_request(1, false, 0, &[0; 10]);
    let out = handle_detach_request(&mut world, 1, 999, &nas_pdu);
    assert!(out.is_empty());
}

#[test]
fn bad_nas_pdu_is_noop() {
    let mut world = world_with_context(7);
    let out = handle_detach_request(&mut world, 1, 7, &[0xFF, 0xFF]);
    assert!(out.is_empty());
}

#[test]
fn detach_accept_is_protected_when_nas_security_is_active() {
    let kasme = [0x5Au8; 32];
    let mut world = World::new();
    let entity = 7u32;
    world.insert_attach_context(
        entity,
        context(1, entity, Some(NasSecurityContext::new(&kasme, NasEeaAlgorithm::Eea2, NasEiaAlgorithm::Eia2))),
    );
    let nas_pdu = encode_detach_request(1, false, 0, &[0; 10]);
    let out = handle_detach_request(&mut world, 1, entity, &nas_pdu);
    assert_eq!(out.len(), 2);
    let envelope = match &out[0] {
        S1apMessage::DownlinkNasTransport(m) => m.nas_pdu.clone(),
        _ => panic!("expected DownlinkNasTransport"),
    };
    let sht = (envelope[0] >> 4) & 0x0F;
    assert_ne!(sht, 0, "DetachAccept should be protected once NAS security is active");
    let mac_i: [u8; 4] = envelope[1..5].try_into().unwrap();
    let count = envelope[5] as u32;
    let mut ciphertext = envelope[6..].to_vec();
    let (k_enc, k_int) = derive_nas_keys(&kasme, NasEeaAlgorithm::Eea2, NasEiaAlgorithm::Eia2);
    assert!(eia2_verify_mac(&k_int, count, NAS_BEARER, Direction::Downlink, &ciphertext, &mac_i));
    eea2_apply(&k_enc, count, NAS_BEARER, Direction::Downlink, &mut ciphertext);
    assert!(matches!(decode_nas(&ciphertext).unwrap(), NasPdu::DetachAccept));
    // The downlink COUNT the accept used is consumed.
    assert_eq!(world.get_attach_context(entity).unwrap().nas_security.unwrap().dl_count(), 1);
}

// ── Attach, end to end ───────────────────────────────────────────────────────

#[test]
fn phase3_full_attach_procedure() {
    let imsi = 234_15_1234567890_u64;
    let upf_addr = [127u8, 0, 0, 1];
    let enb_id = 0x0001_0001_u32;
    let mut mme = Mme::new().with_phase3(upf_addr);
    mme.hss.provision(imsi, AuthKey(K), OpCode(OPC));

    let (responses, events) = mme.process_s1ap(initial_ue(enb_id, imsi));
    assert_eq!(responses.len(), 1, "step 1: expect DownlinkNasTransport(AuthReq)");
    assert!(events.is_empty(), "step 1: no UPF events yet");
    assert_eq!(mme.subscriber_count(), 1, "step 1: one entity spawned");
    let (mme_ue_id, auth_req_pdu) = match &responses[0] {
        S1apMessage::DownlinkNasTransport(m) => (m.mme_ue_s1ap_id, m.nas_pdu.clone()),
        _ => panic!("step 1: expected DownlinkNasTransport"),
    };
    let rand_bytes = match decode_nas(&auth_req_pdu).unwrap() {
        NasPdu::AuthenticationRequest(d) => d.rand,
        other => panic!("step 1: expected AuthReq NAS PDU, got {:?}", other),
    };
    let ctx = MilenageContext::new(AuthKey(K), OpCode(OPC));
    let av = ctx.generate_vector_with_rand(Sqn::from_bytes(&[0u8; 6]), Amf([0x80, 0x00]), Rand(rand_bytes));

    let (responses, events) = mme.process_s1ap(uplink(enb_id, mme_ue_id, encode_auth_response(&av.res)));
    assert_eq!(responses.len(), 1, "step 2: expect SecurityModeCommand");
    assert!(events.is_empty(), "step 2: no UPF events");
    assert!(matches!(&responses[0], S1apMessage::DownlinkNasTransport(_)), "step 2: expected DownlinkNasTransport(SecModeCmd)");

    let (responses, events) = mme.process_s1ap(uplink(enb_id, mme_ue_id, encode_sec_mode_complete()));
    assert_eq!(responses.len(), 1, "step 3: expect InitialContextSetupRequest");
    assert_eq!(events.len(), 1, "step 3: expect CreateSession event");
    let ul_teid = match &responses[0] {
        S1apMessage::InitialContextSetupRequest(icsr) => {
            assert_eq!(icsr.mme_ue_s1ap_id, mme_ue_id);
            assert_eq!(icsr.enb_ue_s1ap_id, enb_id);
            assert!(!icsr.e_rabs.is_empty());
            assert_eq!(icsr.e_rabs[0].transport_layer_addr, upf_addr, "E-RAB transport addr must point at UPF");
            assert!(icsr.nas_pdu.is_some(), "AttachAccept must be embedded (now protected)");
            u32::from_be_bytes(icsr.e_rabs[0].gtp_teid)
        },
        _ => panic!("step 3: expected InitialContextSetupRequest"),
    };
    assert_eq!(ul_teid, 0x0001_0000, "step 3: first UL TEID = base");
    match &events[0] {
        UpfEvent::CreateSession { ul_teid: t, entity_id, imsi: i, qci, .. } => {
            assert_eq!(*t, ul_teid, "CreateSession UL TEID");
            assert_eq!(*entity_id, mme_ue_id, "CreateSession entity_id");
            assert_eq!(*i, imsi, "CreateSession IMSI");
            assert_eq!(*qci, 9, "CreateSession QCI");
        },
        _ => panic!("step 3: expected CreateSession event"),
    }

    let enb_dl_teid = 0xBEEF_0001_u32;
    let enb_s1u_addr = [192u8, 168, 1, 100];
    let (responses, events) = mme.process_s1ap(S1apMessage::InitialContextSetupResponse(InitialContextSetupResponse {
        mme_ue_s1ap_id: mme_ue_id,
        enb_ue_s1ap_id: enb_id,
        e_rabs_setup: vec![ErabSetupItem {
            e_rab_id: 5,
            transport_layer_addr: enb_s1u_addr,
            gtp_teid: enb_dl_teid.to_be_bytes(),
        }],
        e_rabs_failed: vec![],
    }));
    assert!(responses.is_empty(), "step 4: ICSRSP generates no S1AP responses");
    assert_eq!(events.len(), 1, "step 4: expect UpdateBearer event");
    match &events[0] {
        UpfEvent::UpdateBearer { ul_teid: t, dl_teid, enb_addr } => {
            assert_eq!(*t, ul_teid, "UpdateBearer UL TEID");
            assert_eq!(*dl_teid, enb_dl_teid, "UpdateBearer DL TEID from eNB");
            assert_eq!(*enb_addr, enb_s1u_addr, "UpdateBearer eNB S1-U addr");
        },
        _ => panic!("step 4: expected UpdateBearer event"),
    }
    let tunnel = mme.world.tunnels.get(&mme_ue_id).expect("tunnel must exist");
    assert_eq!(tunnel.dl_teid, enb_dl_teid);
    assert_eq!(tunnel.enb_addr, enb_s1u_addr);
    assert_eq!(tunnel.ul_teid, ul_teid);

    let (responses, events) = mme.process_s1ap(uplink(enb_id, mme_ue_id, encode_attach_complete()));
    assert!(responses.is_empty(), "step 5: AttachComplete is silent");
    assert!(events.is_empty(), "step 5: no UPF events on AttachComplete");
    assert_eq!(mme.subscriber_count(), 1, "step 5: one online subscriber");
    assert_eq!(mme.registry.lookup(imsi), Some(mme_ue_id), "step 5: IMSI registry correct");
}

#[test]
fn phase3_wrong_res_rejected() {
    let imsi = 234_15_0000000001_u64;
    let mut mme = Mme::new().with_phase3([127, 0, 0, 1]);
    mme.hss.provision(imsi, AuthKey(K), OpCode(OPC));
    let (responses, _) = mme.process_s1ap(initial_ue(1, imsi));
    let mme_ue_id = match &responses[0] {
        S1apMessage::DownlinkNasTransport(m) => m.mme_ue_s1ap_id,
        _ => panic!(),
    };
    let wrong_res = [0xAAu8; 8];
    let (responses, events) = mme.process_s1ap(uplink(1, mme_ue_id, encode_auth_response(&wrong_res)));
    assert!(responses.is_empty(), "wrong RES must produce no S1AP response");
    assert!(events.is_empty(), "wrong RES must produce no UPF events");
}

#[test]
fn phase3_detach_releases_teid_for_reuse() {
    let imsi = 234_15_5550001_u64;
    let upf_addr = [127u8, 0, 0, 1];
    let enb_id = 0x0002_0001_u32;
    let mut mme = Mme::new().with_phase3(upf_addr);
    mme.hss.provision(imsi, AuthKey(K), OpCode(OPC));

    let (mme_ue_id, _) = attach_through_auth(&mut mme, enb_id, imsi);
    let (_, events) = mme.process_s1ap(uplink(enb_id, mme_ue_id, encode_sec_mode_complete()));
    let ul_teid = match &events[0] {
        UpfEvent::CreateSession { ul_teid, .. } => *ul_teid,
        _ => panic!("expected CreateSession"),
    };
    assert_eq!(mme.free_teid_count(), 0, "freshly allocated TEID is not free");

    let (responses, events) = mme.process_s1ap(uplink(enb_id, mme_ue_id, encode_detach_request(1, false, 0, &[0; 10])));
    assert_eq!(responses.len(), 2, "expect DetachAccept (now protected) + UeContextReleaseCommand");
    assert!(events.is_empty(), "no UpfEvent until UeContextReleaseComplete");
    assert!(matches!(responses[1], S1apMessage::UeContextReleaseCommand { .. }));

    let (responses, events) = mme.process_s1ap(S1apMessage::UeContextReleaseComplete(UeContextReleaseComplete {
        mme_ue_s1ap_id: mme_ue_id,
        enb_ue_s1ap_id: enb_id,
    }));
    assert!(responses.is_empty());
    match &events[0] {
        UpfEvent::RemoveSession { ul_teid: t } => assert_eq!(*t, ul_teid),
        _ => panic!("expected RemoveSession"),
    }
    assert_eq!(mme.subscriber_count(), 0);
    assert_eq!(mme.free_teid_count(), 1, "TEID returned to the free list");

    let imsi2 = 234_15_5550002_u64;
    mme.hss.provision(imsi2, AuthKey(K), OpCode(OPC));
    let (mme_ue_id2, _) = attach_through_auth(&mut mme, enb_id + 1, imsi2);
    let (_, events2) = mme.process_s1ap(uplink(enb_id + 1, mme_ue_id2, encode_sec_mode_complete()));
    let ul_teid2 = match &events2[0] {
        UpfEvent::CreateSession { ul_teid, .. } => *ul_teid,
        _ => panic!("expected CreateSession"),
    };
    assert_eq!(ul_teid2, ul_teid, "second subscriber recycles first subscriber's freed TEID");
    assert_eq!(mme.free_teid_count(), 0);
}

#[test]
fn phase3_attach_complete_via_protected_nas_envelope() {
    let imsi = 234_15_0007770001_u64;
    let upf_addr = [127u8, 0, 0, 1];
    let enb_id = 0x0003_0001_u32;
    let mut mme = Mme::new().with_phase3(upf_addr);
    mme.hss.provision(imsi, AuthKey(K), OpCode(OPC));
    let (mme_ue_id, av) = attach_through_auth(&mut mme, enb_id, imsi);
    mme.process_s1ap(uplink(enb_id, mme_ue_id, encode_sec_mode_complete()));

    let mut sqn_xor_ak = [0u8; 6];
    sqn_xor_ak.copy_from_slice(&av.ak);
    let kasme = derive_kasme(&av.ck, &av.ik, &[0, 0, 0], &sqn_xor_ak);
    let (k_enc, k_int) = derive_nas_keys(&kasme, NasEeaAlgorithm::Eea2, NasEiaAlgorithm::Eia2);
    let attach_complete_plain = encode_attach_complete();
    let count = 0u32;
    let mut ciphertext = attach_complete_plain.to_vec();
    eea2_apply(&k_enc, count, NAS_BEARER, Direction::Uplink, &mut ciphertext);
    let mac_i = eia2_compute_mac(&k_int, count, NAS_BEARER, Direction::Uplink, &ciphertext);
    let mut envelope = vec![(SHT_INTEGRITY_CIPHERED << 4) | NAS_EPS_MM_PD];
    envelope.extend_from_slice(&mac_i);
    envelope.push(count as u8);
    envelope.extend_from_slice(&ciphertext);

    let (responses, events) = mme.process_s1ap(uplink(enb_id, mme_ue_id, envelope));
    assert!(responses.is_empty(), "AttachComplete is silent, protected or not");
    assert!(events.is_empty());
    assert_eq!(mme.subscriber_count(), 1, "subscriber should still be online after protected AttachComplete");
    // The MME accepted uplink COUNT 0 and now expects 1.
    let ctx = mme.world.get_attach_context(mme_ue_id).unwrap();
    assert_eq!(ctx.nas_security.unwrap().ul_count(), 1);
}

#[test]
fn phase2_security_mode_complete_sends_protected_attach_accept() {
    let imsi = 234_15_0000000042_u64;
    let mut mme = Mme::new();
    mme.hss.provision(imsi, AuthKey(K), OpCode(OPC));
    let (mme_ue_id, av) = attach_through_auth(&mut mme, 9, imsi);
    let (responses, events) = mme.process_s1ap(uplink(9, mme_ue_id, encode_sec_mode_complete()));
    assert!(events.is_empty(), "phase 2 raises no UPF event");
    let envelope = match &responses[0] {
        S1apMessage::DownlinkNasTransport(m) => m.nas_pdu.clone(),
        _ => panic!("expected DownlinkNasTransport"),
    };
    let kasme = derive_kasme(&av.ck, &av.ik, &[0, 0, 0], &av.ak);
    let (k_enc, k_int) = derive_nas_keys(&kasme, NasEeaAlgorithm::Eea2, NasEiaAlgorithm::Eia2);
    let mac_i: [u8; 4] = envelope[1..5].try_into().unwrap();
    let mut ciphertext = envelope[6..].to_vec();
    assert!(eia2_verify_mac(&k_int, 0, NAS_BEARER, Direction::Downlink, &ciphertext, &mac_i));
    eea2_apply(&k_enc, 0, NAS_BEARER, Direction::Downlink, &mut ciphertext);
    match decode_nas(&ciphertext).unwrap() {
        NasPdu::AttachAccept(d) => {
            assert_eq!(d.attach_result, 1);
            assert_eq!(d.t3412_value, 0x54);
            assert_eq!(d.ip_address, Some([0, 0, 0, 0]));
        },
        other => panic!("expected AttachAccept, got {:?}", other),
    }
}

#[test]
fn unknown_subscriber_attach_is_ignored() {
    let mut mme = Mme::new();
    let (responses, events) = mme.process_s1ap(initial_ue(1, 234_15_0000000099));
    assert!(responses.is_empty());
    assert!(events.is_empty());
    assert_eq!(mme.subscriber_count(), 0);
}

#[test]
fn protected_pdu_without_security_context_is_dropped() {
    let mut mme = Mme::new();
    mme.world.insert_attach_context(3, context(1, 3, None));
    let (responses, events) = mme.process_s1ap(uplink(1, 3, vec![0x27, 0, 0, 0, 0, 0, 0x43]));
    assert!(responses.is_empty());
    assert!(events.is_empty());
}

#[test]
fn release_complete_without_tunnel_despawns_quietly() {
    let mut mme = Mme::new();
    let e = mme.world.spawn();
    mme.world.insert_attach_context(e, context(77, e, None));
    mme.registry.register(77, e);
    let (responses, events) =
        mme.process_s1ap(S1apMessage::UeContextReleaseComplete(UeContextReleaseComplete { mme_ue_s1ap_id: e, enb_ue_s1ap_id: 1 }));
    assert!(responses.is_empty());
    assert!(events.is_empty());
    assert_eq!(mme.registry.lookup(77), None);
    assert_eq!(mme.subscriber_count(), 0);
    assert_eq!(mme.free_teid_count(), 0);
}
