use std::collections::HashMap;

use midn::amf::Amf;
use midn::core_ecs::components::{AuthState as CoreAuthState, ImsiComponent};
use midn::core_ecs::registry::ImsiRegistry as CoreImsiRegistry;
use midn::core_ecs::world::{CoreWorld, EntityId};
use midn::ecs::components::{AuthFailReason, AuthState, Nas5gsAkaContext, SecurityContext, TunnelComponent};
use midn::ecs::registry::ImsiRegistry;
use midn::ecs::world::World;
use midn::proto::nas::ie::{NasEeaAlgorithm, NasEiaAlgorithm};
use midn::proto::nas::security::NasSecurityContext;
use midn::userplane::gtp_dl_xdp::{ip_header_checksum, midn_gtp_dl_xdp, process_dl};
use midn::userplane::gtp_xdp::{midn_gtp_xdp, process};
use midn::userplane::maps::{DlTunnelConfig, PdnGwConfig, XdpRouteEntry, XdpVerdict, XDP_PASS, XDP_REDIRECT, XDP_TX};

// ── midn-ecs components ──────────────────────────────────────────────────────

#[test]
fn clear_pending_challenge_zeros_only_challenge_fields() {
    let mut ctx = SecurityContext::new_empty();
    ctx.pending_rand = [0xAA; 16];
    ctx.ck = [0xCC; 16];
    ctx.clear_pending_challenge();
    assert_eq!(ctx.pending_rand, [0u8; 16]);
    assert_eq!(ctx.ck, [0xCC; 16]);
}

#[test]
fn clear_post_kasme_zeros_only_kasme_inputs() {
    let mut ctx = SecurityContext::new_empty();
    ctx.ck = [0xCC; 16];
    ctx.pending_rand = [0xAA; 16];
    ctx.clear_post_kasme();
    assert_eq!(ctx.ck, [0u8; 16]);
    assert_eq!(ctx.pending_rand, [0xAA; 16]);
}

#[test]
fn clear_post_kasme_wipes_ik_and_ak_keeps_plmn() {
    let mut ctx = SecurityContext::new_empty();
    ctx.ik = [0x11; 16];
    ctx.ak = [0x22; 6];
    ctx.plmn = [1, 2, 3];
    ctx.pending_xres = [0x33; 8];
    ctx.clear_post_kasme();
    assert_eq!(ctx.ik, [0u8; 16]);
    assert_eq!(ctx.ak, [0u8; 6]);
    assert_eq!(ctx.plmn, [1, 2, 3]);
    assert_eq!(ctx.pending_xres, [0x33; 8]);
    ctx.clear_pending_challenge();
    assert_eq!(ctx.pending_xres, [0u8; 8]);
}

// ── midn-ecs registry and world ──────────────────────────────────────────────

#[test]
fn register_lookup_deregister() {
    let mut reg = ImsiRegistry::new();
    reg.register(1, 0);
    assert_eq!(reg.lookup(1), Some(0));
    reg.deregister(1);
    assert!(reg.lookup(1).is_none());
}

#[test]
fn ecs_registry_reports_previous_entity() {
    let mut reg = ImsiRegistry::new();
    assert_eq!(reg.register(5, 1), None);
    assert_eq!(reg.register(5, 2), Some(1));
    assert_eq!(reg.len(), 1);
    assert_eq!(reg.deregister(5), Some(2));
    assert!(reg.is_empty());
}

#[test]
fn spawn_despawn_recycles_id() {
    let mut w = World::new();
    let e1 = w.spawn();
    w.despawn(e1);
    let e2 = w.spawn();
    assert_eq!(e1, e2);
}

#[test]
fn security_context_zeroize_on_despawn() {
    let mut w = World::new();
    let e = w.spawn();
    let mut ctx = SecurityContext::new_empty();
    ctx.ck = [0xAA; 16];
    w.insert_security(e, ctx);
    w.despawn(e);
    assert!(w.security(e).is_none());
}

#[test]
fn dead_id_ops_are_safe_noops() {
    let mut w = World::new();
    assert!(w.identity(999).is_none());
    w.despawn(999);
}

#[test]
fn spawn_gives_entities_an_empty_5g_aka_context_by_default() {
    let mut w = World::new();
    let e = w.spawn();
    assert!(w.security5g(e).is_some(), "security5g is mandatory per-entity, mirrors security");
    assert_eq!(w.security5g(e).unwrap().pending_xres_star, [0u8; 16]);
}

#[test]
fn insert_and_read_security5g() {
    let mut w = World::new();
    let e = w.spawn();
    let mut ctx = Nas5gsAkaContext::new_empty();
    ctx.ck = [0xBB; 16];
    w.insert_security5g(e, ctx);
    assert_eq!(w.security5g(e).unwrap().ck, [0xBB; 16]);
}

#[test]
fn security5g_zeroizes_on_despawn() {
    let mut w = World::new();
    let e = w.spawn();
    let mut ctx = Nas5gsAkaContext::new_empty();
    ctx.ck = [0xBB; 16];
    w.insert_security5g(e, ctx);
    w.despawn(e);
    let e2 = w.spawn();
    assert_eq!(e, e2, "recycled id");
    assert_eq!(w.security5g(e2).unwrap().ck, [0u8; 16], "despawn must reset security5g");
}

#[test]
fn nas_security5g_is_none_until_set() {
    let mut w = World::new();
    let e = w.spawn();
    assert!(w.nas_security5g(e).is_none());
}

#[test]
fn dead_id_5g_ops_are_safe_noops() {
    let w = World::new();
    assert!(w.security5g(999).is_none());
    assert!(w.nas_security5g(999).is_none());
}

#[test]
fn lte_and_5g_security_slots_are_independent() {
    let mut w = World::new();
    let e = w.spawn();
    let mut lte_ctx = SecurityContext::new_empty();
    lte_ctx.ck = [0x11; 16];
    w.insert_security(e, lte_ctx);
    let mut fiveg_ctx = Nas5gsAkaContext::new_empty();
    fiveg_ctx.ck = [0x22; 16];
    w.insert_security5g(e, fiveg_ctx);
    assert_eq!(w.security(e).unwrap().ck, [0x11; 16]);
    assert_eq!(w.security5g(e).unwrap().ck, [0x22; 16]);
}

#[test]
fn auth_state_and_authenticated_count() {
    let mut w = World::new();
    let a = w.spawn();
    let b = w.spawn();
    assert_eq!(w.auth_state(a), Some(AuthState::Unauthenticated));
    w.set_auth_state(a, AuthState::Authenticated);
    w.set_auth_state(b, AuthState::Failed(AuthFailReason::ResMismatch));
    assert!(w.is_authenticated(a));
    assert!(!w.is_authenticated(b));
    assert_eq!(w.authenticated_count(), 1);
    assert_eq!(w.subscriber_count(), 2);
    w.despawn(a);
    assert_eq!(w.authenticated_count(), 0);
    assert_eq!(w.subscriber_count(), 1);
    assert_eq!(w.auth_state(a), None);
}

#[test]
fn nas_security_and_tunnel_slots() {
    let mut w = World::new();
    let e = w.spawn();
    assert!(w.nas_security(e).is_none());
    assert!(w.tunnel(e).is_none());
    w.set_nas_security(e, NasSecurityContext::new(&[1u8; 32], NasEeaAlgorithm::Eea2, NasEiaAlgorithm::Eia2));
    w.set_tunnel(e, TunnelComponent { ul_teid: 10, dl_teid: 0, enb_addr: [0; 4] });
    w.tunnel_mut(e).unwrap().dl_teid = 77;
    assert_eq!(w.tunnel(e).unwrap().dl_teid, 77);
    assert_eq!(w.nas_security_mut(e).unwrap().dl_count(), 0);
    w.security_mut(e).unwrap().sqn_used = [0, 0, 0, 0, 0, 9];
    assert_eq!(w.security(e).unwrap().sqn_used, [0, 0, 0, 0, 0, 9]);
    w.despawn(e);
    assert!(w.tunnel_mut(e).is_none());
    assert!(!w.is_live(e));
}

// ── midn-core ecs ────────────────────────────────────────────────────────────

#[test]
fn register_and_lookup() {
    let mut reg = CoreImsiRegistry::new();
    let imsi = 234_15_1234567890_u64;
    let entity = EntityId(0);
    assert!(reg.register(imsi, entity).is_none());
    assert_eq!(reg.lookup(imsi), Some(entity));
    assert_eq!(reg.len(), 1);
}

#[test]
fn deregister_removes_entry() {
    let mut reg = CoreImsiRegistry::new();
    let imsi = 234_15_0000000001_u64;
    reg.register(imsi, EntityId(42));
    assert_eq!(reg.deregister(imsi), Some(EntityId(42)));
    assert!(reg.lookup(imsi).is_none());
}

#[test]
fn re_register_returns_old_entity() {
    let mut reg = CoreImsiRegistry::new();
    let imsi = 234_15_0000000002_u64;
    reg.register(imsi, EntityId(1));
    let old = reg.register(imsi, EntityId(2));
    assert_eq!(old, Some(EntityId(1)));
    assert_eq!(reg.lookup(imsi), Some(EntityId(2)));
}

#[test]
fn spawn_and_despawn() {
    let mut world = CoreWorld::new();
    let e1 = world.spawn();
    let e2 = world.spawn();
    assert_ne!(e1, e2);
    world.imsi.insert(e1.0, ImsiComponent(123456789012345));
    assert_eq!(world.len(), 1);
    world.despawn(e1);
    assert_eq!(world.len(), 0);
    let e3 = world.spawn();
    assert_eq!(e3, e1);
}

#[test]
fn core_world_component_setters() {
    let mut world = CoreWorld::new();
    let e = world.spawn();
    world.insert_imsi(e, ImsiComponent(901_700_000_000_001));
    world.set_auth(e, CoreAuthState::Authenticated);
    assert_eq!(world.len(), 1);
    assert_eq!(world.imsi.get(&e.0), Some(&ImsiComponent(901_700_000_000_001)));
    assert_eq!(world.auth.get(&e.0), Some(&CoreAuthState::Authenticated));
    world.despawn(e);
    assert!(world.is_empty());
    assert!(world.auth.get(&e.0).is_none());
}

#[test]
fn core_registry_len_follows_register_and_deregister() {
    let mut reg = CoreImsiRegistry::new();
    assert_eq!(reg.register(1, EntityId(1)), None);
    assert_eq!(reg.len(), 1);
    assert_eq!(reg.register(1, EntityId(2)), Some(EntityId(1)));
    assert_eq!(reg.len(), 1);
    assert_eq!(reg.deregister(1), Some(EntityId(2)));
    assert_eq!(reg.len(), 0);
    assert_eq!(reg.deregister(1), None);
    assert!(reg.is_empty());
}

// ── AMF ──────────────────────────────────────────────────────────────────────

#[test]
fn new_amf_has_no_subscribers() {
    let amf = Amf::new();
    assert_eq!(amf.subscriber_count(), 0);
}

#[test]
fn amf_hss_is_its_own() {
    let mut amf = Amf::new();
    amf.hss_mut().provision_hex(901_700_000_001, "465b5ce8b199b49faa5f0a2ee238a6bc", "cd63cb71954a9f4e48a5994e37a02baf").unwrap();
    assert!(amf.hss.contains(901_700_000_001));
    assert_eq!(amf.subscriber_count(), 0);
}

// ── User plane ───────────────────────────────────────────────────────────────

fn ipv4_udp_gtp_frame(dst_port: u16, msg_type: u8, flags: u8, teid: u32, inner: &[u8]) -> Vec<u8> {
    let mut f = vec![0u8; 12];
    f.extend_from_slice(&[0x08, 0x00]);
    let mut ip = vec![0x45, 0, 0, 0, 0, 0, 0, 0, 64, 17, 0, 0, 10, 0, 0, 1, 10, 0, 0, 2];
    ip[2] = 0;
    f.append(&mut ip);
    f.extend_from_slice(&[0x08, 0x68]);
    f.extend_from_slice(&dst_port.to_be_bytes());
    f.extend_from_slice(&[0, 0, 0, 0]);
    f.push(flags);
    f.push(msg_type);
    f.extend_from_slice(&(inner.len() as u16).to_be_bytes());
    f.extend_from_slice(&teid.to_be_bytes());
    if flags & 0x07 != 0 {
        f.extend_from_slice(&[0, 0, 0, 0]);
    }
    f.extend_from_slice(inner);
    f
}

fn route(dl_teid: u32) -> XdpRouteEntry {
    XdpRouteEntry { dl_teid, enb_ip: [192, 168, 1, 100], enb_port: 2152, _pad: [0; 2] }
}

fn gw() -> PdnGwConfig {
    PdnGwConfig { gw_mac: [1, 2, 3, 4, 5, 6], nic_mac: [7, 8, 9, 10, 11, 12], _pad: [0; 4] }
}

#[test]
fn ul_known_teid_is_stripped_and_transmitted() {
    let inner = [0x45u8, 0x00, 0x00, 0x14, 0xAA];
    let frame = ipv4_udp_gtp_frame(2152, 0xFF, 0x30, 0x0001_0000, &inner);
    let mut routes = HashMap::new();
    routes.insert(0x0001_0000u32, route(0));
    let v = process(&frame, &routes, Some(gw())).unwrap();
    assert_eq!(v.action(), XDP_TX);
    match v {
        XdpVerdict::Tx(out) => {
            assert_eq!(&out[..6], &[1, 2, 3, 4, 5, 6]);
            assert_eq!(&out[6..12], &[7, 8, 9, 10, 11, 12]);
            assert_eq!(&out[12..14], &[0x08, 0x00]);
            assert_eq!(&out[14..], &inner);
        },
        _ => panic!("expected XDP_TX"),
    }
}

#[test]
fn ul_optional_gtp_fields_are_stripped_too() {
    let inner = [0x45u8, 0x01];
    let frame = ipv4_udp_gtp_frame(2152, 0xFF, 0x32, 9, &inner);
    let mut routes = HashMap::new();
    routes.insert(9u32, route(0));
    match process(&frame, &routes, Some(gw())).unwrap() {
        XdpVerdict::Tx(out) => assert_eq!(&out[14..], &inner),
        _ => panic!("expected XDP_TX"),
    }
}

#[test]
fn ul_passes_what_it_does_not_serve() {
    let mut routes = HashMap::new();
    routes.insert(5u32, route(0));
    let unknown_teid = ipv4_udp_gtp_frame(2152, 0xFF, 0x30, 6, &[0x45]);
    assert_eq!(process(&unknown_teid, &routes, Some(gw())).unwrap().action(), XDP_PASS);
    let echo = ipv4_udp_gtp_frame(2152, 0x01, 0x30, 5, &[]);
    assert_eq!(process(&echo, &routes, Some(gw())).unwrap().action(), XDP_PASS);
    let other_port = ipv4_udp_gtp_frame(53, 0xFF, 0x30, 5, &[0x45]);
    assert_eq!(process(&other_port, &routes, Some(gw())).unwrap().action(), XDP_PASS);
    let known = ipv4_udp_gtp_frame(2152, 0xFF, 0x30, 5, &[0x45]);
    assert_eq!(process(&known, &routes, None).unwrap().action(), XDP_PASS, "no gateway configured yet");
    let mut arp = known.clone();
    arp[12] = 0x08;
    arp[13] = 0x06;
    assert_eq!(process(&arp, &routes, Some(gw())).unwrap().action(), XDP_PASS);
}

#[test]
fn ul_truncated_frame_is_a_parse_fault_passed_by_the_program() {
    let routes = HashMap::new();
    assert!(process(&[0u8; 10], &routes, Some(gw())).is_err());
    assert_eq!(midn_gtp_xdp(&[0u8; 10], &routes, Some(gw())).action(), XDP_PASS);
}

fn plain_ipv4_frame(dst: [u8; 4], payload_len: usize) -> Vec<u8> {
    let mut f = vec![0xEEu8; 12];
    f.extend_from_slice(&[0x08, 0x00]);
    let mut ip = vec![0x45, 0, 0, 0, 0, 0, 0, 0, 64, 6, 0, 0, 8, 8, 8, 8];
    ip.extend_from_slice(&dst);
    f.append(&mut ip);
    f.extend(std::iter::repeat(0x5A).take(payload_len));
    f
}

fn dl_cfg() -> DlTunnelConfig {
    DlTunnelConfig { eth_dst_mac: [0xA; 6], eth_src_mac: [0xB; 6], upf_ip: [10, 0, 0, 9], redirect_ifindex: 4 }
}

fn ue_key(ip: [u8; 4]) -> u32 {
    u32::from_be_bytes(ip)
}

#[test]
fn dl_known_ue_is_tunnelled_toward_the_enodeb() {
    let ue_ip = [10, 45, 0, 2];
    let frame = plain_ipv4_frame(ue_ip, 10);
    let mut routes = HashMap::new();
    routes.insert(ue_key(ue_ip), route(0xBEEF_0001));
    let v = process_dl(&frame, &routes, Some(dl_cfg())).unwrap();
    assert_eq!(v.action(), XDP_REDIRECT);
    let inner_len = frame.len() - 14;
    match v {
        XdpVerdict::Redirect { ifindex, frame: out } => {
            assert_eq!(ifindex, 4);
            assert_eq!(out.len(), 50 + inner_len);
            assert_eq!(&out[..6], &[0xA; 6]);
            assert_eq!(&out[12..14], &[0x08, 0x00]);
            // Outer IPv4.
            assert_eq!(out[14], 0x45);
            assert_eq!(u16::from_be_bytes([out[16], out[17]]) as usize, 36 + inner_len);
            assert_eq!(&out[20..22], &[0x40, 0x00]);
            assert_eq!(out[22], 64);
            assert_eq!(out[23], 17);
            assert_eq!(&out[26..30], &[10, 0, 0, 9]);
            assert_eq!(&out[30..34], &[192, 168, 1, 100]);
            // The header checksum verifies.
            let mut sum: u32 = 0;
            for i in 0..10 {
                sum += u16::from_be_bytes([out[14 + 2 * i], out[15 + 2 * i]]) as u32;
            }
            while sum > 0xFFFF {
                sum = (sum & 0xFFFF) + (sum >> 16);
            }
            assert_eq!(sum, 0xFFFF);
            // UDP.
            assert_eq!(&out[34..36], &2152u16.to_be_bytes());
            assert_eq!(&out[36..38], &2152u16.to_be_bytes());
            assert_eq!(u16::from_be_bytes([out[38], out[39]]) as usize, 16 + inner_len);
            assert_eq!(&out[40..42], &[0, 0]);
            // GTP-U.
            assert_eq!(&out[42..44], &[0x30, 0xFF]);
            assert_eq!(u16::from_be_bytes([out[44], out[45]]) as usize, inner_len);
            assert_eq!(&out[46..50], &0xBEEF_0001u32.to_be_bytes());
            assert_eq!(&out[50..], &frame[14..]);
        },
        _ => panic!("expected XDP_REDIRECT"),
    }
}

#[test]
fn dl_placeholder_route_unknown_ue_and_no_config_pass() {
    let ue_ip = [10, 45, 0, 2];
    let frame = plain_ipv4_frame(ue_ip, 4);
    let mut routes = HashMap::new();
    routes.insert(ue_key(ue_ip), route(0));
    assert_eq!(process_dl(&frame, &routes, Some(dl_cfg())).unwrap().action(), XDP_PASS, "placeholder route");
    routes.insert(ue_key(ue_ip), route(7));
    assert_eq!(process_dl(&frame, &routes, None).unwrap().action(), XDP_PASS, "no tunnel configuration");
    let stranger = plain_ipv4_frame([10, 45, 0, 3], 4);
    assert_eq!(process_dl(&stranger, &routes, Some(dl_cfg())).unwrap().action(), XDP_PASS);
    assert!(process_dl(&frame[..30], &routes, Some(dl_cfg())).is_err());
    assert_eq!(midn_gtp_dl_xdp(&frame[..30], &routes, Some(dl_cfg())).action(), XDP_PASS);
}

#[test]
fn ip_header_checksum_rfc1071_example() {
    // A classic IPv4 header; its checksum field (bytes 10-11) is zeroed.
    let h: [u8; 20] = [
        0x45, 0x00, 0x00, 0x73, 0x00, 0x00, 0x40, 0x00, 0x40, 0x11, 0x00, 0x00, 0xc0, 0xa8, 0x00, 0x01, 0xc0, 0xa8,
        0x00, 0xc7,
    ];
    assert_eq!(ip_header_checksum(&h), 0xb861);
}

#[test]
fn dl_outer_ip_header_checksum_verifies_at_the_receiver() {
    let mut routes: HashMap<u32, XdpRouteEntry> = HashMap::new();
    let ue = [10u8, 45, 0, 7];
    routes.insert(ue_key(ue), route(0x0102_0304));
    let frame = plain_ipv4_frame(ue, 40);
    let out = match process_dl(&frame, &routes, Some(dl_cfg())) {
        Ok(XdpVerdict::Redirect { frame, .. }) => frame,
        _ => panic!("expected a redirect"),
    };
    // Outer IPv4 header: bytes 14..34. Summing its ten words with
    // end-around carries gives 0xFFFF.
    let mut sum: u32 = 0;
    for i in 0..10 {
        sum += u16::from_be_bytes([out[14 + 2 * i], out[15 + 2 * i]]) as u32;
    }
    sum = (sum & 0xFFFF) + (sum >> 16);
    sum = (sum & 0xFFFF) + (sum >> 16);
    assert_eq!(sum, 0xFFFF);
}
