use midn::proto::nas::security::{eea2_apply, eia2_compute_mac, eia2_verify_mac, Direction, NAS_BEARER};
use midn::proto::nas5gs::codec::{
    decode_nas5gs, decode_protected, encode_auth_reject, encode_auth_request, encode_auth_response,
    encode_deregistration_accept, encode_deregistration_request, encode_identity_request,
    encode_identity_response_guti, encode_identity_response_pei, encode_identity_response_suci, encode_protected,
    encode_registration_accept, encode_registration_complete, encode_registration_reject,
    encode_registration_request, encode_sec_mode_cmd, encode_sec_mode_complete, Nas5gsPdu, IDTYPE_5G_GUTI,
    IDTYPE_SUCI, MT_REGISTRATION_REQUEST, NAS5GS_MM_EPD, NAS5GS_SHT_INTEGRITY_CIPHERED,
};
use midn::proto::nas5gs::messages::{AuthenticationRequest, AuthenticationResponse, Suci};
use midn::proto::nas5gs::security::{derive_nas_keys, Nas5gsSecurityContext};

fn test_guti() -> [u8; 11] {
    let mut g = [0xABu8; 11];
    g[0] = (g[0] & 0xF8) | IDTYPE_5G_GUTI;
    g
}

fn k() -> [u8; 16] {
    [0x2Bu8; 16]
}

fn test_ctx() -> Nas5gsSecurityContext {
    Nas5gsSecurityContext::new_from_keys([0x2Bu8; 16], [0x2Bu8; 16], 2, 2)
}

// ── messages ─────────────────────────────────────────────────────────────────

#[test]
fn authentication_request_fields() {
    let req = AuthenticationRequest { ng_ksi: 0x03, rand: [0x11; 16], autn: [0x22; 16] };
    assert_eq!(req.rand[0], 0x11);
    assert_eq!(req.autn[0], 0x22);
}

#[test]
fn suci_null_scheme_shape() {
    let suci = Suci {
        mcc: [2, 3, 4],
        mnc: [1, 5, 0xF],
        routing_indicator: 0,
        protection_scheme: 0,
        home_network_pki: 0,
        msin: [0x12, 0x34, 0x56, 0x78, 0x90],
    };
    assert_eq!(suci.protection_scheme, 0, "only the null scheme is modeled");
    assert_eq!(suci.msin.len(), 5);
}

#[test]
fn authentication_response_res_star_is_16_bytes() {
    let res = AuthenticationResponse { res_star: [0xAA; 16] };
    assert_eq!(res.res_star.len(), 16, "5G-AKA RES* is wider than legacy 8-byte RES");
}

// ── codec ────────────────────────────────────────────────────────────────────

#[test]
fn registration_request_round_trip_with_guti() {
    let guti = test_guti();
    let encoded = encode_registration_request(1, 3, Some(&guti), 0xF0F0);
    let decoded = decode_nas5gs(&encoded).expect("should decode");
    match decoded {
        Nas5gsPdu::RegistrationRequest(d) => {
            assert_eq!(d.registration_type, 1);
            assert_eq!(d.ng_ksi, 3);
            assert_eq!(d.guti, Some(guti));
            assert_eq!(d.ue_security_cap, 0xF0F0);
        },
        _ => panic!("wrong message type"),
    }
}

#[test]
fn registration_request_round_trip_without_guti() {
    let encoded = encode_registration_request(1, 0, None, 0x00C0);
    let decoded = decode_nas5gs(&encoded).expect("should decode");
    match decoded {
        Nas5gsPdu::RegistrationRequest(d) => assert_eq!(d.guti, None),
        _ => panic!("wrong message type"),
    }
}

#[test]
fn identity_request_round_trip() {
    let encoded = encode_identity_request(IDTYPE_SUCI);
    let decoded = decode_nas5gs(&encoded).expect("should decode");
    match decoded {
        Nas5gsPdu::IdentityRequest { identity_type } => assert_eq!(identity_type, IDTYPE_SUCI),
        _ => panic!("wrong message type"),
    }
}

#[test]
fn identity_response_suci_round_trip() {
    let suci = Suci {
        mcc: [2, 3, 4],
        mnc: [1, 5, 0xF],
        routing_indicator: 0x1234,
        protection_scheme: 0,
        home_network_pki: 0,
        msin: [0x12, 0x34, 0x56, 0x78, 0x90],
    };
    let encoded = encode_identity_response_suci(&suci);
    let decoded = decode_nas5gs(&encoded).expect("should decode");
    match decoded {
        Nas5gsPdu::IdentityResponse(d) => {
            assert_eq!(d.suci, Some(suci));
            assert_eq!(d.guti, None);
            assert!(d.pei.is_none());
        },
        _ => panic!("wrong message type"),
    }
}

#[test]
fn identity_response_guti_round_trip() {
    let guti = test_guti();
    let encoded = encode_identity_response_guti(&guti);
    let decoded = decode_nas5gs(&encoded).expect("should decode");
    match decoded {
        Nas5gsPdu::IdentityResponse(d) => assert_eq!(d.guti, Some(guti)),
        _ => panic!("wrong message type"),
    }
}

#[test]
fn identity_response_pei_round_trip() {
    let pei = [0x35u8, 0x41, 0x03, 0x71, 0x76, 0x89, 0x02, 0x10];
    let encoded = encode_identity_response_pei(&pei);
    let decoded = decode_nas5gs(&encoded).expect("should decode");
    match decoded {
        Nas5gsPdu::IdentityResponse(d) => assert_eq!(d.pei.as_deref(), Some(&pei[..])),
        _ => panic!("wrong message type"),
    }
}

#[test]
fn codec_auth_request_round_trip() {
    let rand = [0x11u8; 16];
    let autn = [0x22u8; 16];
    let encoded = encode_auth_request(5, &rand, &autn);
    let decoded = decode_nas5gs(&encoded).expect("should decode");
    match decoded {
        Nas5gsPdu::AuthenticationRequest(d) => {
            assert_eq!(d.ng_ksi, 5);
            assert_eq!(d.rand, rand);
            assert_eq!(d.autn, autn);
        },
        _ => panic!("wrong message type"),
    }
}

#[test]
fn auth_response_round_trip_res_star_is_16_bytes() {
    let res_star = [0xAAu8; 16];
    let encoded = encode_auth_response(&res_star);
    let decoded = decode_nas5gs(&encoded).expect("should decode");
    match decoded {
        Nas5gsPdu::AuthenticationResponse(d) => assert_eq!(d.res_star, res_star),
        _ => panic!("wrong message type"),
    }
}

#[test]
fn auth_reject_decode() {
    let encoded = encode_auth_reject();
    let decoded = decode_nas5gs(&encoded).expect("should decode");
    assert!(matches!(decoded, Nas5gsPdu::AuthenticationReject));
}

#[test]
fn codec_sec_mode_command_round_trip() {
    let encoded = encode_sec_mode_cmd(2, 2, 0xF0F0);
    let decoded = decode_nas5gs(&encoded).expect("should decode");
    match decoded {
        Nas5gsPdu::SecurityModeCommand(d) => {
            assert_eq!(d.nas_cipher_alg, 2);
            assert_eq!(d.nas_integrity_alg, 2);
            assert_eq!(d.replayed_ue_sec_cap, 0xF0F0);
        },
        _ => panic!("wrong message type"),
    }
}

#[test]
fn sec_mode_complete_decode() {
    let encoded = encode_sec_mode_complete();
    let decoded = decode_nas5gs(&encoded).expect("should decode");
    assert!(matches!(decoded, Nas5gsPdu::SecurityModeComplete));
}

#[test]
fn registration_accept_round_trip_with_tai_list() {
    let guti = test_guti();
    let tai_list = [[0x00, 0x01, 0x02, 0x00, 0x10, 0x01], [0x00, 0x01, 0x02, 0x00, 0x10, 0x02]];
    let encoded = encode_registration_accept(1, &guti, &tai_list);
    let decoded = decode_nas5gs(&encoded).expect("should decode");
    match decoded {
        Nas5gsPdu::RegistrationAccept(d) => {
            assert_eq!(d.registration_result, 1);
            assert_eq!(d.guti, guti);
            assert_eq!(d.tai_list, tai_list.to_vec());
        },
        _ => panic!("wrong message type"),
    }
}

#[test]
fn registration_accept_round_trip_empty_tai_list() {
    let guti = test_guti();
    let encoded = encode_registration_accept(1, &guti, &[]);
    let decoded = decode_nas5gs(&encoded).expect("should decode");
    match decoded {
        Nas5gsPdu::RegistrationAccept(d) => assert!(d.tai_list.is_empty()),
        _ => panic!("wrong message type"),
    }
}

#[test]
fn registration_complete_decode() {
    let encoded = encode_registration_complete();
    let decoded = decode_nas5gs(&encoded).expect("should decode");
    assert!(matches!(decoded, Nas5gsPdu::RegistrationComplete));
}

#[test]
fn registration_reject_round_trip() {
    let encoded = encode_registration_reject(22);
    let decoded = decode_nas5gs(&encoded).expect("should decode");
    match decoded {
        Nas5gsPdu::RegistrationReject { cause } => assert_eq!(cause, 22),
        _ => panic!("wrong message type"),
    }
}

#[test]
fn deregistration_request_round_trip() {
    let encoded = encode_deregistration_request(true);
    let decoded = decode_nas5gs(&encoded).expect("should decode");
    match decoded {
        Nas5gsPdu::DeregistrationRequest { switch_off } => assert!(switch_off),
        _ => panic!("wrong message type"),
    }
}

#[test]
fn deregistration_accept_decode() {
    let encoded = encode_deregistration_accept();
    let decoded = decode_nas5gs(&encoded).expect("should decode");
    assert!(matches!(decoded, Nas5gsPdu::DeregistrationAccept));
}

#[test]
fn decode_rejects_wrong_epd() {
    let bad = [0x02u8, 0x00, 0x41];
    assert!(decode_nas5gs(&bad).is_err());
}

#[test]
fn decode_rejects_protected_sht() {
    let buf = [NAS5GS_MM_EPD, NAS5GS_SHT_INTEGRITY_CIPHERED, MT_REGISTRATION_REQUEST];
    assert!(decode_nas5gs(&buf).is_err());
}

#[test]
fn decode_rejects_too_short() {
    assert!(decode_nas5gs(&[NAS5GS_MM_EPD, 0]).is_err());
}

#[test]
fn registration_request_exact_header() {
    let encoded = encode_registration_request(1, 3, None, 0x00C0);
    assert_eq!(&encoded[..3], &[0x7E, 0x00, 0x41]);
}

#[test]
fn decode_protected_rejects_tampered_envelope() {
    let mut amf_ctx = test_ctx();
    let mut ue_ctx = test_ctx();
    let mut envelope = encode_protected(&mut amf_ctx, NAS5GS_SHT_INTEGRITY_CIPHERED, b"hello").to_vec();
    let last = envelope.len() - 1;
    envelope[last] ^= 0xFF;
    assert!(decode_protected(&mut ue_ctx, &envelope).is_none());
}

#[test]
fn decode_protected_rejects_a_downlink_envelope() {
    // `decode_protected` opens UE-to-AMF envelopes: an envelope protected
    // in the AMF-to-UE direction carries a MAC-I over the other DIRECTION
    // bit and does not verify.
    let mut amf_ctx = test_ctx();
    let mut ue_ctx = test_ctx();
    let envelope = encode_protected(&mut amf_ctx, NAS5GS_SHT_INTEGRITY_CIPHERED, &encode_registration_complete());
    assert!(decode_protected(&mut ue_ctx, &envelope).is_none());
}

#[test]
fn decode_protected_rejects_plain_sht() {
    let mut ctx = test_ctx();
    let plain = encode_registration_complete();
    assert!(decode_protected(&mut ctx, &plain).is_none(), "plain SHT must route to decode_nas5gs, not decode_protected");
}

#[test]
fn decode_protected_rejects_too_short() {
    let mut ctx = test_ctx();
    assert!(decode_protected(&mut ctx, &[NAS5GS_MM_EPD, NAS5GS_SHT_INTEGRITY_CIPHERED]).is_none());
}

#[test]
fn decode_protected_opens_an_uplink_envelope() {
    let mut amf_ctx = test_ctx();
    let plain = encode_registration_complete();
    let mut ciphertext = plain.clone();
    eea2_apply(&k(), 0, NAS_BEARER, Direction::Uplink, &mut ciphertext);
    let mac_i = eia2_compute_mac(&k(), 0, NAS_BEARER, Direction::Uplink, &ciphertext);
    let mut envelope = vec![NAS5GS_MM_EPD, NAS5GS_SHT_INTEGRITY_CIPHERED];
    envelope.extend_from_slice(&mac_i);
    envelope.push(0);
    envelope.extend_from_slice(&ciphertext);
    assert_eq!(decode_protected(&mut amf_ctx, &envelope), Some(plain));
    assert_eq!(amf_ctx.ul_count(), 1);
}

#[test]
fn encode_protected_envelope_layout() {
    let mut amf_ctx = test_ctx();
    let first = encode_protected(&mut amf_ctx, NAS5GS_SHT_INTEGRITY_CIPHERED, b"one");
    let second = encode_protected(&mut amf_ctx, NAS5GS_SHT_INTEGRITY_CIPHERED, b"two");
    assert_eq!(first[0], NAS5GS_MM_EPD);
    assert_eq!(first[1] & 0x0F, NAS5GS_SHT_INTEGRITY_CIPHERED);
    assert_eq!(first[6], 0, "sequence number of the first downlink COUNT");
    assert_eq!(second[6], 1);
    assert_ne!(first, second, "COUNT must advance between messages");
    assert_eq!(amf_ctx.dl_count(), 2);
}

// ── security ─────────────────────────────────────────────────────────────────

#[test]
fn context_protect_downlink_is_verifiable_independently() {
    let mut ctx = Nas5gsSecurityContext::new_from_keys(k(), k(), 2, 2);
    let plain = b"5GS RegistrationAccept goes here".to_vec();
    let protected = ctx.protect_downlink(&plain);
    assert_eq!(protected.count, 0);
    assert_eq!(ctx.dl_count(), 1, "dl_count must advance after protect");
    assert!(eia2_verify_mac(&k(), protected.count, NAS_BEARER, Direction::Downlink, &protected.payload, &protected.mac_i));
    let mut recovered = protected.payload.clone();
    eea2_apply(&k(), protected.count, NAS_BEARER, Direction::Downlink, &mut recovered);
    assert_eq!(recovered, plain);
}

#[test]
fn context_unprotect_uplink_round_trip() {
    let mut ctx = Nas5gsSecurityContext::new_from_keys(k(), k(), 2, 2);
    let plain = b"5GS AuthenticationResponse RES* goes here".to_vec();
    let count = 0u32;
    let mut ciphertext = plain.clone();
    eea2_apply(&k(), count, NAS_BEARER, Direction::Uplink, &mut ciphertext);
    let mac_i = eia2_compute_mac(&k(), count, NAS_BEARER, Direction::Uplink, &ciphertext);
    let recovered = ctx.unprotect_uplink(count as u8, mac_i, &ciphertext).expect("valid MAC should verify");
    assert_eq!(recovered, plain);
    assert_eq!(ctx.ul_count(), 1, "ul_count must advance after successful unprotect");
}

#[test]
fn context_unprotect_uplink_rejects_bad_mac() {
    let mut ctx = Nas5gsSecurityContext::new_from_keys(k(), k(), 2, 2);
    let plain = b"tampered message".to_vec();
    let mut ciphertext = plain.clone();
    eea2_apply(&k(), 0, NAS_BEARER, Direction::Uplink, &mut ciphertext);
    let bad_mac = [0xFFu8; 4];
    assert!(ctx.unprotect_uplink(0, bad_mac, &ciphertext).is_none());
    assert_eq!(ctx.ul_count(), 0, "ul_count must NOT advance on a rejected message");
}

#[test]
fn null_algorithms_pass_through_unciphered() {
    let mut ctx = Nas5gsSecurityContext::new_from_keys(k(), k(), 0, 0);
    let plain = b"null algorithms still envelope correctly".to_vec();
    let protected = ctx.protect_downlink(&plain);
    assert_eq!(protected.payload, plain, "null cipher must not touch payload");
    assert_eq!(protected.mac_i, [0u8; 4], "null integrity must produce a zero MAC-I");
}

#[test]
fn derive_nas_keys_is_deterministic() {
    let kamf = [0x77u8; 32];
    assert_eq!(derive_nas_keys(&kamf, 2, 2), derive_nas_keys(&kamf, 2, 2));
}

#[test]
fn derive_nas_keys_enc_and_int_differ() {
    let kamf = [0x77u8; 32];
    let (enc, int) = derive_nas_keys(&kamf, 2, 2);
    assert_ne!(enc, int, "enc/int distinguisher must produce different keys even with the same algorithm identity");
}

#[test]
fn derive_nas_keys_changes_with_kamf() {
    let (a, _) = derive_nas_keys(&[0x77; 32], 2, 2);
    let (b, _) = derive_nas_keys(&[0x78; 32], 2, 2);
    assert_ne!(a, b);
}

#[test]
fn derive_nas_keys_changes_with_algorithm_id() {
    let kamf = [0x77u8; 32];
    let (a, _) = derive_nas_keys(&kamf, 1, 2);
    let (b, _) = derive_nas_keys(&kamf, 2, 2);
    assert_ne!(a, b, "different negotiated algorithm must produce a different session key");
}

#[test]
fn new_derives_same_keys_new_from_keys_would_need_precomputed() {
    let kamf = [0x77u8; 32];
    let (enc, int) = derive_nas_keys(&kamf, 2, 2);
    let via_new = Nas5gsSecurityContext::new(&kamf, 2, 2);
    let via_from_keys = Nas5gsSecurityContext::new_from_keys(enc, int, 2, 2);
    assert_eq!(via_new.k_nas_enc, via_from_keys.k_nas_enc);
    assert_eq!(via_new.k_nas_int, via_from_keys.k_nas_int);
}
