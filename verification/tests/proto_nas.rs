use midn::proto::gtp::{GtpuHeader, GtpuParser};
use midn::proto::nas::codec::{
    decode_nas, decode_protected, encode_attach_accept, encode_attach_complete, encode_attach_request,
    encode_auth_request, encode_auth_response, encode_detach_accept, encode_detach_request, encode_protected,
    encode_sec_mode_cmd, encode_sec_mode_complete, NasPdu,
};
use midn::proto::nas::ie::{
    decode_imsi, decode_security_algorithms, encode_imsi, encode_security_algorithms, find_tlv, read_lv, read_tlv,
    write_lv, write_tlv, NasEeaAlgorithm, NasEiaAlgorithm,
};
use midn::proto::nas::messages::AuthenticationRequest;
use midn::proto::nas::security::{
    derive_nas_keys, eea2_apply, eia2_compute_mac, eia2_verify_mac, reconstruct_count, Direction, NasSecurityContext,
    NAS_BEARER, SHT_INTEGRITY_CIPHERED,
};

fn hex_bytes(s: &str) -> Vec<u8> {
    hex::decode(s).unwrap()
}

// ── GTP-U ────────────────────────────────────────────────────────────────────

#[test]
fn parse_gpdu_teid_deadbeef() {
    let buf = [0x30, 0xFF, 0x00, 0x20, 0xDE, 0xAD, 0xBE, 0xEF, 0x45, 0x00];
    let (hdr, payload) = GtpuHeader::parse(&buf).unwrap();
    assert_eq!(hdr.teid, 0xDEAD_BEEF);
    assert_eq!(hdr.length, 32);
    assert!(hdr.is_gpdu());
    assert!(!hdr.has_ext_hdr());
    assert_eq!(hdr.version(), 1);
    assert_eq!(payload, &[0x45, 0x00]);
}

#[test]
fn parse_too_short_returns_none() {
    assert!(GtpuHeader::parse(&[0x30, 0xFF, 0x00]).is_none());
    assert!(GtpuHeader::parse(&[]).is_none());
}

#[test]
fn round_trip_serialization() {
    let original = GtpuHeader::new_gpdu(0x0000_0001, 60);
    let bytes = original.to_bytes();
    let (parsed, _) = GtpuHeader::parse(&bytes).unwrap();
    assert_eq!(parsed.teid, original.teid);
    assert_eq!(parsed.length, original.length);
    assert_eq!(parsed.msg_type, original.msg_type);
}

#[test]
fn new_gpdu_flags_are_standard() {
    let hdr = GtpuHeader::new_gpdu(42, 100);
    assert_eq!(hdr.version(), 1);
    assert!(hdr.is_gpdu());
    assert!(!hdr.has_ext_hdr());
    assert!(!hdr.has_optional_fields());
}

#[test]
fn echo_request_is_not_gpdu() {
    let buf = [0x20, 0x01, 0x00, 0x04, 0x00, 0x00, 0x00, 0x00];
    let (hdr, _) = GtpuHeader::parse(&buf).unwrap();
    assert!(!hdr.is_gpdu());
    assert_eq!(hdr.msg_type, GtpuHeader::MSG_ECHO_REQ);
}

#[test]
fn parse_gpdu_no_ext() {
    let buf = [0x30, 0xFF, 0x00, 0x10, 0x00, 0x00, 0x00, 0x01, 0x45, 0x00, 0x00, 0x14];
    let pkt = GtpuParser::parse(&buf).unwrap();
    assert_eq!(pkt.header.teid, 1);
    assert_eq!(pkt.payload[0], 0x45);
}

#[test]
fn gtpu_header_to_bytes_exact() {
    assert_eq!(GtpuHeader::new_gpdu(0x0102_0304, 0x0506).to_bytes(), [0x30, 0xFF, 0x05, 0x06, 0x01, 0x02, 0x03, 0x04]);
}

#[test]
fn gtpu_parser_skips_optional_fields() {
    // S flag set: sequence number (2) + N-PDU (1) + next extension type (1).
    let buf = [0x32, 0xFF, 0x00, 0x08, 0x00, 0x00, 0x00, 0x07, 0x00, 0x01, 0x00, 0x00, 0x45, 0x00];
    let pkt = GtpuParser::parse(&buf).unwrap();
    assert!(pkt.header.has_optional_fields());
    assert_eq!(pkt.payload, &[0x45, 0x00]);
    // Optional fields announced but cut short.
    assert!(GtpuParser::parse(&buf[..10]).is_none());
}

// ── NAS information elements ─────────────────────────────────────────────────

#[test]
fn imsi_round_trip_standard() {
    let imsi = 234_15_1234567890_u64;
    let encoded = encode_imsi(imsi);
    let decoded = decode_imsi(&encoded).expect("should decode");
    assert_eq!(decoded, imsi);
}

#[test]
fn imsi_round_trip_with_leading_zeros() {
    let imsi = 001_01_0000000001_u64;
    let encoded = encode_imsi(imsi);
    let decoded = decode_imsi(&encoded).expect("should decode");
    assert_eq!(decoded, imsi);
}

#[test]
fn imsi_encode_produces_8_bytes() {
    let encoded = encode_imsi(234_15_1234567890_u64);
    assert_eq!(encoded.len(), 8, "15-digit IMSI must encode to exactly 8 bytes");
}

#[test]
fn imsi_encode_identity_type_is_imsi() {
    let encoded = encode_imsi(234_15_0000000001_u64);
    assert_eq!(encoded[0] & 0x07, 0x01, "low 3 bits must be IMSI type = 0x01");
}

#[test]
fn imsi_encode_odd_flag_set_for_15_digits() {
    let encoded = encode_imsi(234_15_0000000001_u64);
    assert_eq!((encoded[0] >> 3) & 0x01, 1, "odd flag must be 1 for 15-digit IMSI");
}

#[test]
fn decode_imsi_rejects_wrong_type() {
    assert!(decode_imsi(&[0x02, 0x00, 0x00, 0x00]).is_none());
}

#[test]
fn imsi_encoding_is_bcd_exact() {
    assert_eq!(encode_imsi(234_15_1234567890_u64), vec![0x29, 0x43, 0x51, 0x21, 0x43, 0x65, 0x87, 0x09]);
    assert!(decode_imsi(&[]).is_none());
    assert!(decode_imsi(&[0x29, 0x4A]).is_none(), "BCD digit above 9");
}

#[test]
fn lv_round_trip() {
    let mut buf = Vec::new();
    write_lv(&mut buf, &[0xAA, 0xBB, 0xCC]);
    let (value, rest) = read_lv(&buf).unwrap();
    assert_eq!(value, &[0xAA, 0xBB, 0xCC]);
    assert!(rest.is_empty());
}

#[test]
fn tlv_round_trip() {
    let mut buf = Vec::new();
    write_tlv(&mut buf, 0x28, &[1, 2, 3, 4]);
    let (iei, value, rest) = read_tlv(&buf).unwrap();
    assert_eq!(iei, 0x28);
    assert_eq!(value, &[1, 2, 3, 4]);
    assert!(rest.is_empty());
}

#[test]
fn lv_and_tlv_reject_truncation() {
    assert!(read_lv(&[]).is_none());
    assert!(read_lv(&[3, 1, 2]).is_none());
    assert!(read_tlv(&[0x28]).is_none());
}

#[test]
fn find_tlv_skips_to_the_target() {
    let buf = [0x50, 0x01, 0xAA, 0x29, 0x02, 0x01, 0x02];
    assert_eq!(find_tlv(&buf, 0x29), Some(&buf[3..]));
    assert_eq!(find_tlv(&buf, 0x30), None);
}

#[test]
fn security_algorithms_round_trip() {
    let byte = encode_security_algorithms(NasEeaAlgorithm::Eea2, NasEiaAlgorithm::Eia2);
    let (eea, eia) = decode_security_algorithms(byte);
    assert_eq!(eea, NasEeaAlgorithm::Eea2);
    assert_eq!(eia, NasEiaAlgorithm::Eia2);
}

#[test]
fn security_algorithm_byte_is_eea_high_eia_low() {
    assert_eq!(encode_security_algorithms(NasEeaAlgorithm::Eea1, NasEiaAlgorithm::Eia3), 0x13);
    assert_eq!(decode_security_algorithms(0x9F), (NasEeaAlgorithm::Eea0, NasEiaAlgorithm::Eia0));
}

#[test]
fn auth_request_round_trip_fields() {
    let req = AuthenticationRequest {
        ksi_asme: 0x07,
        rand: [0x23, 0x55, 0x3C, 0xBE, 0x96, 0x37, 0xA8, 0x9D, 0x21, 0x8A, 0xE6, 0x4D, 0xAE, 0x47, 0xBF, 0x35],
        autn: [0xAA, 0x68, 0x9C, 0x64, 0x83, 0x70, 0x00, 0x00, 0xB9, 0xB9, 0x4A, 0x9F, 0xFA, 0xC3, 0x54, 0xDF],
    };
    assert_eq!(req.rand[0], 0x23);
    assert_eq!(req.autn[0], 0xAA);
}

// ── NAS codec ────────────────────────────────────────────────────────────────

#[test]
fn auth_request_round_trip() {
    let rand = [0x23u8; 16];
    let autn = [0xAAu8; 16];
    let encoded = encode_auth_request(7, &rand, &autn);
    let decoded = decode_nas(&encoded).expect("should decode");
    match decoded {
        NasPdu::AuthenticationRequest(d) => {
            assert_eq!(d.nas_ksi, 7);
            assert_eq!(d.rand, rand);
            assert_eq!(d.autn, autn);
        },
        _ => panic!("wrong message type"),
    }
}

#[test]
fn auth_response_round_trip() {
    let res = [0xA5u8, 0x42, 0x11, 0xD5, 0xE3, 0xBA, 0x50, 0xBF];
    let encoded = encode_auth_response(&res);
    let decoded = decode_nas(&encoded).expect("should decode");
    match decoded {
        NasPdu::AuthenticationResponse(d) => assert_eq!(d.res, res),
        _ => panic!("wrong message type"),
    }
}

#[test]
fn attach_request_imsi_round_trip() {
    let imsi = 234_15_1234567890_u64;
    let encoded = encode_attach_request(imsi, 1, 7);
    let decoded = decode_nas(&encoded).expect("should decode");
    match decoded {
        NasPdu::AttachRequest(d) => {
            assert_eq!(d.imsi, Some(imsi), "IMSI should round-trip");
            assert_eq!(d.eps_attach_type, 1);
        },
        _ => panic!("wrong message type"),
    }
}

#[test]
fn sec_mode_command_round_trip() {
    let ue_cap = [0x20u8, 0x40];
    let encoded = encode_sec_mode_cmd(NasEeaAlgorithm::Eea2, NasEiaAlgorithm::Eia2, 7, &ue_cap);
    let decoded = decode_nas(&encoded).expect("should decode");
    match decoded {
        NasPdu::SecurityModeCommand(d) => {
            assert_eq!(d.eea, NasEeaAlgorithm::Eea2);
            assert_eq!(d.eia, NasEiaAlgorithm::Eia2);
        },
        _ => panic!("wrong message type"),
    }
}

#[test]
fn security_mode_complete_decode() {
    let encoded = encode_sec_mode_complete();
    let decoded = decode_nas(&encoded).expect("should decode");
    assert!(matches!(decoded, NasPdu::SecurityModeComplete));
}

#[test]
fn attach_accept_with_ip() {
    let ip = [10u8, 0, 0, 1];
    let encoded = encode_attach_accept(1, 0x54, &[], Some(ip), Some("internet"));
    let decoded = decode_nas(&encoded).expect("should decode");
    match decoded {
        NasPdu::AttachAccept(d) => {
            assert_eq!(d.ip_address, Some(ip));
            assert_eq!(d.apn.as_deref(), Some("internet"));
        },
        _ => panic!("wrong message type"),
    }
}

#[test]
fn attach_complete_decode() {
    let encoded = encode_attach_complete();
    let decoded = decode_nas(&encoded).expect("should decode");
    assert!(matches!(decoded, NasPdu::AttachComplete));
}

#[test]
fn decode_rejects_wrong_pd() {
    let bad = [0x05u8, 0x52, 0x00];
    assert!(decode_nas(&bad).is_err());
}

#[test]
fn decode_nas_rejects_short_protected_and_unknown() {
    assert!(decode_nas(&[0x07]).is_err());
    assert!(decode_nas(&[0x27, 0x43]).is_err(), "protected header must be unwrapped first");
    assert!(decode_nas(&[0x07, 0x99]).is_err(), "unknown message type");
}

#[test]
fn detach_request_round_trip() {
    let encoded = encode_detach_request(1, true, 3, &[0u8; 10]);
    assert_eq!(&encoded[..3], &[0x07, 0x45, 0x39]);
    match decode_nas(&encoded).expect("should decode") {
        NasPdu::DetachRequest(d) => {
            assert_eq!(d.detach_type, 1);
            assert!(d.switch_off);
            assert_eq!(d.nas_ksi, 3);
        },
        _ => panic!("wrong message type"),
    }
    assert!(matches!(decode_nas(&encode_detach_accept()).unwrap(), NasPdu::DetachAccept));
}

#[test]
fn auth_request_encoding_exact_layout() {
    let encoded = encode_auth_request(2, &[0x11; 16], &[0x22; 16]);
    assert_eq!(encoded.len(), 3 + 17 + 17);
    assert_eq!(&encoded[..4], &[0x07, 0x52, 0x20, 16]);
    assert_eq!(encoded[20], 16);
}

// ── NAS security ─────────────────────────────────────────────────────────────

#[test]
fn eia2_test_set_2_mac() {
    // TS 33.401 Annex C.2, 128-EIA2 test set 2 (DIRECTION 1: downlink).
    let key: [u8; 16] = hex_bytes("d3c5d592327fb11c4035c6680af8c6d1").try_into().unwrap();
    let msg = hex_bytes("484583d5afe082ae");
    let mac = eia2_compute_mac(&key, 0x398a59b4, 0x1a, Direction::Downlink, &msg);
    assert_eq!(mac, [0xb9, 0x37, 0x87, 0xe6]);
    assert!(eia2_verify_mac(&key, 0x398a59b4, 0x1a, Direction::Downlink, &msg, &mac));
    assert!(!eia2_verify_mac(&key, 0x398a59b5, 0x1a, Direction::Downlink, &msg, &mac));
    assert!(!eia2_verify_mac(&key, 0x398a59b4, 0x1a, Direction::Uplink, &msg, &mac));
}

#[test]
fn eea2_is_its_own_inverse() {
    let key = [0x5Au8; 16];
    let plain = b"attach accept, protected".to_vec();
    let mut data = plain.clone();
    eea2_apply(&key, 7, NAS_BEARER, Direction::Downlink, &mut data);
    assert_ne!(data, plain);
    eea2_apply(&key, 7, NAS_BEARER, Direction::Downlink, &mut data);
    assert_eq!(data, plain);
}

#[test]
fn reconstruct_count_follows_the_sequence_byte() {
    assert_eq!(reconstruct_count(0x0000_0105, 0x07), 0x0000_0107);
    assert_eq!(reconstruct_count(0x0000_01FE, 0x01), 0x0000_0201, "wrap of the low byte advances the overflow");
}

#[test]
fn nas_security_context_downlink_verifies_with_its_keys() {
    let kasme = [0x5Au8; 32];
    let (k_enc, k_int) = derive_nas_keys(&kasme, NasEeaAlgorithm::Eea2, NasEiaAlgorithm::Eia2);
    assert_ne!(k_enc, k_int);
    let mut ctx = NasSecurityContext::new(&kasme, NasEeaAlgorithm::Eea2, NasEiaAlgorithm::Eia2);
    let plain = encode_detach_accept();
    let envelope = encode_protected(&mut ctx, SHT_INTEGRITY_CIPHERED, NAS_BEARER, &plain);
    assert_eq!(ctx.dl_count(), 1);
    assert_eq!((envelope[0] >> 4) & 0x0F, SHT_INTEGRITY_CIPHERED);
    let mac_i: [u8; 4] = envelope[1..5].try_into().unwrap();
    let count = envelope[5] as u32;
    let mut ciphertext = envelope[6..].to_vec();
    assert!(eia2_verify_mac(&k_int, count, NAS_BEARER, Direction::Downlink, &ciphertext, &mac_i));
    eea2_apply(&k_enc, count, NAS_BEARER, Direction::Downlink, &mut ciphertext);
    assert!(matches!(decode_nas(&ciphertext).unwrap(), NasPdu::DetachAccept));
}

#[test]
fn nas_decode_protected_opens_an_uplink_envelope() {
    let kasme = [0x33u8; 32];
    let (k_enc, k_int) = derive_nas_keys(&kasme, NasEeaAlgorithm::Eea2, NasEiaAlgorithm::Eia2);
    let mut mme_ctx = NasSecurityContext::new(&kasme, NasEeaAlgorithm::Eea2, NasEiaAlgorithm::Eia2);
    let plain = encode_attach_complete();
    let mut ciphertext = plain.clone();
    eea2_apply(&k_enc, 0, NAS_BEARER, Direction::Uplink, &mut ciphertext);
    let mac_i = eia2_compute_mac(&k_int, 0, NAS_BEARER, Direction::Uplink, &ciphertext);
    let mut envelope = vec![(SHT_INTEGRITY_CIPHERED << 4) | 0x07];
    envelope.extend_from_slice(&mac_i);
    envelope.push(0);
    envelope.extend_from_slice(&ciphertext);
    assert_eq!(decode_protected(&mut mme_ctx, &envelope, NAS_BEARER), Some(plain));
    assert_eq!(mme_ctx.ul_count(), 1);
    // A replay with a flipped MAC bit is refused and leaves the COUNT alone.
    envelope[1] ^= 0x01;
    assert_eq!(decode_protected(&mut mme_ctx, &envelope, NAS_BEARER), None);
    assert_eq!(mme_ctx.ul_count(), 1);
    // Not an envelope at all.
    assert_eq!(decode_protected(&mut mme_ctx, &[0x07, 0x43], NAS_BEARER), None);
}
