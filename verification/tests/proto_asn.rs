use midn::proto::ie_container::{decode_pdu_wrapper, encode_pdu_wrapper, write_ie_container, IeEntry};
use midn::proto::ngap::codec::{decode_ngap_pdu, encode_ngap_pdu, read_user_location_info, write_user_location_info};
use midn::proto::ngap::messages::{
    NgapCause, NgapDownlinkNasTransport, NgapInitialUeMessage, NgapMessage, NgapUplinkNasTransport,
};
use midn::proto::s1ap::codec::{decode_s1ap_pdu, encode_s1ap_pdu};
use midn::proto::s1ap::ie_ids;
use midn::proto::s1ap::messages::{DownlinkNasTransport, InitialUeMessage, S1apCause, S1apMessage, UplinkNasTransport};
use midn::proto::s1ap::per::{PerReader, PerWriter};

// ── ALIGNED PER ──────────────────────────────────────────────────────────────

#[test]
fn constrained_int_3_bits_exact_byte() {
    let mut w = PerWriter::new();
    w.write_constrained_int(5, 0, 7);
    assert_eq!(w.into_bytes(), vec![0xA0]);
}

#[test]
fn length_determinant_short_form_exact_byte() {
    let mut w = PerWriter::new();
    w.write_length_determinant(10);
    assert_eq!(w.into_bytes(), vec![0x0A]);
}

#[test]
fn small_range_is_not_octet_aligned() {
    let mut w = PerWriter::new();
    w.write_constrained_int(1, 0, 2);
    w.write_constrained_int(2, 0, 2);
    let bytes = w.into_bytes();
    assert_eq!(bytes.len(), 1, "two 2-bit fields must share one octet");
}

#[test]
fn large_range_is_octet_aligned() {
    let mut w = PerWriter::new();
    w.write_bit(true);
    w.write_constrained_int(300, 0, 1000);
    let bytes = w.into_bytes();
    assert!(bytes.len() >= 2);
}

#[test]
fn large_range_exact_bytes() {
    // The bit, padding to the octet, then 300 in two octets.
    let mut w = PerWriter::new();
    w.write_bit(true);
    w.write_constrained_int(300, 0, 1000);
    assert_eq!(w.into_bytes(), vec![0x80, 0x01, 0x2C]);
}

#[test]
fn constrained_int_round_trip_boundary_256_257() {
    for (val, max) in [(255u64, 255u64), (256, 300)] {
        let mut w = PerWriter::new();
        w.write_constrained_int(val, 0, max);
        let bytes = w.into_bytes();
        let mut r = PerReader::new(&bytes);
        assert_eq!(r.read_constrained_int(0, max), Some(val));
    }
}

#[test]
fn constrained_int_round_trip_full_u32_range() {
    let mut w = PerWriter::new();
    w.write_constrained_int(0xDEAD_BEEF, 0, u32::MAX as u64);
    let bytes = w.into_bytes();
    assert_eq!(bytes.len(), 4, "32-bit range must encode in exactly 4 octets");
    let mut r = PerReader::new(&bytes);
    assert_eq!(r.read_constrained_int(0, u32::MAX as u64), Some(0xDEAD_BEEF));
}

#[test]
fn constrained_int_round_trip_24_bit_range() {
    let mut w = PerWriter::new();
    w.write_constrained_int(0x12_3456, 0, 16_777_215);
    let bytes = w.into_bytes();
    assert_eq!(bytes.len(), 3, "24-bit range must encode in exactly 3 octets");
    let mut r = PerReader::new(&bytes);
    assert_eq!(r.read_constrained_int(0, 16_777_215), Some(0x12_3456));
}

#[test]
fn length_determinant_round_trip_medium_form() {
    let mut w = PerWriter::new();
    w.write_length_determinant(200);
    let bytes = w.into_bytes();
    assert_eq!(bytes.len(), 2, "medium-form length determinant is 2 octets");
    assert_eq!(bytes, vec![0x80, 200]);
    let mut r = PerReader::new(&bytes);
    assert_eq!(r.read_length_determinant(), Some(200));
}

#[test]
fn octet_string_round_trip() {
    let data = [0xAAu8, 0xBB, 0xCC, 0xDD, 0xEE];
    let mut w = PerWriter::new();
    w.write_octet_string(&data);
    let bytes = w.into_bytes();
    let mut r = PerReader::new(&bytes);
    assert_eq!(r.read_octet_string(), Some(data.to_vec()));
}

#[test]
fn read_past_end_returns_none() {
    let mut r = PerReader::new(&[0x00]);
    assert_eq!(r.read_bits(16), None);
}

#[test]
fn degenerate_single_value_range_consumes_zero_bits() {
    let mut w = PerWriter::new();
    w.write_constrained_int(7, 7, 7);
    assert!(w.into_bytes().is_empty());
}

#[test]
fn constrained_int_with_offset_round_trip() {
    let mut w = PerWriter::new();
    w.write_constrained_int(12, 10, 13);
    let bytes = w.into_bytes();
    assert_eq!(bytes, vec![0x80]);
    let mut r = PerReader::new(&bytes);
    assert_eq!(r.read_constrained_int(10, 13), Some(12));
}

// ── PDU wrapper ──────────────────────────────────────────────────────────────

#[test]
fn pdu_wrapper_round_trip() {
    let bytes = encode_pdu_wrapper(12, ie_ids::CRITICALITY_IGNORE, &[1, 2, 3]);
    assert_eq!(decode_pdu_wrapper(&bytes), Some((12, ie_ids::CRITICALITY_IGNORE, vec![1, 2, 3])));
    assert_eq!(decode_pdu_wrapper(&[]), None);
}

// ── S1AP ─────────────────────────────────────────────────────────────────────

#[test]
fn initial_ue_message_round_trip() {
    let msg = InitialUeMessage {
        enb_ue_s1ap_id: 0x0001_0001,
        nas_pdu: vec![0x07, 0x41, 0x00],
        tai: [0x00, 0x01, 0x02, 0x00, 0x01],
        eutran_cgi: [0x00, 0x01, 0x02, 0x10, 0x20, 0x30, 0x40],
        rrc_cause: 3,
    };
    let bytes = encode_s1ap_pdu(&S1apMessage::InitialUeMessage(msg.clone())).unwrap();
    let decoded = decode_s1ap_pdu(&bytes).unwrap();
    match decoded {
        S1apMessage::InitialUeMessage(d) => {
            assert_eq!(d.enb_ue_s1ap_id, msg.enb_ue_s1ap_id);
            assert_eq!(d.nas_pdu, msg.nas_pdu);
            assert_eq!(d.tai, msg.tai);
            assert_eq!(d.eutran_cgi, msg.eutran_cgi);
            assert_eq!(d.rrc_cause, msg.rrc_cause);
        },
        _ => panic!("wrong variant decoded"),
    }
}

#[test]
fn uplink_nas_transport_round_trip() {
    let msg = UplinkNasTransport {
        mme_ue_s1ap_id: 0xCAFEBABE,
        enb_ue_s1ap_id: 0x0001_0002,
        nas_pdu: vec![0x07, 0x53, 0x08, 0xA5, 0x42, 0x11, 0xD5, 0xE3, 0xBA, 0x50, 0xBF],
        tai: [1, 2, 3, 4, 5],
        eutran_cgi: [9, 8, 7, 6, 5, 4, 3],
    };
    let bytes = encode_s1ap_pdu(&S1apMessage::UplinkNasTransport(msg.clone())).unwrap();
    let decoded = decode_s1ap_pdu(&bytes).unwrap();
    match decoded {
        S1apMessage::UplinkNasTransport(d) => {
            assert_eq!(d.mme_ue_s1ap_id, msg.mme_ue_s1ap_id);
            assert_eq!(d.enb_ue_s1ap_id, msg.enb_ue_s1ap_id);
            assert_eq!(d.nas_pdu, msg.nas_pdu);
            assert_eq!(d.tai, msg.tai);
            assert_eq!(d.eutran_cgi, msg.eutran_cgi);
        },
        _ => panic!("wrong variant decoded"),
    }
}

#[test]
fn downlink_nas_transport_round_trip() {
    let msg = DownlinkNasTransport { mme_ue_s1ap_id: 42, enb_ue_s1ap_id: 7, nas_pdu: vec![0x07, 0x5D, 0x24, 0x70] };
    let bytes = encode_s1ap_pdu(&S1apMessage::DownlinkNasTransport(msg.clone())).unwrap();
    let decoded = decode_s1ap_pdu(&bytes).unwrap();
    match decoded {
        S1apMessage::DownlinkNasTransport(d) => {
            assert_eq!(d.mme_ue_s1ap_id, msg.mme_ue_s1ap_id);
            assert_eq!(d.enb_ue_s1ap_id, msg.enb_ue_s1ap_id);
            assert_eq!(d.nas_pdu, msg.nas_pdu);
        },
        _ => panic!("wrong variant decoded"),
    }
}

#[test]
fn unsupported_variant_returns_error_not_garbage() {
    let result = encode_s1ap_pdu(&S1apMessage::UeContextReleaseCommand { cause: S1apCause::NasNormalRelease });
    assert!(result.is_err(), "out-of-scope variants must error, not silently mis-encode");
}

#[test]
fn decode_rejects_truncated_buffer() {
    assert!(decode_s1ap_pdu(&[0x00]).is_err());
}

#[test]
fn decode_rejects_unknown_procedure_code() {
    let mut value_w = PerWriter::new();
    let empty: Vec<IeEntry> = Vec::new();
    write_ie_container(&mut value_w, &empty);
    let bytes = encode_pdu_wrapper(250, ie_ids::CRITICALITY_IGNORE, &value_w.into_bytes());
    assert!(decode_s1ap_pdu(&bytes).is_err());
}

#[test]
fn s1ap_downlink_nas_transport_exact_bytes() {
    let msg = DownlinkNasTransport { mme_ue_s1ap_id: 1, enb_ue_s1ap_id: 2, nas_pdu: vec![0xAB] };
    let bytes = encode_s1ap_pdu(&S1apMessage::DownlinkNasTransport(msg)).unwrap();
    // Choice 0 (2 bits), procedure 11 (8 bits), criticality ignore (2 bits),
    // padded to the octet before the open type's length.
    assert_eq!(&bytes[..2], &[0x02, 0xD0]);
}

// ── NGAP ─────────────────────────────────────────────────────────────────────

#[test]
fn codec_initial_ue_message_round_trip() {
    let msg = NgapInitialUeMessage {
        ran_ue_ngap_id: 0x0001_0001,
        nas_pdu: vec![0x7E, 0x00, 0x41],
        tai: [0x00, 0x01, 0x02, 0x00, 0x00, 0x01],
        nr_cgi: [0x00, 0x01, 0x02, 0x10, 0x20, 0x30, 0x40, 0x50, 0x60],
        rrc_establishment_cause: 3,
    };
    let bytes = encode_ngap_pdu(&NgapMessage::InitialUeMessage(msg.clone())).unwrap();
    let decoded = decode_ngap_pdu(&bytes).unwrap();
    match decoded {
        NgapMessage::InitialUeMessage(d) => {
            assert_eq!(d.ran_ue_ngap_id, msg.ran_ue_ngap_id);
            assert_eq!(d.nas_pdu, msg.nas_pdu);
            assert_eq!(d.tai, msg.tai);
            assert_eq!(d.nr_cgi, msg.nr_cgi);
            assert_eq!(d.rrc_establishment_cause, msg.rrc_establishment_cause);
        },
        other => panic!("wrong variant decoded: {other:?}"),
    }
}

#[test]
fn codec_uplink_nas_transport_round_trip() {
    let msg = NgapUplinkNasTransport {
        amf_ue_ngap_id: 0xCAFEBABE,
        ran_ue_ngap_id: 0x0001_0002,
        nas_pdu: vec![0x7E, 0x02, 0x08, 0xA5, 0x42, 0x11, 0xD5, 0xE3, 0xBA, 0x50, 0xBF],
        tai: [1, 2, 3, 0, 0, 4],
        nr_cgi: [9, 8, 7, 6, 5, 4, 3, 2, 1],
    };
    let bytes = encode_ngap_pdu(&NgapMessage::UplinkNasTransport(msg.clone())).unwrap();
    let decoded = decode_ngap_pdu(&bytes).unwrap();
    match decoded {
        NgapMessage::UplinkNasTransport(d) => {
            assert_eq!(d.amf_ue_ngap_id, msg.amf_ue_ngap_id);
            assert_eq!(d.ran_ue_ngap_id, msg.ran_ue_ngap_id);
            assert_eq!(d.nas_pdu, msg.nas_pdu);
            assert_eq!(d.tai, msg.tai);
            assert_eq!(d.nr_cgi, msg.nr_cgi);
        },
        other => panic!("wrong variant decoded: {other:?}"),
    }
}

#[test]
fn codec_downlink_nas_transport_round_trip() {
    let msg = NgapDownlinkNasTransport { amf_ue_ngap_id: 42, ran_ue_ngap_id: 7, nas_pdu: vec![0x7E, 0x00, 0x42, 0x01] };
    let bytes = encode_ngap_pdu(&NgapMessage::DownlinkNasTransport(msg.clone())).unwrap();
    let decoded = decode_ngap_pdu(&bytes).unwrap();
    match decoded {
        NgapMessage::DownlinkNasTransport(d) => {
            assert_eq!(d.amf_ue_ngap_id, msg.amf_ue_ngap_id);
            assert_eq!(d.ran_ue_ngap_id, msg.ran_ue_ngap_id);
            assert_eq!(d.nas_pdu, msg.nas_pdu);
        },
        other => panic!("wrong variant decoded: {other:?}"),
    }
}

#[test]
fn codec_unsupported_variant_returns_error_not_garbage() {
    let result = encode_ngap_pdu(&NgapMessage::UeContextReleaseCommand { cause: NgapCause::NasNormalRelease });
    assert!(result.is_err(), "out-of-scope variants must error, not silently mis-encode");
}

#[test]
fn codec_decode_rejects_truncated_buffer() {
    assert!(decode_ngap_pdu(&[0x00]).is_err());
}

#[test]
fn codec_decode_rejects_unknown_procedure_code() {
    let mut value_w = PerWriter::new();
    let empty: Vec<IeEntry> = Vec::new();
    write_ie_container(&mut value_w, &empty);
    let bytes = encode_pdu_wrapper(250, midn::proto::ngap::ie_ids::CRITICALITY_IGNORE, &value_w.into_bytes());
    assert!(decode_ngap_pdu(&bytes).is_err());
}

#[test]
fn user_location_info_round_trip() {
    let mut w = PerWriter::new();
    let nr_cgi = [1u8, 2, 3, 4, 5, 6, 7, 8, 9];
    let tai = [10u8, 11, 12, 13, 14, 15];
    write_user_location_info(&mut w, &nr_cgi, &tai);
    let bytes = w.into_bytes();
    let mut r = PerReader::new(&bytes);
    let (d_cgi, d_tai) = read_user_location_info(&mut r).unwrap();
    assert_eq!(d_cgi, nr_cgi);
    assert_eq!(d_tai, tai);
}

#[test]
fn constrained_int_round_trip_near_u64_max() {
    let min = u64::MAX - 300;
    let max = u64::MAX - 1;
    for val in [min, min + 1, max] {
        let mut w = PerWriter::new();
        w.write_constrained_int(val, min, max);
        let bytes = w.into_bytes();
        let mut r = PerReader::new(&bytes);
        assert_eq!(r.read_constrained_int(min, max), Some(val));
    }
}

#[test]
fn constrained_int_past_u64_max_reads_as_none() {
    // Two octets of offset 0x01FF from a minimum 300 below u64::MAX: the
    // value would pass u64::MAX.
    let min = u64::MAX - 300;
    let bytes = [0x01u8, 0xFF];
    let mut r = PerReader::new(&bytes);
    assert_eq!(r.read_constrained_int(min, u64::MAX - 1), None);
}
