use hmac::Mac;
use midn::auth::keys::{AuthKey, OpCode};
use midn::hss::Hss;
use midn::kdf::{
    derive_kamf, derive_kasme, derive_kausf, derive_kseaf, derive_res_star, kdf_generic, serving_network_name,
};

fn test_hss() -> Hss {
    let mut hss = Hss::new();
    hss.provision_hex(901_700_000_000_001, "465b5ce8b199b49faa5f0a2ee238a6bc", "cd63cb71954a9f4e48a5994e37a02baf")
        .expect("valid test hex");
    hss
}

fn hmac_sha256(key: &[u8], data: &[u8]) -> [u8; 32] {
    let mut mac = hmac::Hmac::<sha2::Sha256>::new_from_slice(key).unwrap();
    mac.update(data);
    mac.finalize().into_bytes().into()
}

// ── HSS ──────────────────────────────────────────────────────────────────────

#[test]
fn provision_and_contains() {
    let hss = test_hss();
    assert!(hss.contains(901_700_000_000_001));
    assert!(!hss.contains(999));
}

#[test]
fn has_subscriber_matches_contains() {
    let hss = test_hss();
    let imsi = 901_700_000_000_001;
    assert_eq!(hss.has_subscriber(imsi), hss.contains(imsi));
    assert!(!hss.has_subscriber(12345));
}

#[test]
fn provision_hex_rejects_bad_hex() {
    let mut hss = Hss::new();
    assert!(hss.provision_hex(1, "notvalidhex!!!", "cd63cb71954a9f4e48a5994e37a02baf").is_err());
    assert!(!hss.contains(1), "a refused provisioning leaves no subscriber");
}

#[test]
fn generate_auth_vector_unknown_imsi_returns_none() {
    let mut hss = Hss::new();
    assert!(hss.generate_auth_vector(999).is_none());
}

#[test]
fn generate_auth_vector_returns_some() {
    let mut hss = test_hss();
    assert!(hss.generate_auth_vector(901_700_000_000_001).is_some());
}

#[test]
fn rand_is_16_bytes_nonzero_probable() {
    let mut hss = test_hss();
    let info = hss.generate_auth_vector(901_700_000_000_001).unwrap();
    assert_ne!(info.rand, [0u8; 16]);
}

#[test]
fn sqn_increments_after_each_vector() {
    let mut hss = test_hss();
    let imsi = 901_700_000_000_001;
    assert_eq!(hss.sqn(imsi), Some(0));
    hss.generate_auth_vector(imsi).unwrap();
    assert_eq!(hss.sqn(imsi), Some(1));
    hss.generate_auth_vector(imsi).unwrap();
    assert_eq!(hss.sqn(imsi), Some(2));
}

#[test]
fn sqn_used_matches_counter_before_increment() {
    let mut hss = test_hss();
    let imsi = 901_700_000_000_001;
    let info = hss.generate_auth_vector(imsi).unwrap();
    assert_eq!(info.sqn_used, [0u8; 6]);
    let info2 = hss.generate_auth_vector(imsi).unwrap();
    assert_eq!(info2.sqn_used, [0, 0, 0, 0, 0, 1]);
}

#[test]
fn two_vectors_have_different_rand() {
    let mut hss = test_hss();
    let imsi = 901_700_000_000_001;
    let a = hss.generate_auth_vector(imsi).unwrap();
    let b = hss.generate_auth_vector(imsi).unwrap();
    assert_ne!(a.rand, b.rand);
}

#[test]
fn deprovision_removes_subscriber() {
    let mut hss = test_hss();
    let imsi = 901_700_000_000_001;
    assert!(hss.deprovision(imsi));
    assert!(!hss.contains(imsi));
    assert!(!hss.deprovision(imsi));
}

#[test]
fn update_sqn_works() {
    let mut hss = test_hss();
    let imsi = 901_700_000_000_001;
    assert!(hss.update_sqn(imsi, 42));
    assert_eq!(hss.sqn(imsi), Some(42));
}

#[test]
fn update_sqn_unknown_imsi_returns_false() {
    let mut hss = Hss::new();
    assert!(!hss.update_sqn(999, 0));
}

#[test]
fn provision_with_op_generates_vector() {
    let mut hss = Hss::new();
    hss.provision_with_op(42, AuthKey::from_hex("465b5ce8b199b49faa5f0a2ee238a6bc").unwrap(), {
        let mut b = [0u8; 16];
        hex::decode_to_slice("cdc202d5123e20f62b6d676ac72cb318", &mut b).unwrap();
        b
    });
    assert!(hss.generate_auth_vector(42).is_some());
}

#[test]
fn provision_newtype_api() {
    let mut hss = Hss::new();
    let k = AuthKey::from_hex("465b5ce8b199b49faa5f0a2ee238a6bc").unwrap();
    let opc = OpCode::from_hex("cd63cb71954a9f4e48a5994e37a02baf").unwrap();
    hss.provision(123, k, opc);
    assert!(hss.has_subscriber(123));
    assert!(hss.generate_auth_vector(123).is_some());
}

#[test]
fn vector_with_rand_is_the_milenage_vector_under_the_stored_sqn() {
    // TS 35.208 test set 1 K / OPc with the first SQN (0) and AMF 8000.
    let mut hss = test_hss();
    let rand = [0x23u8; 16];
    let info = hss.generate_auth_vector_with_rand(901_700_000_000_001, rand).unwrap();
    let ctx = midn::auth::milenage::MilenageContext::new(
        AuthKey::from_hex("465b5ce8b199b49faa5f0a2ee238a6bc").unwrap(),
        OpCode::from_hex("cd63cb71954a9f4e48a5994e37a02baf").unwrap(),
    );
    assert_eq!(info.vector, ctx.generate_vector(&rand, &[0u8; 6], &[0x80, 0x00]));
    assert_eq!(info.rand, rand);
    assert_eq!(hss.sqn(901_700_000_000_001), Some(1));
    assert!(hss.generate_auth_vector_with_rand(7, rand).is_none());
}

#[test]
fn sqn_wraps_at_48_bits() {
    let mut hss = test_hss();
    let imsi = 901_700_000_000_001;
    assert!(hss.update_sqn(imsi, 0x0000_FFFF_FFFF_FFFF));
    let info = hss.generate_auth_vector(imsi).unwrap();
    assert_eq!(info.sqn_used, [0xFF; 6]);
    assert_eq!(hss.sqn(imsi), Some(0));
}

#[test]
fn sqn_stays_within_48_bits_over_a_call_sequence() {
    let mut hss = test_hss();
    let imsi = 901_700_000_000_001;
    assert!(hss.update_sqn(imsi, u64::MAX));
    assert_eq!(hss.sqn(imsi), Some(0x0000_FFFF_FFFF_FFFF));
    for _ in 0..3 {
        hss.generate_auth_vector(imsi).unwrap();
        assert!(hss.sqn(imsi).unwrap() < (1u64 << 48));
    }
    assert_eq!(hss.sqn(imsi), Some(2));
    assert!(hss.deprovision(imsi));
    assert_eq!(hss.sqn(imsi), None);
    assert!(!hss.has_subscriber(imsi));
}

// ── KDF ──────────────────────────────────────────────────────────────────────

#[test]
fn kdf_generic_is_hmac_sha256_over_fc_and_length_prefixed_params() {
    let key = [0x0Bu8; 32];
    let out = kdf_generic(&key, 0x10, &[&[0xAA, 0xBB, 0xCC], &[0x01]]);
    let expected = hmac_sha256(&key, &[0x10, 0xAA, 0xBB, 0xCC, 0x00, 0x03, 0x01, 0x00, 0x01]);
    assert_eq!(out, expected);
}

#[test]
fn derive_kasme_is_kdf_0x10_over_plmn_and_sqn_xor_ak() {
    let ck = [0x11u8; 16];
    let ik = [0x22u8; 16];
    let mut key = [0u8; 32];
    key[..16].copy_from_slice(&ck);
    key[16..].copy_from_slice(&ik);
    let expected =
        hmac_sha256(&key, &[0x10, 0x46, 0x00, 0x01, 0x00, 0x03, 0xAA, 0xBB, 0xCC, 0xDD, 0xEE, 0xFF, 0x00, 0x06]);
    assert_eq!(derive_kasme(&ck, &ik, &[0x46, 0x00, 0x01], &[0xAA, 0xBB, 0xCC, 0xDD, 0xEE, 0xFF]), expected);
}

#[test]
fn serving_network_name_format() {
    // The PLMN octets are carried as they are, between the fixed prefix and suffix.
    let mut expected = b"5G:mnc-mcc.".to_vec();
    expected.extend_from_slice(&[0x32, 0xF4, 0x51]);
    expected.extend_from_slice(b".3gppnetwork.org");
    assert_eq!(serving_network_name(&[0x32, 0xF4, 0x51]), expected);
}

#[test]
fn derive_kasme_is_deterministic() {
    let ck = [0x11u8; 16];
    let ik = [0x22u8; 16];
    let sn_id = [0x46, 0x00, 0x01];
    let sqn_xor_ak = [0xAA, 0xBB, 0xCC, 0xDD, 0xEE, 0xFF];
    assert_eq!(derive_kasme(&ck, &ik, &sn_id, &sqn_xor_ak), derive_kasme(&ck, &ik, &sn_id, &sqn_xor_ak));
}

#[test]
fn derive_kasme_changes_with_ck() {
    let ik = [0x22u8; 16];
    let sn_id = [0x46, 0x00, 0x01];
    let sqn_xor_ak = [0; 6];
    let a = derive_kasme(&[0x11; 16], &ik, &sn_id, &sqn_xor_ak);
    let b = derive_kasme(&[0x12; 16], &ik, &sn_id, &sqn_xor_ak);
    assert_ne!(a, b);
}

#[test]
fn derive_kasme_changes_with_ik() {
    let ck = [0x11u8; 16];
    let sn_id = [0x46, 0x00, 0x01];
    let sqn_xor_ak = [0; 6];
    let a = derive_kasme(&ck, &[0x22; 16], &sn_id, &sqn_xor_ak);
    let b = derive_kasme(&ck, &[0x23; 16], &sn_id, &sqn_xor_ak);
    assert_ne!(a, b);
}

#[test]
fn derive_kasme_changes_with_sn_id() {
    let ck = [0x11u8; 16];
    let ik = [0x22u8; 16];
    let sqn_xor_ak = [0; 6];
    let a = derive_kasme(&ck, &ik, &[0x46, 0x00, 0x01], &sqn_xor_ak);
    let b = derive_kasme(&ck, &ik, &[0x46, 0x00, 0x02], &sqn_xor_ak);
    assert_ne!(a, b, "different serving network must produce different Kasme");
}

#[test]
fn derive_kasme_changes_with_sqn_xor_ak() {
    let ck = [0x11u8; 16];
    let ik = [0x22u8; 16];
    let sn_id = [0x46, 0x00, 0x01];
    let a = derive_kasme(&ck, &ik, &sn_id, &[0; 6]);
    let b = derive_kasme(&ck, &ik, &sn_id, &[0, 0, 0, 0, 0, 1]);
    assert_ne!(a, b, "different SQN must produce different Kasme — re-sync protection");
}

#[test]
fn derive_kasme_output_is_full_256_bits_not_truncated() {
    let out = derive_kasme(&[0; 16], &[0; 16], &[0; 3], &[0; 6]);
    assert_eq!(out.len(), 32);
}

#[test]
fn serving_network_name_is_deterministic() {
    let plmn = [0x23, 0x41, 0x5F];
    assert_eq!(serving_network_name(&plmn), serving_network_name(&plmn));
}

#[test]
fn serving_network_name_changes_with_plmn() {
    let a = serving_network_name(&[0x23, 0x41, 0x5F]);
    let b = serving_network_name(&[0x23, 0x41, 0x60]);
    assert_ne!(a, b);
}

#[test]
fn derive_kausf_is_deterministic() {
    let ck = [0x11u8; 16];
    let ik = [0x22u8; 16];
    let snn = serving_network_name(&[0x23, 0x41, 0x5F]);
    let sqn_xor_ak = [0xAA, 0xBB, 0xCC, 0xDD, 0xEE, 0xFF];
    assert_eq!(derive_kausf(&ck, &ik, &snn, &sqn_xor_ak), derive_kausf(&ck, &ik, &snn, &sqn_xor_ak));
}

#[test]
fn derive_kausf_changes_with_snn() {
    let ck = [0x11u8; 16];
    let ik = [0x22u8; 16];
    let sqn_xor_ak = [0; 6];
    let a = derive_kausf(&ck, &ik, &serving_network_name(&[1, 2, 3]), &sqn_xor_ak);
    let b = derive_kausf(&ck, &ik, &serving_network_name(&[1, 2, 4]), &sqn_xor_ak);
    assert_ne!(a, b, "different serving network must produce different KAUSF");
}

#[test]
fn derive_kausf_changes_with_sqn_xor_ak() {
    let ck = [0x11u8; 16];
    let ik = [0x22u8; 16];
    let snn = serving_network_name(&[1, 2, 3]);
    let a = derive_kausf(&ck, &ik, &snn, &[0; 6]);
    let b = derive_kausf(&ck, &ik, &snn, &[0, 0, 0, 0, 0, 1]);
    assert_ne!(a, b, "different SQN must produce different KAUSF — re-sync protection");
}

#[test]
fn derive_kausf_differs_from_derive_kasme_for_same_inputs() {
    let ck = [0x11u8; 16];
    let ik = [0x22u8; 16];
    let sqn_xor_ak = [0; 6];
    let kasme = derive_kasme(&ck, &ik, &[1, 2, 3], &sqn_xor_ak);
    let kausf = derive_kausf(&ck, &ik, &serving_network_name(&[1, 2, 3]), &sqn_xor_ak);
    assert_ne!(kasme, kausf);
}

#[test]
fn derive_res_star_is_deterministic() {
    let ck = [0x11u8; 16];
    let ik = [0x22u8; 16];
    let snn = serving_network_name(&[1, 2, 3]);
    let rand = [0x33u8; 16];
    let res = [0x44u8; 8];
    assert_eq!(derive_res_star(&ck, &ik, &snn, &rand, &res), derive_res_star(&ck, &ik, &snn, &rand, &res));
}

#[test]
fn derive_res_star_changes_with_rand() {
    let ck = [0x11u8; 16];
    let ik = [0x22u8; 16];
    let snn = serving_network_name(&[1, 2, 3]);
    let res = [0x44u8; 8];
    let a = derive_res_star(&ck, &ik, &snn, &[0x33; 16], &res);
    let b = derive_res_star(&ck, &ik, &snn, &[0x34; 16], &res);
    assert_ne!(a, b);
}

#[test]
fn derive_res_star_changes_with_res() {
    let ck = [0x11u8; 16];
    let ik = [0x22u8; 16];
    let snn = serving_network_name(&[1, 2, 3]);
    let rand = [0x33u8; 16];
    let a = derive_res_star(&ck, &ik, &snn, &rand, &[0x44; 8]);
    let b = derive_res_star(&ck, &ik, &snn, &rand, &[0x45; 8]);
    assert_ne!(a, b);
}

#[test]
fn derive_res_star_output_is_16_bytes_not_8() {
    let out = derive_res_star(&[0; 16], &[0; 16], b"snn", &[0; 16], &[0; 8]);
    assert_eq!(out.len(), 16, "RES*/XRES* must be 16 bytes");
}

#[test]
fn derive_kseaf_is_deterministic() {
    let kausf = [0x55u8; 32];
    let snn = serving_network_name(&[1, 2, 3]);
    assert_eq!(derive_kseaf(&kausf, &snn), derive_kseaf(&kausf, &snn));
}

#[test]
fn derive_kseaf_changes_with_kausf() {
    let snn = serving_network_name(&[1, 2, 3]);
    let a = derive_kseaf(&[0x55; 32], &snn);
    let b = derive_kseaf(&[0x56; 32], &snn);
    assert_ne!(a, b);
}

#[test]
fn derive_kseaf_changes_with_snn() {
    let kausf = [0x55u8; 32];
    let a = derive_kseaf(&kausf, &serving_network_name(&[1, 2, 3]));
    let b = derive_kseaf(&kausf, &serving_network_name(&[1, 2, 4]));
    assert_ne!(a, b);
}

#[test]
fn derive_kamf_is_deterministic() {
    let kseaf = [0x66u8; 32];
    let supi = b"234155550001";
    let abba = [0x00, 0x00];
    assert_eq!(derive_kamf(&kseaf, supi, &abba), derive_kamf(&kseaf, supi, &abba));
}

#[test]
fn derive_kamf_changes_with_kseaf() {
    let supi = b"234155550001";
    let abba = [0x00, 0x00];
    let a = derive_kamf(&[0x66; 32], supi, &abba);
    let b = derive_kamf(&[0x67; 32], supi, &abba);
    assert_ne!(a, b);
}

#[test]
fn derive_kamf_changes_with_supi() {
    let kseaf = [0x66u8; 32];
    let abba = [0x00, 0x00];
    let a = derive_kamf(&kseaf, b"234155550001", &abba);
    let b = derive_kamf(&kseaf, b"234155550002", &abba);
    assert_ne!(a, b, "different subscriber must produce different KAMF");
}

#[test]
fn derive_kamf_changes_with_abba() {
    let kseaf = [0x66u8; 32];
    let supi = b"234155550001";
    let a = derive_kamf(&kseaf, supi, &[0x00, 0x00]);
    let b = derive_kamf(&kseaf, supi, &[0x00, 0x01]);
    assert_ne!(a, b, "ABBA binds algorithm/feature set — must affect KAMF");
}

#[test]
fn derive_kamf_output_is_full_256_bits() {
    let out = derive_kamf(&[0; 32], b"1", &[0; 2]);
    assert_eq!(out.len(), 32);
}

#[test]
fn full_5g_aka_chain_is_deterministic_end_to_end() {
    let ck = [0x11u8; 16];
    let ik = [0x22u8; 16];
    let plmn = [0x23, 0x41, 0x5F];
    let snn = serving_network_name(&plmn);
    let sqn_xor_ak = [0xAA, 0xBB, 0xCC, 0xDD, 0xEE, 0xFF];
    let imsi: u64 = 234_15_5550001;
    let supi = imsi.to_string().into_bytes();
    let run = || {
        let kausf = derive_kausf(&ck, &ik, &snn, &sqn_xor_ak);
        let kseaf = derive_kseaf(&kausf, &snn);
        derive_kamf(&kseaf, &supi, &[0x00, 0x00])
    };
    assert_eq!(run(), run());
}

#[test]
fn full_5g_aka_chain_kamf_differs_from_lte_kasme_for_equivalent_inputs() {
    let ck = [0x11u8; 16];
    let ik = [0x22u8; 16];
    let plmn = [0x23, 0x41, 0x5F];
    let sqn_xor_ak = [0xAA, 0xBB, 0xCC, 0xDD, 0xEE, 0xFF];
    let imsi: u64 = 234_15_5550001;
    let supi = imsi.to_string().into_bytes();
    let kasme = derive_kasme(&ck, &ik, &plmn, &sqn_xor_ak);
    let snn = serving_network_name(&plmn);
    let kausf = derive_kausf(&ck, &ik, &snn, &sqn_xor_ak);
    let kseaf = derive_kseaf(&kausf, &snn);
    let kamf = derive_kamf(&kseaf, &supi, &[0x00, 0x00]);
    assert_ne!(kasme, kamf, "4G and 5G anchor keys must never collide");
}
