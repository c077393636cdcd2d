use midn::auth::keys::{Amf, AuthKey, OpCode, Rand, Sqn};
use midn::auth::milenage::MilenageContext;
use midn::auth::tuak::keccak_p::{keccak_f1600, STATE_LANES};
use midn::auth::tuak::sponge::{pad10_star_1, KeccakSponge};
use midn::auth::tuak::{TuakConfig, TuakContext, TuakKey, TuakTopc};

fn hbytes<const N: usize>(s: &str) -> [u8; N] {
    let digits: Vec<char> = s.chars().filter(|c| c.is_ascii_hexdigit()).collect();
    assert_eq!(digits.len(), N * 2, "hex string has wrong length for [u8; {N}]");
    let mut arr = [0u8; N];
    for (i, chunk) in digits.chunks(2).enumerate() {
        let hi = chunk[0].to_digit(16).unwrap() as u8;
        let lo = chunk[1].to_digit(16).unwrap() as u8;
        arr[i] = (hi << 4) | lo;
    }
    arr
}

fn h16(s: &str) -> [u8; 16] {
    hbytes::<16>(s)
}

fn h8(s: &str) -> [u8; 8] {
    hbytes::<8>(s)
}

fn h6(s: &str) -> [u8; 6] {
    hbytes::<6>(s)
}

fn h2(s: &str) -> [u8; 2] {
    hbytes::<2>(s)
}

fn ctx_opc(k: &str, opc: &str) -> MilenageContext {
    MilenageContext::new(AuthKey(h16(k)), OpCode(h16(opc)))
}

// ── keys ─────────────────────────────────────────────────────────────────────

#[test]
fn sqn_round_trip() {
    let sqn = Sqn(0x_0000_FF9B_B4D0_B607);
    let bytes = sqn.to_bytes();
    let parsed = Sqn::from_bytes(&bytes);
    assert_eq!(sqn, parsed);
}

#[test]
fn sqn_increment_wraps() {
    let sqn = Sqn(u64::MAX);
    let next = sqn.increment();
    assert_eq!(next.0, 0);
}

#[test]
fn auth_key_from_hex_roundtrip() {
    let hex_str = "465b5ce8b199b49faa5f0a2ee238a6bc";
    let key = AuthKey::from_hex(hex_str).expect("valid hex");
    assert_eq!(hex::encode(key.0), hex_str);
}

#[test]
fn auth_key_from_hex_rejects_short() {
    assert!(AuthKey::from_hex("deadbeef").is_err());
}

#[test]
fn auth_key_from_hex_rejects_non_hex_digit() {
    assert!(AuthKey::from_hex("465b5ce8b199b49faa5f0a2ee238a6bg").is_err());
    assert!(OpCode::from_hex("zz63cb71954a9f4e48a5994e37a02baf").is_err());
}

#[test]
fn sqn_to_bytes_keeps_low_48_bits_big_endian() {
    assert_eq!(Sqn(0x1234_5678_9ABC_DEF0).to_bytes(), [0x56, 0x78, 0x9A, 0xBC, 0xDE, 0xF0]);
    assert_eq!(Sqn::from_bytes(&[0, 0, 0, 0, 1, 2]).0, 0x0102);
}

#[test]
fn amf_standard_is_8000() {
    assert_eq!(Amf::standard().0, [0x80, 0x00]);
}

// ── Milenage ─────────────────────────────────────────────────────────────────

#[test]
fn opc_derivation_set1() {
    let ctx = MilenageContext::with_op(
        AuthKey(h16("465b5ce8b199b49faa5f0a2ee238a6bc")),
        &h16("cdc202d5123e20f62b6d676ac72cb318"),
    );
    assert_eq!(ctx.opc().0, h16("cd63cb71954a9f4e48a5994e37a02baf"));
}

#[test]
fn opc_derivation_set3() {
    let ctx = MilenageContext::with_op(
        AuthKey(h16("fec86ba6eb707ed08905757b1bb44b8f")),
        &h16("dbc59adcb6f9a0ef735477b7fadf8374"),
    );
    assert_eq!(ctx.opc().0, h16("1006020f0a478bf6b699f15c062e42b3"));
}

#[test]
fn opc_derivation_set4() {
    let ctx = MilenageContext::with_op(
        AuthKey(h16("9e5944aea94b81165c82fbf9f32db751")),
        &h16("223014c5806694c007ca1eeef57f004f"),
    );
    assert_eq!(ctx.opc().0, h16("a64a507ae1a2a98bb88eb4210135dc87"));
}

#[test]
fn opc_derivation_set5() {
    let ctx = MilenageContext::with_op(
        AuthKey(h16("4ab1deb05ca6ceb051fc98e77d026a84")),
        &h16("2d16c5cd1fdf6b22383584e3bef2a8d8"),
    );
    assert_eq!(ctx.opc().0, h16("dcf07cbd51855290b92a07a9891e523e"));
}

#[test]
fn opc_derivation_set6() {
    let ctx = MilenageContext::with_op(
        AuthKey(h16("6c38a116ac280c454f59332ee35c8c4f")),
        &h16("1ba00a1a7c6700ac8c3ff3e96ad08725"),
    );
    assert_eq!(ctx.opc().0, h16("3803ef5363b947c6aaa225e58fae3934"));
}

#[test]
fn test_set_1() {
    let ctx = ctx_opc("465b5ce8b199b49faa5f0a2ee238a6bc", "cd63cb71954a9f4e48a5994e37a02baf");
    let rand = h16("23553cbe9637a89d218ae64dae47bf35");
    let sqn = h6("ff9bb4d0b607");
    let amf = h2("b9b9");
    let av = ctx.generate_vector(&rand, &sqn, &amf);
    assert_eq!(av.mac_a, h8("4a9ffac354dfafb3"), "f1  MAC-A");
    assert_eq!(av.mac_s, h8("01cfaf9ec4e871e9"), "f1* MAC-S");
    assert_eq!(av.res, h8("a54211d5e3ba50bf"), "f2  RES");
    assert_eq!(av.ak, h6("aa689c648370"), "f5  AK");
    assert_eq!(av.ck, h16("b40ba9a3c58b2a05bbf0d987b21bf8cb"), "f3  CK");
    assert_eq!(av.ik, h16("f769bcd751044604127672711c6d3441"), "f4  IK");
    assert_eq!(av.ak_star, h6("451e8beca43b"), "f5* AK*");
}

#[test]
fn test_set_2() {
    let ctx = ctx_opc("465b5ce8b199b49faa5f0a2ee238a6bc", "cd63cb71954a9f4e48a5994e37a02baf");
    let rand = h16("23553cbe9637a89d218ae64dae47bf35");
    let sqn = h6("ff9bb4d0b607");
    let amf = h2("b9b9");
    let av = ctx.generate_vector(&rand, &sqn, &amf);
    assert_eq!(av.mac_a, h8("4a9ffac354dfafb3"));
    assert_eq!(av.res, h8("a54211d5e3ba50bf"));
    assert_eq!(av.ak, h6("aa689c648370"));
    assert_eq!(av.ak_star, h6("451e8beca43b"));
}

#[test]
fn test_set_3() {
    let ctx = ctx_opc("fec86ba6eb707ed08905757b1bb44b8f", "1006020f0a478bf6b699f15c062e42b3");
    let rand = h16("9f7c8d021accf4db213ccff0c7f71a6a");
    let sqn = h6("9d0277595ffc");
    let amf = h2("725c");
    let av = ctx.generate_vector(&rand, &sqn, &amf);
    assert_eq!(av.mac_a, h8("9cabc3e99baf7281"), "f1  MAC-A");
    assert_eq!(av.mac_s, h8("95814ba2b3044324"), "f1* MAC-S");
    assert_eq!(av.res, h8("8011c48c0c214ed2"), "f2  RES");
    assert_eq!(av.ak, h6("33484dc2136b"), "f5  AK");
    assert_eq!(av.ck, h16("5dbdbb2954e8f3cde665b046179a5098"), "f3  CK");
    assert_eq!(av.ik, h16("59a92d3b476a0443487055cf88b2307b"), "f4  IK");
    assert_eq!(av.ak_star, h6("deacdd848cc6"), "f5* AK*");
}

#[test]
fn test_set_4() {
    let ctx = ctx_opc("9e5944aea94b81165c82fbf9f32db751", "a64a507ae1a2a98bb88eb4210135dc87");
    let rand = h16("ce83dbc54ac0274a157c17f80d017bd6");
    let sqn = h6("0b604a81eca8");
    let amf = h2("9e09");
    let av = ctx.generate_vector(&rand, &sqn, &amf);
    assert_eq!(av.mac_a, h8("74a58220cba84c49"), "f1  MAC-A");
    assert_eq!(av.mac_s, h8("ac2cc74a96871837"), "f1* MAC-S");
    assert_eq!(av.res, h8("f365cd683cd92e96"), "f2  RES");
    assert_eq!(av.ak, h6("f0b9c08ad02e"), "f5  AK");
    assert_eq!(av.ck, h16("e203edb3971574f5a94b0d61b816345d"), "f3  CK");
    assert_eq!(av.ik, h16("0c4524adeac041c4dd830d20854fc46b"), "f4  IK");
    assert_eq!(av.ak_star, h6("6085a86c6f63"), "f5* AK*");
}

#[test]
fn test_set_5() {
    let ctx = ctx_opc("4ab1deb05ca6ceb051fc98e77d026a84", "dcf07cbd51855290b92a07a9891e523e");
    let rand = h16("74b0cd6031a1c8339b2b6ce2b8c4a186");
    let sqn = h6("e880a1b580b6");
    let amf = h2("9f07");
    let av = ctx.generate_vector(&rand, &sqn, &amf);
    assert_eq!(av.mac_a, h8("49e785dd12626ef2"), "f1  MAC-A");
    assert_eq!(av.mac_s, h8("9e85790336bb3fa2"), "f1* MAC-S");
    assert_eq!(av.res, h8("5860fc1bce351e7e"), "f2  RES");
    assert_eq!(av.ak, h6("31e11a609118"), "f5  AK");
    assert_eq!(av.ck, h16("7657766b373d1c2138f307e3de9242f9"), "f3  CK");
    assert_eq!(av.ik, h16("1c42e960d89b8fa99f2744e0708ccb53"), "f4  IK");
    assert_eq!(av.ak_star, h6("fe2555e54aa9"), "f5* AK*");
}

#[test]
fn test_set_6() {
    let ctx = ctx_opc("6c38a116ac280c454f59332ee35c8c4f", "3803ef5363b947c6aaa225e58fae3934");
    let rand = h16("ee6466bc96202c5a557abbeff8babf63");
    let sqn = h6("414b98222181");
    let amf = h2("4464");
    let av = ctx.generate_vector(&rand, &sqn, &amf);
    assert_eq!(av.mac_a, h8("078adfb488241a57"), "f1  MAC-A");
    assert_eq!(av.mac_s, h8("80246b8d0186bcf1"), "f1* MAC-S");
    assert_eq!(av.res, h8("16c8233f05a0ac28"), "f2  RES");
    assert_eq!(av.ak, h6("45b0f69ab06c"), "f5  AK");
    assert_eq!(av.ck, h16("3f8c7587fe8e4b233af676aede30ba3b"), "f3  CK");
    assert_eq!(av.ik, h16("a7466cc1e6b2a1337d49d3b66e95d7b4"), "f4  IK");
    assert_eq!(av.ak_star, h6("1f53cd2b1113"), "f5* AK*");
}

#[test]
fn verify_res_match_returns_true() {
    let xres = h8("a54211d5e3ba50bf");
    assert!(MilenageContext::verify_res(&xres, &xres));
}

#[test]
fn verify_res_mismatch_returns_false() {
    let xres = h8("a54211d5e3ba50bf");
    let bad_res = h8("a54211d5e3ba50be");
    assert!(!MilenageContext::verify_res(&xres, &bad_res));
}

#[test]
fn verify_res_all_zeros_vs_nonzero_returns_false() {
    let zero = [0u8; 8];
    let nonzero = h8("a54211d5e3ba50bf");
    assert!(!MilenageContext::verify_res(&zero, &nonzero));
}

#[test]
fn autn_structure_set1() {
    let ctx = ctx_opc("465b5ce8b199b49faa5f0a2ee238a6bc", "cd63cb71954a9f4e48a5994e37a02baf");
    let rand = h16("23553cbe9637a89d218ae64dae47bf35");
    let sqn = h6("ff9bb4d0b607");
    let amf = h2("b9b9");
    let av = ctx.generate_vector(&rand, &sqn, &amf);
    let autn = av.autn(&sqn, &amf);
    for i in 0..6 {
        assert_eq!(autn[i], sqn[i] ^ av.ak[i], "AUTN[{i}]: SQN xor AK");
    }
    assert_eq!(&autn[6..8], &amf, "AUTN[6..8]: AMF");
    assert_eq!(&autn[8..16], &av.mac_a, "AUTN[8..16]: MAC-A");
}

#[test]
fn new_and_with_op_produce_same_vector() {
    let k = h16("465b5ce8b199b49faa5f0a2ee238a6bc");
    let op = h16("cdc202d5123e20f62b6d676ac72cb318");
    let opc = h16("cd63cb71954a9f4e48a5994e37a02baf");
    let rand = h16("23553cbe9637a89d218ae64dae47bf35");
    let sqn = h6("ff9bb4d0b607");
    let amf = h2("b9b9");
    let ctx_from_op = MilenageContext::with_op(AuthKey(k), &op);
    let ctx_from_opc = MilenageContext::new(AuthKey(k), OpCode(opc));
    assert_eq!(ctx_from_op.generate_vector(&rand, &sqn, &amf), ctx_from_opc.generate_vector(&rand, &sqn, &amf));
}

#[test]
fn generate_vector_with_rand_matches_byte_api() {
    let ctx = ctx_opc("465b5ce8b199b49faa5f0a2ee238a6bc", "cd63cb71954a9f4e48a5994e37a02baf");
    let rand = h16("23553cbe9637a89d218ae64dae47bf35");
    let av = ctx.generate_vector_with_rand(Sqn(0xff9bb4d0b607), Amf(h2("b9b9")), Rand(rand));
    assert_eq!(av.res, h8("a54211d5e3ba50bf"));
    assert_eq!(av.mac_a, h8("4a9ffac354dfafb3"));
}

// ── TUAK ─────────────────────────────────────────────────────────────────────

#[test]
fn config_is_plain_data() {
    let cfg = TuakConfig { key_len_bytes: 16, mac_len_bytes: 8, res_len_bytes: 8, ck_ik_len_bytes: 16 };
    let cfg2 = cfg;
    assert_eq!(cfg, cfg2);
}

#[test]
fn tuak_context_keeps_its_config() {
    let cfg = TuakConfig { key_len_bytes: 32, mac_len_bytes: 16, res_len_bytes: 8, ck_ik_len_bytes: 32 };
    let ctx = TuakContext::new(TuakKey(vec![1u8; 32]), TuakTopc(vec![2u8; 32]), cfg);
    assert_eq!(ctx.config(), cfg);
}

const RATE: usize = 136;

#[test]
fn pad_exactly_one_byte_short_uses_0x81() {
    let input = vec![0u8; RATE - 1];
    let padded = pad10_star_1(&input, RATE);
    assert_eq!(padded.len(), RATE);
    assert_eq!(padded[RATE - 1], 0x81);
}

#[test]
fn pad_empty_input_fills_whole_block() {
    let padded = pad10_star_1(&[], RATE);
    assert_eq!(padded.len(), RATE);
    assert_eq!(padded[0], 0x01);
    assert_eq!(padded[RATE - 1], 0x80);
    assert!(padded[1..RATE - 1].iter().all(|&b| b == 0));
}

#[test]
fn pad_exact_multiple_of_rate_adds_full_extra_block() {
    let input = vec![0xAAu8; RATE];
    let padded = pad10_star_1(&input, RATE);
    assert_eq!(padded.len(), 2 * RATE, "exact-multiple input still needs a full padding block");
}

#[test]
fn squeeze_output_has_requested_length() {
    let out = KeccakSponge::absorb_and_squeeze(RATE, b"test input", 64);
    assert_eq!(out.len(), 64);
}

#[test]
fn squeeze_longer_than_rate_continues_correctly() {
    let out = KeccakSponge::absorb_and_squeeze(RATE, b"test input", RATE + 50);
    assert_eq!(out.len(), RATE + 50);
}

#[test]
fn sponge_is_deterministic() {
    let a = KeccakSponge::absorb_and_squeeze(RATE, b"deterministic check", 32);
    let b = KeccakSponge::absorb_and_squeeze(RATE, b"deterministic check", 32);
    assert_eq!(a, b);
}

#[test]
fn distinct_inputs_give_distinct_output() {
    let a = KeccakSponge::absorb_and_squeeze(RATE, b"input A", 32);
    let b = KeccakSponge::absorb_and_squeeze(RATE, b"input B", 32);
    assert_ne!(a, b);
}

#[test]
fn single_bit_input_change_changes_output() {
    let a = KeccakSponge::absorb_and_squeeze(RATE, &[0u8; 10], 32);
    let mut input_b = [0u8; 10];
    input_b[5] = 1;
    let b = KeccakSponge::absorb_and_squeeze(RATE, &input_b, 32);
    assert_ne!(a, b);
}

#[test]
fn incremental_squeeze_matches_one_shot() {
    let mut s1 = KeccakSponge::new(RATE);
    s1.absorb(b"incremental check");
    let mut combined = s1.squeeze(20);
    combined.extend(s1.squeeze(20));
    let one_shot = KeccakSponge::absorb_and_squeeze(RATE, b"incremental check", 40);
    assert_eq!(combined, one_shot, "two squeeze(20) calls must equal one squeeze(40)");
}

#[test]
fn incremental_squeeze_across_the_rate_matches_one_shot() {
    let mut s1 = KeccakSponge::new(RATE);
    s1.absorb(b"incremental check");
    let first = s1.squeeze(100);
    let second = s1.squeeze(100);
    assert_eq!(first.len(), 100);
    assert_eq!(second.len(), 100);
    let mut combined = first;
    combined.extend(second);
    let one_shot = KeccakSponge::absorb_and_squeeze(RATE, b"incremental check", 200);
    assert_eq!(combined, one_shot);
}

#[test]
fn sponge_sha3_256_rate_empty_input_matches_keccak_256() {
    // Keccak-256 (original Keccak padding 0x01 .. 0x80) of the empty string.
    let out = KeccakSponge::absorb_and_squeeze(RATE, &[], 32);
    assert_eq!(
        out,
        hbytes::<32>("c5d2460186f7233c927e7db2dcc703c0e500b653ca82273b7bfad8045d85a470").to_vec()
    );
}

#[test]
fn permutation_of_zero_state_is_not_identity() {
    let mut state = [0u64; STATE_LANES];
    keccak_f1600(&mut state);
    assert_ne!(state, [0u64; STATE_LANES], "Keccak-f[1600] must not fix the zero state");
}

#[test]
fn permutation_is_deterministic() {
    let mut a = [0x0123_4567_89AB_CDEFu64; STATE_LANES];
    let mut b = a;
    keccak_f1600(&mut a);
    keccak_f1600(&mut b);
    assert_eq!(a, b);
}

#[test]
fn permutation_changes_every_lane_eventually() {
    let mut state = [0u64; STATE_LANES];
    state[0] = 1;
    keccak_f1600(&mut state);
    let nonzero_lanes = state.iter().filter(|&&l| l != 0).count();
    assert!(nonzero_lanes > 1, "single-bit input should diffuse across multiple lanes after 24 rounds");
}

#[test]
fn distinct_inputs_give_distinct_outputs() {
    let mut a = [0u64; STATE_LANES];
    let mut b = [0u64; STATE_LANES];
    b[0] = 1;
    keccak_f1600(&mut a);
    keccak_f1600(&mut b);
    assert_ne!(a, b);
}

#[test]
fn keccak_f1600_zero_state_first_lane() {
    // Known answer: Keccak-f[1600] of the all-zero state, lane 0.
    let mut state = [0u64; STATE_LANES];
    keccak_f1600(&mut state);
    assert_eq!(state[0], 0xF1258F7940E1DDE7);
}
