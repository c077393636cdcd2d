//! NAS security (TS 33.401): 128-EEA2 ciphering (AES-128 in counter mode,
//! Annex B.1.3), 128-EIA2 integrity (AES-128-CMAC, Annex B.2.3), the NAS
//! key derivation (Annex A.7), NAS COUNT reconstruction from the 8-bit
//! sequence number, and the per-subscriber `NasSecurityContext`.
//!
//! Algorithm convention: EEA0 / EIA0 are the null algorithms; every other
//! selected algorithm is served by the AES-based EEA2 / EIA2 pair.

use vstd::prelude::*;

use crate::auth::milenage::{aes128, aes128_encrypt, ct_eq_bytes, xor16, xor_seq};
use crate::kdf::kdf_spec;
use crate::proto::nas::ie::{eea_id, eia_id, NasEeaAlgorithm, NasEiaAlgorithm};
use crate::proto::wire::{u32_be, u64_be};

verus! {

/// Transmission direction, the DIRECTION bit of the EEA/EIA input.
#[derive(Debug, Clone, Copy, PartialEq, Eq, Structural)]
pub enum Direction {
    /// UE to network (bit 0).
    Uplink,
    /// Network to UE (bit 1).
    Downlink,
}

pub open spec fn direction_bit(d: Direction) -> u8 {
    match d {
        Direction::Uplink => 0,
        Direction::Downlink => 1,
    }
}

/// The DIRECTION bit of `d`.
pub fn dir_bit(d: Direction) -> (b: u8)
    ensures
        b == direction_bit(d),
{
    match d {
        Direction::Uplink => 0,
        Direction::Downlink => 1,
    }
}

/// BEARER identity used for NAS (TS 33.401 §8.1.1: 0).
pub const NAS_BEARER: u8 = 0;

/// Security header types (TS 24.301 §9.3.1), the high nibble of octet 1.
pub const SHT_PLAIN: u8 = 0;
pub const SHT_INTEGRITY: u8 = 1;
pub const SHT_INTEGRITY_CIPHERED: u8 = 2;
pub const SHT_INTEGRITY_NEW_CTX: u8 = 3;
pub const SHT_INTEGRITY_CIPHERED_NEW_CTX: u8 = 4;

/// FC of the NAS algorithm key derivation (TS 33.401 Annex A.7).
pub const FC_NAS_ALGO_KEY_DERIVATION: u8 = 0x15;
/// Algorithm type distinguishers (TS 33.401 Table A.7-1).
pub const ALGO_DISTINGUISHER_NAS_ENC: u8 = 0x01;
pub const ALGO_DISTINGUISHER_NAS_INT: u8 = 0x02;

// ── EEA2: AES-128-CTR ────────────────────────────────────────────────────────

/// Octet 4 of the EEA2/EIA2 input: BEARER (5 bits), DIRECTION, then zeros.
pub open spec fn bearer_dir_byte(bearer: u8, dir: Direction) -> u8 {
    ((bearer & 0x1F) << 3u8) | (direction_bit(dir) << 2u8)
}

fn bearer_dir(bearer: u8, dir: Direction) -> (b: u8)
    ensures
        b == bearer_dir_byte(bearer, dir),
{
    ((bearer & 0x1F) << 3u8) | (dir_bit(dir) << 2u8)
}

/// Counter block `blk` of 128-EEA2: `COUNT ‖ BEARER ‖ DIRECTION ‖ 0^26`
/// in the high 64 bits and the block number in the low 64 bits.
pub open spec fn ctr_block(count: u32, bearer: u8, dir: Direction, blk: u64) -> Seq<u8> {
    u32_be(count) + seq![bearer_dir_byte(bearer, dir), 0u8, 0u8, 0u8] + u64_be(blk)
}

fn ctr_block_exec(count: u32, bearer: u8, dir: Direction, blk: u64) -> (r: [u8; 16])
    ensures
        r@ == ctr_block(count, bearer, dir, blk),
{
    let r = [
        (count >> 24u32) as u8,
        (count >> 16u32) as u8,
        (count >> 8u32) as u8,
        count as u8,
        bearer_dir(bearer, dir),
        0u8,
        0u8,
        0u8,
        (blk >> 56u64) as u8,
        (blk >> 48u64) as u8,
        (blk >> 40u64) as u8,
        (blk >> 32u64) as u8,
        (blk >> 24u64) as u8,
        (blk >> 16u64) as u8,
        (blk >> 8u64) as u8,
        blk as u8,
    ];
    proof {
        assert(r@ =~= ctr_block(count, bearer, dir, blk));
    }
    r
}

/// 128-EEA2 keystream byte `j`.
pub open spec fn eea2_keystream(key: Seq<u8>, count: u32, bearer: u8, dir: Direction, j: int) -> u8 {
    aes128_encrypt(key, ctr_block(count, bearer, dir, (j / 16) as u64))[j % 16]
}

/// 128-EEA2: every byte xored with the keystream byte at its position.
pub open spec fn eea2_spec(key: Seq<u8>, count: u32, bearer: u8, dir: Direction, data: Seq<u8>) -> Seq<u8> {
    Seq::new(data.len(), |j: int| data[j] ^ eea2_keystream(key, count, bearer, dir, j))
}

/// Encrypt or decrypt `data` in place with 128-EEA2 (the same operation
/// both ways).
pub fn eea2_apply(key: &[u8; 16], count: u32, bearer: u8, dir: Direction, data: &mut Vec<u8>)
    ensures
        final(data)@ == eea2_spec(key@, count, bearer, dir, old(data)@),
{
    let ghost orig = data@;
    let n = data.len();
    let mut off: usize = 0;
    let mut blk: u64 = 0;
    while off < n
        invariant
            n == data@.len(),
            n == orig.len(),
            off <= n,
            off < n ==> off as int == blk as int * 16,
            blk as int * 16 >= off,
            blk as int * 16 <= n + 15,
            forall|j: int| 0 <= j < off ==> data@[j] == orig[j] ^ eea2_keystream(key@, count, bearer, dir, j),
            forall|j: int| off <= j < n ==> data@[j] == orig[j],
        decreases n - off,
    {
        let ctr = ctr_block_exec(count, bearer, dir, blk);
        let ks = aes128(key, &ctr);
        let end = if n - off < 16 { n } else { off + 16 };
        let mut k: usize = off;
        while k < end
            invariant
                n == data@.len(),
                off <= k <= end,
                end <= n,
                end <= off + 16,
                off as int == blk as int * 16,
                ks@ == aes128_encrypt(key@, ctr_block(count, bearer, dir, blk)),
                forall|j: int| 0 <= j < k ==> data@[j] == orig[j] ^ eea2_keystream(key@, count, bearer, dir, j),
                forall|j: int| k <= j < n ==> data@[j] == orig[j],
            decreases end - k,
        {
            proof {
                let kk = k as int;
                let b = blk as int;
                assert(kk / 16 == b && kk % 16 == kk - b * 16) by (nonlinear_arith)
                    requires
                        b * 16 <= kk < b * 16 + 16,
                ;
            }
            let v = data[k] ^ ks[k - off];
            data.set(k, v);
            k = k + 1;
        }
        off = end;
        blk = blk + 1;
    }
    proof {
        assert(data@ =~= eea2_spec(key@, count, bearer, dir, orig));
    }
}

/// 128-EEA2 is its own inverse.
pub proof fn law_eea2_involution(key: Seq<u8>, count: u32, bearer: u8, dir: Direction, data: Seq<u8>)
    ensures
        eea2_spec(key, count, bearer, dir, eea2_spec(key, count, bearer, dir, data)) == data,
{
    let once = eea2_spec(key, count, bearer, dir, data);
    let twice = eea2_spec(key, count, bearer, dir, once);
    assert forall|j: int| 0 <= j < data.len() implies twice[j] == data[j] by {
        let a = data[j];
        let k = eea2_keystream(key, count, bearer, dir, j);
        crate::proto::wire::lemma_xor_twice(a, k);
    }
    assert(twice =~= data);
}

// ── EIA2: AES-128-CMAC ───────────────────────────────────────────────────────

pub open spec fn zero_block() -> Seq<u8> {
    Seq::new(16, |i: int| 0u8)
}

/// CMAC subkey doubling: shift the 128-bit block left by one, xoring 0x87
/// into the last byte when the top bit was set.
pub open spec fn cmac_dbl(l: Seq<u8>) -> Seq<u8> {
    Seq::new(
        16,
        |i: int|
            ((l[i] << 1u8) | (if i < 15 { l[i + 1] >> 7u8 } else { 0u8 })) ^ (if i == 15 && l[0] >= 0x80 {
                0x87u8
            } else {
                0u8
            }),
    )
}

/// Number of CMAC blocks of a message of `len` bytes (at least one).
pub open spec fn cmac_blocks(len: nat) -> nat {
    if len == 0 {
        1
    } else {
        ((len + 15) / 16) as nat
    }
}

/// A short final block padded with 0x80 and zeros to 16 bytes.
pub open spec fn cmac_pad(x: Seq<u8>) -> Seq<u8> {
    x + seq![0x80u8] + Seq::new((15 - x.len()) as nat, |i: int| 0u8)
}

/// The final CMAC block: a complete block xored with K1, or a padded short
/// one xored with K2.
pub open spec fn cmac_last(key: Seq<u8>, m: Seq<u8>) -> Seq<u8> {
    let n = cmac_blocks(m.len());
    let k1 = cmac_dbl(aes128_encrypt(key, zero_block()));
    let k2 = cmac_dbl(k1);
    let tail = m.subrange(16 * (n - 1), m.len() as int);
    if m.len() > 0 && m.len() % 16 == 0 {
        xor_seq(tail, k1)
    } else {
        xor_seq(cmac_pad(tail), k2)
    }
}

/// CBC chaining value after the first `k` complete blocks of `m`.
pub open spec fn cbc_chain(key: Seq<u8>, m: Seq<u8>, k: nat) -> Seq<u8>
    decreases k,
{
    if k == 0 {
        zero_block()
    } else {
        aes128_encrypt(key, xor_seq(cbc_chain(key, m, (k - 1) as nat), m.subrange(16 * (k - 1), 16 * k as int)))
    }
}

/// AES-128-CMAC of `m` (RFC 4493).
pub open spec fn aes_cmac(key: Seq<u8>, m: Seq<u8>) -> Seq<u8> {
    let n = cmac_blocks(m.len());
    aes128_encrypt(key, xor_seq(cbc_chain(key, m, (n - 1) as nat), cmac_last(key, m)))
}

fn cmac_dbl_exec(l: &[u8; 16]) -> (r: [u8; 16])
    ensures
        r@ == cmac_dbl(l@),
{
    let mut r = [0u8; 16];
    let mut i: usize = 0;
    while i < 16
        invariant
            i <= 16,
            forall|j: int| 0 <= j < i ==> r@[j] == cmac_dbl(l@)[j],
        decreases 16 - i,
    {
        let carry: u8 = if i < 15 { l[i + 1] >> 7u8 } else { 0u8 };
        let rb: u8 = if i == 15 && l[0] >= 0x80 { 0x87u8 } else { 0u8 };
        r[i] = ((l[i] << 1u8) | carry) ^ rb;
        i = i + 1;
    }
    proof {
        assert(r@ =~= cmac_dbl(l@));
    }
    r
}

/// AES-128-CMAC of `m` under `key`.
pub fn aes_cmac_exec(key: &[u8; 16], m: &[u8]) -> (tag: [u8; 16])
    ensures
        tag@ == aes_cmac(key@, m@),
{
    let zero = [0u8; 16];
    proof {
        assert(zero@ =~= zero_block());
    }
    let l = aes128(key, &zero);
    let k1 = cmac_dbl_exec(&l);
    let k2 = cmac_dbl_exec(&k1);
    let len = m.len();
    let n: usize = if len == 0 { 1 } else { len / 16 + if len % 16 == 0 { 0 } else { 1 } };
    proof {
        let ln = len as int;
        if ln > 0 {
            assert(n as int == (ln + 15) / 16) by (nonlinear_arith)
                requires
                    ln > 0,
                    n as int == ln / 16 + if ln % 16 == 0 { 0int } else { 1int },
            ;
            assert(16 * (n as int - 1) < ln <= 16 * n as int) by (nonlinear_arith)
                requires
                    ln > 0,
                    n as int == (ln + 15) / 16,
            ;
        }
        assert(n as nat == cmac_blocks(len as nat));
    }
    let mut x = zero;
    let mut k: usize = 0;
    while k + 1 < n
        invariant
            len == m@.len(),
            n as nat == cmac_blocks(len as nat),
            len > 0 ==> 16 * (n as int - 1) < len,
            k < n,
            x@ == cbc_chain(key@, m@, k as nat),
        decreases n - k,
    {
        let start = 16 * k;
        let mut blk = [0u8; 16];
        let mut i: usize = 0;
        while i < 16
            invariant
                start == 16 * k,
                start + 16 <= len,
                len == m@.len(),
                i <= 16,
                forall|j: int| 0 <= j < i ==> blk@[j] == m@[start + j],
            decreases 16 - i,
        {
            blk[i] = m[start + i];
            i = i + 1;
        }
        proof {
            assert(blk@ =~= m@.subrange(16 * k as int, 16 * (k as int + 1)));
        }
        let t = xor16(&x, &blk);
        x = aes128(key, &t);
        k = k + 1;
    }
    let start = 16 * (n - 1);
    let tl = len - start;
    let mut last = [0u8; 16];
    let complete = len > 0 && len % 16 == 0;
    let mut i: usize = 0;
    while i < 16
        invariant
            start == 16 * (n - 1),
            tl == len - start,
            len == m@.len(),
            tl <= 16,
            complete == (len > 0 && len % 16 == 0),
            complete ==> tl == 16,
            !complete ==> tl < 16,
            i <= 16,
            forall|j: int|
                0 <= j < i ==> last@[j] == (if complete {
                    xor_seq(m@.subrange(start as int, len as int), k1@)[j]
                } else {
                    xor_seq(cmac_pad(m@.subrange(start as int, len as int)), k2@)[j]
                }),
        decreases 16 - i,
    {
        if complete {
            last[i] = m[start + i] ^ k1[i];
        } else {
            let b: u8 = if i < tl { m[start + i] } else if i == tl { 0x80u8 } else { 0u8 };
            proof {
                let tail = m@.subrange(start as int, len as int);
                assert(cmac_pad(tail)[i as int] == b);
            }
            last[i] = b ^ k2[i];
        }
        i = i + 1;
    }
    proof {
        let tail = m@.subrange(start as int, len as int);
        if complete {
            assert(last@ =~= xor_seq(tail, k1@));
        } else {
            assert(cmac_pad(tail).len() == 16);
            assert(last@ =~= xor_seq(cmac_pad(tail), k2@));
        }
        assert(last@ == cmac_last(key@, m@));
    }
    let t = xor16(&x, &last);
    aes128(key, &t)
}

/// The 128-EIA2 message: `COUNT ‖ BEARER ‖ DIRECTION ‖ 0^26 ‖ MESSAGE`.
pub open spec fn eia2_input(count: u32, bearer: u8, dir: Direction, msg: Seq<u8>) -> Seq<u8> {
    u32_be(count) + seq![bearer_dir_byte(bearer, dir), 0u8, 0u8, 0u8] + msg
}

/// 128-EIA2 MAC-I: the first 32 bits of the AES-CMAC of the EIA2 input.
pub open spec fn eia2_mac(key: Seq<u8>, count: u32, bearer: u8, dir: Direction, msg: Seq<u8>) -> Seq<u8> {
    aes_cmac(key, eia2_input(count, bearer, dir, msg)).subrange(0, 4)
}

/// Compute the 128-EIA2 MAC-I of `msg`.
pub fn eia2_compute_mac(key: &[u8; 16], count: u32, bearer: u8, dir: Direction, msg: &[u8]) -> (mac: [u8; 4])
    ensures
        mac@ == eia2_mac(key@, count, bearer, dir, msg@),
{
    let mut input: Vec<u8> = Vec::new();
    let cb = crate::proto::wire::u32_to_be(count);
    crate::bytes_util::append_bytes(&mut input, &cb);
    input.push(bearer_dir(bearer, dir));
    input.push(0);
    input.push(0);
    input.push(0);
    crate::bytes_util::append_bytes(&mut input, msg);
    proof {
        assert(input@ =~= eia2_input(count, bearer, dir, msg@));
    }
    let tag = aes_cmac_exec(key, input.as_slice());
    let mac = [tag[0], tag[1], tag[2], tag[3]];
    proof {
        assert(mac@ =~= tag@.subrange(0, 4));
    }
    mac
}

/// Check a received MAC-I against the 128-EIA2 MAC of `msg` (in constant
/// time).
pub fn eia2_verify_mac(key: &[u8; 16], count: u32, bearer: u8, dir: Direction, msg: &[u8], mac_i: &[u8; 4]) -> (ok: bool)
    ensures
        ok == (eia2_mac(key@, count, bearer, dir, msg@) == mac_i@),
{
    let expected = eia2_compute_mac(key, count, bearer, dir, msg);
    ct_eq_bytes(&expected, mac_i)
}

// ── NAS COUNT ────────────────────────────────────────────────────────────────

/// The NAS COUNT a received 8-bit sequence number stands for, given the
/// next expected COUNT: the expected overflow counter with the received
/// sequence number, one overflow further on when the sequence number is
/// below the expected one (wrapping at 2^32).
pub open spec fn reconstruct_count_spec(expected: u32, seq_byte: u8) -> u32 {
    let cand = (expected & 0xFFFF_FF00u32) | (seq_byte as u32);
    if (seq_byte as u32) < (expected & 0xFFu32) {
        ((cand as int + 0x100) % 0x1_0000_0000) as u32
    } else {
        cand
    }
}

/// Reconstruct the full NAS COUNT from its low byte.
pub fn reconstruct_count(expected: u32, seq_byte: u8) -> (count: u32)
    ensures
        count == reconstruct_count_spec(expected, seq_byte),
{
    let cand = (expected & 0xFFFF_FF00u32) | (seq_byte as u32);
    if (seq_byte as u32) < (expected & 0xFFu32) {
        cand.wrapping_add(0x100)
    } else {
        cand
    }
}

/// A sequence number equal to the low byte of the expected COUNT stands for
/// the expected COUNT itself.
pub proof fn law_reconstruct_count_in_step(expected: u32)
    ensures
        reconstruct_count_spec(expected, expected as u8) == expected,
{
    assert(((expected & 0xFFFF_FF00u32) | ((expected as u8) as u32)) == expected && !(((expected as u8) as u32) < (expected & 0xFFu32))) by (bit_vector);
}

// ── NAS key derivation ───────────────────────────────────────────────────────

/// A 128-bit NAS key: the 128 least significant bits of
/// `KDF(key, FC, [distinguisher, algorithm identity])`.
pub open spec fn nas_key_spec(key: Seq<u8>, fc: u8, distinguisher: u8, alg: u8) -> Seq<u8> {
    kdf_spec(key, fc, seq![seq![distinguisher], seq![alg]]).subrange(16, 32)
}

/// Derive one 128-bit NAS key (shared by the EPS and 5GS derivations, which
/// differ in FC only).
pub fn kdf_nas_key(key: &[u8; 32], fc: u8, distinguisher: u8, alg: u8) -> (k: [u8; 16])
    ensures
        k@ == nas_key_spec(key@, fc, distinguisher, alg),
{
    let d = [distinguisher];
    let a = [alg];
    let p0: &[u8] = &d;
    let p1: &[u8] = &a;
    let params: [&[u8]; 2] = [p0, p1];
    let full = crate::kdf::kdf_generic(key, fc, &params);
    proof {
        assert(d@ =~= seq![distinguisher]);
        assert(a@ =~= seq![alg]);
        assert(crate::kdf::slice_views(params@) =~= seq![seq![distinguisher], seq![alg]]);
    }
    let mut k = [0u8; 16];
    let mut i: usize = 0;
    while i < 16
        invariant
            i <= 16,
            forall|j: int| 0 <= j < i ==> k@[j] == full@[j + 16],
        decreases 16 - i,
    {
        k[i] = full[i + 16];
        i = i + 1;
    }
    proof {
        assert(k@ =~= full@.subrange(16, 32));
    }
    k
}

/// `(K_NASenc, K_NASint)` from Kasme for the selected algorithm pair
/// (TS 33.401 Annex A.7, FC = 0x15).
pub fn derive_nas_keys(kasme: &[u8; 32], eea: NasEeaAlgorithm, eia: NasEiaAlgorithm) -> (keys: ([u8; 16], [u8; 16]))
    ensures
        keys.0@ == nas_key_spec(kasme@, FC_NAS_ALGO_KEY_DERIVATION, ALGO_DISTINGUISHER_NAS_ENC, eea_id(eea)),
        keys.1@ == nas_key_spec(kasme@, FC_NAS_ALGO_KEY_DERIVATION, ALGO_DISTINGUISHER_NAS_INT, eia_id(eia)),
{
    let k_enc = kdf_nas_key(kasme, FC_NAS_ALGO_KEY_DERIVATION, ALGO_DISTINGUISHER_NAS_ENC, eea.id());
    let k_int = kdf_nas_key(kasme, FC_NAS_ALGO_KEY_DERIVATION, ALGO_DISTINGUISHER_NAS_INT, eia.id());
    (k_enc, k_int)
}

// ── Protecting one message ───────────────────────────────────────────────────

/// The payload a message travels as: ciphered with 128-EEA2 unless the
/// cipher is null.
pub open spec fn protected_payload(
    k_enc: Seq<u8>,
    cipher_null: bool,
    count: u32,
    bearer: u8,
    dir: Direction,
    plain: Seq<u8>,
) -> Seq<u8> {
    if cipher_null {
        plain
    } else {
        eea2_spec(k_enc, count, bearer, dir, plain)
    }
}

/// The MAC-I a payload carries: 128-EIA2 over the payload, or zeros when
/// integrity is null.
pub open spec fn protected_mac(
    k_int: Seq<u8>,
    integrity_null: bool,
    count: u32,
    bearer: u8,
    dir: Direction,
    payload: Seq<u8>,
) -> Seq<u8> {
    if integrity_null {
        seq![0u8, 0u8, 0u8, 0u8]
    } else {
        eia2_mac(k_int, count, bearer, dir, payload)
    }
}

/// What unprotecting gives: `None` when integrity is on and the MAC-I does
/// not verify, else the deciphered payload.
pub open spec fn unprotected_payload(
    k_enc: Seq<u8>,
    k_int: Seq<u8>,
    cipher_null: bool,
    integrity_null: bool,
    count: u32,
    bearer: u8,
    dir: Direction,
    mac_i: Seq<u8>,
    payload: Seq<u8>,
) -> Option<Seq<u8>> {
    if !integrity_null && eia2_mac(k_int, count, bearer, dir, payload) != mac_i {
        None
    } else {
        Some(protected_payload(k_enc, cipher_null, count, bearer, dir, payload))
    }
}

/// Cipher and MAC `plain` under the given keys.
pub fn protect_payload(
    k_enc: &[u8; 16],
    k_int: &[u8; 16],
    cipher_null: bool,
    integrity_null: bool,
    count: u32,
    bearer: u8,
    dir: Direction,
    plain: &[u8],
) -> (r: (Vec<u8>, [u8; 4]))
    ensures
        r.0@ == protected_payload(k_enc@, cipher_null, count, bearer, dir, plain@),
        r.1@ == protected_mac(k_int@, integrity_null, count, bearer, dir, r.0@),
{
    let mut payload = crate::bytes_util::to_vec(plain);
    if !cipher_null {
        eea2_apply(k_enc, count, bearer, dir, &mut payload);
    }
    let mac = if !integrity_null {
        eia2_compute_mac(k_int, count, bearer, dir, payload.as_slice())
    } else {
        let z = [0u8; 4];
        proof {
            assert(z@ =~= seq![0u8, 0u8, 0u8, 0u8]);
        }
        z
    };
    (payload, mac)
}

/// Verify and decipher a received payload under the given keys.
pub fn unprotect_payload(
    k_enc: &[u8; 16],
    k_int: &[u8; 16],
    cipher_null: bool,
    integrity_null: bool,
    count: u32,
    bearer: u8,
    dir: Direction,
    mac_i: &[u8; 4],
    payload: &[u8],
) -> (r: Option<Vec<u8>>)
    ensures
        match r {
            Some(p) => unprotected_payload(k_enc@, k_int@, cipher_null, integrity_null, count, bearer, dir, mac_i@, payload@) == Some(p@),
            None => unprotected_payload(k_enc@, k_int@, cipher_null, integrity_null, count, bearer, dir, mac_i@, payload@) is None,
        },
{
    if !integrity_null && !eia2_verify_mac(k_int, count, bearer, dir, payload, mac_i) {
        return None;
    }
    let mut plain = crate::bytes_util::to_vec(payload);
    if !cipher_null {
        eea2_apply(k_enc, count, bearer, dir, &mut plain);
    }
    Some(plain)
}

/// Unprotecting what was protected under the same keys, COUNT, bearer and
/// direction gives the plain message back.
pub proof fn law_protect_round_trip(
    k_enc: Seq<u8>,
    k_int: Seq<u8>,
    cipher_null: bool,
    integrity_null: bool,
    count: u32,
    bearer: u8,
    dir: Direction,
    plain: Seq<u8>,
)
    ensures
        ({
            let payload = protected_payload(k_enc, cipher_null, count, bearer, dir, plain);
            let mac = protected_mac(k_int, integrity_null, count, bearer, dir, payload);
            unprotected_payload(k_enc, k_int, cipher_null, integrity_null, count, bearer, dir, mac, payload) == Some(plain)
        }),
{
    law_eea2_involution(k_enc, count, bearer, dir, plain);
}

// ── Per-subscriber context ───────────────────────────────────────────────────

/// Per-subscriber EPS NAS security state: the NAS keys, the selected
/// algorithms, and the next downlink and uplink NAS COUNT.
#[derive(Clone, Copy)]
pub struct NasSecurityContext {
    pub k_nas_enc: [u8; 16],
    pub k_nas_int: [u8; 16],
    pub eea: NasEeaAlgorithm,
    pub eia: NasEiaAlgorithm,
    dl_count: u32,
    ul_count: u32,
}

impl NasSecurityContext {
    /// The next downlink COUNT.
    pub closed spec fn spec_dl_count(&self) -> u32 {
        self.dl_count
    }

    /// The next expected uplink COUNT.
    pub closed spec fn spec_ul_count(&self) -> u32 {
        self.ul_count
    }

    /// K_NASenc.
    pub closed spec fn spec_k_enc(&self) -> Seq<u8> {
        self.k_nas_enc@
    }

    /// K_NASint.
    pub closed spec fn spec_k_int(&self) -> Seq<u8> {
        self.k_nas_int@
    }

    /// The selected ciphering algorithm.
    pub closed spec fn spec_eea(&self) -> NasEeaAlgorithm {
        self.eea
    }

    /// The selected integrity algorithm.
    pub closed spec fn spec_eia(&self) -> NasEiaAlgorithm {
        self.eia
    }

    /// The cipher is the null algorithm EEA0.
    pub closed spec fn cipher_null(&self) -> bool {
        self.eea == NasEeaAlgorithm::Eea0
    }

    /// Integrity is the null algorithm EIA0.
    pub closed spec fn integrity_null(&self) -> bool {
        self.eia == NasEiaAlgorithm::Eia0
    }

    /// The null flags follow the selected algorithms.
    pub proof fn lemma_null_flags(&self)
        ensures
            self.cipher_null() == (self.spec_eea() == NasEeaAlgorithm::Eea0),
            self.integrity_null() == (self.spec_eia() == NasEiaAlgorithm::Eia0),
    {
    }

    /// Derive the NAS keys from Kasme for the selected algorithms; both
    /// COUNTs start at 0.
    pub fn new(kasme: &[u8; 32], eea: NasEeaAlgorithm, eia: NasEiaAlgorithm) -> (ctx: Self)
        ensures
            ctx.spec_k_enc() == nas_key_spec(kasme@, FC_NAS_ALGO_KEY_DERIVATION, ALGO_DISTINGUISHER_NAS_ENC, eea_id(eea)),
            ctx.spec_k_int() == nas_key_spec(kasme@, FC_NAS_ALGO_KEY_DERIVATION, ALGO_DISTINGUISHER_NAS_INT, eia_id(eia)),
            ctx.spec_eea() == eea,
            ctx.spec_eia() == eia,
            ctx.spec_dl_count() == 0,
            ctx.spec_ul_count() == 0,
    {
        let (k_nas_enc, k_nas_int) = derive_nas_keys(kasme, eea, eia);
        NasSecurityContext { k_nas_enc, k_nas_int, eea, eia, dl_count: 0, ul_count: 0 }
    }

    /// A context over already derived keys; both COUNTs start at 0.
    pub fn new_from_keys(k_nas_enc: [u8; 16], k_nas_int: [u8; 16], eea: NasEeaAlgorithm, eia: NasEiaAlgorithm) -> (ctx: Self)
        ensures
            ctx.spec_k_enc() == k_nas_enc@,
            ctx.spec_k_int() == k_nas_int@,
            ctx.spec_eea() == eea,
            ctx.spec_eia() == eia,
            ctx.spec_dl_count() == 0,
            ctx.spec_ul_count() == 0,
    {
        NasSecurityContext { k_nas_enc, k_nas_int, eea, eia, dl_count: 0, ul_count: 0 }
    }

    pub fn dl_count(&self) -> (c: u32)
        ensures
            c == self.spec_dl_count(),
    {
        self.dl_count
    }

    pub fn ul_count(&self) -> (c: u32)
        ensures
            c == self.spec_ul_count(),
    {
        self.ul_count
    }

    fn cipher_is_null(&self) -> (b: bool)
        ensures
            b == self.cipher_null(),
    {
        match self.eea {
            NasEeaAlgorithm::Eea0 => true,
            _ => false,
        }
    }

    fn integrity_is_null(&self) -> (b: bool)
        ensures
            b == self.integrity_null(),
    {
        match self.eia {
            NasEiaAlgorithm::Eia0 => true,
            _ => false,
        }
    }

    /// Protect an outbound (network to UE) message under the next downlink
    /// COUNT, which then advances by one: `(count, payload, MAC-I)`.
    pub fn protect_downlink(&mut self, bearer: u8, plain: &[u8]) -> (r: (u32, Vec<u8>, [u8; 4]))
        ensures
            protect_downlink_post(*old(self), *final(self), bearer, plain@, r.0, r.1@, r.2@),
    {
        let count = self.dl_count;
        self.dl_count = self.dl_count.wrapping_add(1);
        let cn = self.cipher_is_null();
        let inn = self.integrity_is_null();
        let (payload, mac) = protect_payload(&self.k_nas_enc, &self.k_nas_int, cn, inn, count, bearer, Direction::Downlink, plain);
        (count, payload, mac)
    }

    /// Verify and decipher an inbound (UE to network) message whose COUNT is
    /// reconstructed from `seq_byte`; on success the expected uplink COUNT
    /// moves past it, on failure nothing changes.
    pub fn unprotect_uplink(&mut self, bearer: u8, seq_byte: u8, mac_i: &[u8; 4], payload: &[u8]) -> (r: Option<Vec<u8>>)
        ensures
            unprotect_uplink_post(*old(self), *final(self), bearer, seq_byte, mac_i@, payload@, r),
    {
        let count = reconstruct_count(self.ul_count, seq_byte);
        let cn = self.cipher_is_null();
        let inn = self.integrity_is_null();
        let r = unprotect_payload(&self.k_nas_enc, &self.k_nas_int, cn, inn, count, bearer, Direction::Uplink, mac_i, payload);
        if r.is_some() {
            self.ul_count = count.wrapping_add(1);
        }
        r
    }
}

/// What `protect_downlink` does: the message goes out under the old
/// downlink COUNT, ciphered and MACed with the context's keys unless the
/// algorithms are null; the downlink COUNT advances by one (wrapping) and
/// nothing else changes.
pub open spec fn protect_downlink_post(
    old: NasSecurityContext,
    new: NasSecurityContext,
    bearer: u8,
    plain: Seq<u8>,
    count: u32,
    payload: Seq<u8>,
    mac: Seq<u8>,
) -> bool {
    &&& count == old.spec_dl_count()
    &&& payload == protected_payload(old.spec_k_enc(), old.cipher_null(), count, bearer, Direction::Downlink, plain)
    &&& mac == protected_mac(old.spec_k_int(), old.integrity_null(), count, bearer, Direction::Downlink, payload)
    &&& new.spec_dl_count() == (old.spec_dl_count() as int + 1) % 0x1_0000_0000
    &&& new.spec_ul_count() == old.spec_ul_count()
    &&& same_keys(old, new)
}

/// Two contexts hold the same keys and algorithms.
pub open spec fn same_keys(a: NasSecurityContext, b: NasSecurityContext) -> bool {
    &&& a.spec_k_enc() == b.spec_k_enc()
    &&& a.spec_k_int() == b.spec_k_int()
    &&& a.spec_eea() == b.spec_eea()
    &&& a.spec_eia() == b.spec_eia()
    &&& a.cipher_null() == b.cipher_null()
    &&& a.integrity_null() == b.integrity_null()
}

/// What `unprotect_uplink` does: the COUNT is reconstructed from the
/// sequence number; the payload is verified and deciphered with the
/// context's keys; on success the expected uplink COUNT moves one past the
/// reconstructed COUNT, on failure the context is unchanged.
pub open spec fn unprotect_uplink_post(
    old: NasSecurityContext,
    new: NasSecurityContext,
    bearer: u8,
    seq_byte: u8,
    mac_i: Seq<u8>,
    payload: Seq<u8>,
    r: Option<Vec<u8>>,
) -> bool {
    let count = reconstruct_count_spec(old.spec_ul_count(), seq_byte);
    let expect = unprotected_payload(
        old.spec_k_enc(),
        old.spec_k_int(),
        old.cipher_null(),
        old.integrity_null(),
        count,
        bearer,
        Direction::Uplink,
        mac_i,
        payload,
    );
    &&& match r {
        Some(p) => expect == Some(p@) && new.spec_ul_count() == (count as int + 1) % 0x1_0000_0000,
        None => expect is None && new.spec_ul_count() == old.spec_ul_count(),
    }
    &&& new.spec_dl_count() == old.spec_dl_count()
    &&& same_keys(old, new)
}

} // verus!
