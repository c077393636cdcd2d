//! 5GS NAS security: 128-5G-EA2 / 128-5G-IA2, which TS 33.501 §5.11 defines
//! as the EPS 128-EEA2 / 128-EIA2 constructions (reused from
//! `crate::proto::nas::security`), and the KAMF to NAS-key derivation of
//! TS 33.501 Annex A.8 (FC = 0x69).
//!
//! Algorithm convention: identity 0 is the null algorithm (5G-EA0 / 5G-IA0);
//! any other identity is served by the AES-based pair.

use vstd::prelude::*;

use crate::proto::nas::security::{
    kdf_nas_key, nas_key_spec, protect_payload, protected_mac, protected_payload,
    reconstruct_count, reconstruct_count_spec, unprotect_payload, unprotected_payload, Direction,
    NAS_BEARER,
};

verus! {

/// FC of the 5G algorithm key derivation (TS 33.501 Annex A.8).
pub const FC_5G_ALGO_KEY_DERIVATION: u8 = 0x69;
/// Algorithm type distinguishers (TS 33.501 Table A.8-1).
pub const ALGO_DISTINGUISHER_NAS_ENC: u8 = 0x01;
pub const ALGO_DISTINGUISHER_NAS_INT: u8 = 0x02;

/// One protected outbound message.
#[derive(Debug, Clone)]
pub struct ProtectedNas5gs {
    pub count: u32,
    pub mac_i: [u8; 4],
    pub payload: Vec<u8>,
}

/// Per-subscriber 5GS NAS security state.
#[derive(Clone)]
pub struct Nas5gsSecurityContext {
    pub k_nas_enc: [u8; 16],
    pub k_nas_int: [u8; 16],
    /// Raw cipher algorithm identity from the Security Mode Command; 0 = null.
    pub nas_cipher_alg: u8,
    /// Raw integrity algorithm identity; 0 = null.
    pub nas_integrity_alg: u8,
    dl_count: u32,
    ul_count: u32,
}

/// `(K_NASenc, K_NASint)` from KAMF for the negotiated algorithm identities
/// (TS 33.501 Annex A.8): the 128 least significant bits of
/// `KDF(KAMF, 0x69, [distinguisher, algorithm identity])`.
pub fn derive_nas_keys(kamf: &[u8; 32], nas_cipher_alg: u8, nas_integrity_alg: u8) -> (keys: ([u8; 16], [u8; 16]))
    ensures
        keys.0@ == nas_key_spec(kamf@, FC_5G_ALGO_KEY_DERIVATION, ALGO_DISTINGUISHER_NAS_ENC, nas_cipher_alg),
        keys.1@ == nas_key_spec(kamf@, FC_5G_ALGO_KEY_DERIVATION, ALGO_DISTINGUISHER_NAS_INT, nas_integrity_alg),
{
    let k_nas_enc = kdf_nas_key(kamf, FC_5G_ALGO_KEY_DERIVATION, ALGO_DISTINGUISHER_NAS_ENC, nas_cipher_alg);
    let k_nas_int = kdf_nas_key(kamf, FC_5G_ALGO_KEY_DERIVATION, ALGO_DISTINGUISHER_NAS_INT, nas_integrity_alg);
    (k_nas_enc, k_nas_int)
}

impl Nas5gsSecurityContext {
    pub closed spec fn spec_k_enc(&self) -> Seq<u8> {
        self.k_nas_enc@
    }

    pub closed spec fn spec_k_int(&self) -> Seq<u8> {
        self.k_nas_int@
    }

    pub closed spec fn spec_cipher_alg(&self) -> u8 {
        self.nas_cipher_alg
    }

    pub closed spec fn spec_integrity_alg(&self) -> u8 {
        self.nas_integrity_alg
    }

    pub closed spec fn spec_dl_count(&self) -> u32 {
        self.dl_count
    }

    pub closed spec fn spec_ul_count(&self) -> u32 {
        self.ul_count
    }

    /// Derive the NAS keys from KAMF; both COUNTs start at 0.
    pub fn new(kamf: &[u8; 32], nas_cipher_alg: u8, nas_integrity_alg: u8) -> (ctx: Self)
        ensures
            ctx.spec_k_enc() == nas_key_spec(kamf@, FC_5G_ALGO_KEY_DERIVATION, ALGO_DISTINGUISHER_NAS_ENC, nas_cipher_alg),
            ctx.spec_k_int() == nas_key_spec(kamf@, FC_5G_ALGO_KEY_DERIVATION, ALGO_DISTINGUISHER_NAS_INT, nas_integrity_alg),
            ctx.spec_cipher_alg() == nas_cipher_alg,
            ctx.spec_integrity_alg() == nas_integrity_alg,
            ctx.spec_dl_count() == 0,
            ctx.spec_ul_count() == 0,
    {
        let (k_nas_enc, k_nas_int) = derive_nas_keys(kamf, nas_cipher_alg, nas_integrity_alg);
        Nas5gsSecurityContext { k_nas_enc, k_nas_int, nas_cipher_alg, nas_integrity_alg, dl_count: 0, ul_count: 0 }
    }

    /// A context over already derived keys; both COUNTs start at 0.
    pub fn new_from_keys(k_nas_enc: [u8; 16], k_nas_int: [u8; 16], nas_cipher_alg: u8, nas_integrity_alg: u8) -> (ctx: Self)
        ensures
            ctx.spec_k_enc() == k_nas_enc@,
            ctx.spec_k_int() == k_nas_int@,
            ctx.spec_cipher_alg() == nas_cipher_alg,
            ctx.spec_integrity_alg() == nas_integrity_alg,
            ctx.spec_dl_count() == 0,
            ctx.spec_ul_count() == 0,
    {
        Nas5gsSecurityContext { k_nas_enc, k_nas_int, nas_cipher_alg, nas_integrity_alg, dl_count: 0, ul_count: 0 }
    }

    pub fn dl_count(&self) -> (c: u32)
        ensures
            c == self.spec_dl_count(),
    {
        self.dl_count
    }

    pub fn ul_count(&self) -> (c: u32)
        ensures
            c == self.spec_ul_count(),
    {
        self.ul_count
    }

    fn cipher_is_null(&self) -> (b: bool)
        ensures
            b == (self.spec_cipher_alg() == 0),
    {
        self.nas_cipher_alg == 0
    }

    fn integrity_is_null(&self) -> (b: bool)
        ensures
            b == (self.spec_integrity_alg() == 0),
    {
        self.nas_integrity_alg == 0
    }

    /// Protect an outbound (AMF to UE) message under the next downlink
    /// COUNT, which then advances by one.
    pub fn protect_downlink(&mut self, plain: &[u8]) -> (p: ProtectedNas5gs)
        ensures
            protect_downlink_5g_post(*old(self), *final(self), plain@, p.count, p.payload@, p.mac_i@),
    {
        let count = self.dl_count;
        self.dl_count = self.dl_count.wrapping_add(1);
        let cn = self.cipher_is_null();
        let inn = self.integrity_is_null();
        let (payload, mac_i) = protect_payload(
            &self.k_nas_enc,
            &self.k_nas_int,
            cn,
            inn,
            count,
            NAS_BEARER,
            Direction::Downlink,
            plain,
        );
        ProtectedNas5gs { count, mac_i, payload }
    }

    /// Verify and decipher an inbound (UE to AMF) message whose COUNT is
    /// reconstructed from `seq_byte`; on success the expected uplink COUNT
    /// moves past it, on failure nothing changes.
    pub fn unprotect_uplink(&mut self, seq_byte: u8, mac_i: [u8; 4], ciphertext: &[u8]) -> (r: Option<Vec<u8>>)
        ensures
            unprotect_uplink_5g_post(*old(self), *final(self), seq_byte, mac_i@, ciphertext@, r),
    {
        let count = reconstruct_count(self.ul_count, seq_byte);
        let cn = self.cipher_is_null();
        let inn = self.integrity_is_null();
        let r = unprotect_payload(
            &self.k_nas_enc,
            &self.k_nas_int,
            cn,
            inn,
            count,
            NAS_BEARER,
            Direction::Uplink,
            &mac_i,
            ciphertext,
        );
        if r.is_some() {
            self.ul_count = count.wrapping_add(1);
        }
        r
    }
}

/// Two contexts hold the same keys and algorithms.
pub open spec fn same_keys_5g(a: Nas5gsSecurityContext, b: Nas5gsSecurityContext) -> bool {
    &&& a.spec_k_enc() == b.spec_k_enc()
    &&& a.spec_k_int() == b.spec_k_int()
    &&& a.spec_cipher_alg() == b.spec_cipher_alg()
    &&& a.spec_integrity_alg() == b.spec_integrity_alg()
}

/// What `protect_downlink` does: the message goes out under the old
/// downlink COUNT, ciphered and MACed unless the algorithm is null; the
/// downlink COUNT advances by one (wrapping); nothing else changes.
pub open spec fn protect_downlink_5g_post(
    old: Nas5gsSecurityContext,
    new: Nas5gsSecurityContext,
    plain: Seq<u8>,
    count: u32,
    payload: Seq<u8>,
    mac: Seq<u8>,
) -> bool {
    &&& count == old.spec_dl_count()
    &&& payload == protected_payload(old.spec_k_enc(), old.spec_cipher_alg() == 0, count, NAS_BEARER, Direction::Downlink, plain)
    &&& mac == protected_mac(old.spec_k_int(), old.spec_integrity_alg() == 0, count, NAS_BEARER, Direction::Downlink, payload)
    &&& new.spec_dl_count() == (old.spec_dl_count() as int + 1) % 0x1_0000_0000
    &&& new.spec_ul_count() == old.spec_ul_count()
    &&& same_keys_5g(old, new)
}

/// What `unprotect_uplink` does (see the EPS counterpart).
pub open spec fn unprotect_uplink_5g_post(
    old: Nas5gsSecurityContext,
    new: Nas5gsSecurityContext,
    seq_byte: u8,
    mac_i: Seq<u8>,
    payload: Seq<u8>,
    r: Option<Vec<u8>>,
) -> bool {
    let count = reconstruct_count_spec(old.spec_ul_count(), seq_byte);
    let expect = unprotected_payload(
        old.spec_k_enc(),
        old.spec_k_int(),
        old.spec_cipher_alg() == 0,
        old.spec_integrity_alg() == 0,
        count,
        NAS_BEARER,
        Direction::Uplink,
        mac_i,
        payload,
    );
    &&& match r {
        Some(p) => expect == Some(p@) && new.spec_ul_count() == (count as int + 1) % 0x1_0000_0000,
        None => expect is None && new.spec_ul_count() == old.spec_ul_count(),
    }
    &&& new.spec_dl_count() == old.spec_dl_count()
    &&& same_keys_5g(old, new)
}

} // verus!
