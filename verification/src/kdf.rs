//! 3GPP key derivation: the generic KDF of TS 33.220 Annex B over
//! HMAC-SHA-256, the LTE Kasme derivation (TS 33.401 Annex A.2) and the
//! 5G-AKA key chain (TS 33.501 Annex A.2, A.4, A.6, A.7).

use hmac::Mac;
use vstd::prelude::*;

use crate::proto::wire::u16_be;

verus! {

type HmacSha256 = hmac::Hmac<sha2::Sha256>;

/// HMAC-SHA-256 of `msg` under `key` (32 bytes).
pub uninterp spec fn hmac_sha256_spec(key: Seq<u8>, msg: Seq<u8>) -> Seq<u8>;

/// Calls `hmac::Hmac<sha2::Sha256>`: `new_from_slice`, `update`, `finalize`.
/// Trusted: the 32 bytes returned are the HMAC-SHA-256 tag of `msg` under
/// `key`, a function of these two alone. `new_from_slice` accepts keys of
/// any length (longer keys are hashed first), so the `expect` never fires.
#[verifier::external_body]
pub(crate) fn hmac_sha256(key: &[u8], msg: &[u8]) -> (out: [u8; 32])
    ensures
        out@ == hmac_sha256_spec(key@, msg@),
{
    let mut mac = HmacSha256::new_from_slice(key).expect("HMAC-SHA-256 accepts any key length");
    mac.update(msg);
    let tag = mac.finalize().into_bytes();
    let mut out = [0u8; 32];
    out.copy_from_slice(&tag);
    out
}

/// FC of the Kasme derivation (TS 33.401 Annex A.2).
pub const FC_KASME_DERIVATION: u8 = 0x10;
/// FC values of the 5G-AKA chain (TS 33.501 Annex A).
pub const FC_KAUSF_DERIVATION: u8 = 0x6A;
pub const FC_RES_STAR_DERIVATION: u8 = 0x6B;
pub const FC_KSEAF_DERIVATION: u8 = 0x6C;
pub const FC_KAMF_DERIVATION: u8 = 0x6D;

/// `P0 ‖ L0 ‖ … ‖ Pn ‖ Ln`: each parameter followed by its length as two
/// big-endian bytes (the length modulo 2^16).
pub open spec fn kdf_params(params: Seq<Seq<u8>>) -> Seq<u8>
    decreases params.len(),
{
    if params.len() == 0 {
        Seq::empty()
    } else {
        kdf_params(params.drop_last()) + params.last() + u16_be((params.last().len() % 65536) as u16)
    }
}

/// The KDF input string `S = FC ‖ P0 ‖ L0 ‖ … ‖ Pn ‖ Ln`.
pub open spec fn kdf_input(fc: u8, params: Seq<Seq<u8>>) -> Seq<u8> {
    seq![fc] + kdf_params(params)
}

/// The generic 3GPP KDF: HMAC-SHA-256(key, S), all 256 bits.
pub open spec fn kdf_spec(key: Seq<u8>, fc: u8, params: Seq<Seq<u8>>) -> Seq<u8> {
    hmac_sha256_spec(key, kdf_input(fc, params))
}

/// The views of a list of byte slices.
pub open spec fn slice_views(params: Seq<&[u8]>) -> Seq<Seq<u8>> {
    Seq::new(params.len(), |i: int| params[i]@)
}

/// Generic 3GPP KDF (TS 33.220 Annex B): HMAC-SHA-256(key, S) with
/// `S = FC ‖ P0 ‖ L0 ‖ … ‖ Pn ‖ Ln`.
pub fn kdf_generic(key: &[u8], fc: u8, params: &[&[u8]]) -> (out: [u8; 32])
    ensures
        out@ == kdf_spec(key@, fc, slice_views(params@)),
{
    let mut s: Vec<u8> = Vec::new();
    s.push(fc);
    let n = params.len();
    let mut i: usize = 0;
    while i < n
        invariant
            n == params@.len(),
            i <= n,
            s@ == kdf_input(fc, slice_views(params@).take(i as int)),
        decreases n - i,
    {
        let p: &[u8] = params[i];
        crate::bytes_util::append_bytes(&mut s, p);
        let len = (p.len() % 65536) as u16;
        let lb = crate::proto::wire::u16_to_be(len);
        s.push(lb[0]);
        s.push(lb[1]);
        proof {
            let v = slice_views(params@);
            assert(v.take(i as int + 1).drop_last() =~= v.take(i as int));
            assert(v.take(i as int + 1).last() == p@);
            assert(s@ =~= kdf_input(fc, v.take(i as int + 1)));
        }
        i = i + 1;
    }
    proof {
        assert(slice_views(params@).take(n as int) =~= slice_views(params@));
    }
    hmac_sha256(key, &s)
}

/// `CK ‖ IK`, the key of the AKA-based derivations.
pub open spec fn ck_ik(ck: Seq<u8>, ik: Seq<u8>) -> Seq<u8> {
    ck + ik
}

fn concat_ck_ik(ck: &[u8; 16], ik: &[u8; 16]) -> (key: [u8; 32])
    ensures
        key@ == ck_ik(ck@, ik@),
{
    let mut key = [0u8; 32];
    let mut i: usize = 0;
    while i < 32
        invariant
            i <= 32,
            forall|j: int| 0 <= j < i ==> key@[j] == ck_ik(ck@, ik@)[j],
        decreases 32 - i,
    {
        if i < 16 {
            key[i] = ck[i];
        } else {
            key[i] = ik[i - 16];
        }
        i = i + 1;
    }
    proof {
        assert(key@ =~= ck_ik(ck@, ik@));
    }
    key
}

/// Kasme from CK, IK, the serving network identity (PLMN, 3 octets) and
/// SQN ⊕ AK (TS 33.401 Annex A.2): `KDF(CK ‖ IK, 0x10, [SN-Id, SQN ⊕ AK])`,
/// all 256 bits.
pub fn derive_kasme(ck: &[u8; 16], ik: &[u8; 16], sn_id: &[u8; 3], sqn_xor_ak: &[u8; 6]) -> (kasme: [u8; 32])
    ensures
        kasme@ == kdf_spec(ck_ik(ck@, ik@), FC_KASME_DERIVATION, seq![sn_id@, sqn_xor_ak@]),
{
    let key = concat_ck_ik(ck, ik);
    let p0: &[u8] = sn_id;
    let p1: &[u8] = sqn_xor_ak;
    let params: [&[u8]; 2] = [p0, p1];
    let out = kdf_generic(&key, FC_KASME_DERIVATION, &params);
    proof {
        assert(slice_views(params@) =~= seq![sn_id@, sqn_xor_ak@]);
    }
    out
}

/// `"5G:mnc-mcc."` as bytes.
pub open spec fn snn_prefix() -> Seq<u8> {
    seq![0x35u8, 0x47, 0x3a, 0x6d, 0x6e, 0x63, 0x2d, 0x6d, 0x63, 0x63, 0x2e]
}

/// `".3gppnetwork.org"` as bytes.
pub open spec fn snn_suffix() -> Seq<u8> {
    seq![0x2eu8, 0x33, 0x67, 0x70, 0x70, 0x6e, 0x65, 0x74, 0x77, 0x6f, 0x72, 0x6b, 0x2e, 0x6f, 0x72, 0x67]
}

/// Serving Network Name for the 5G-AKA KDFs: `"5G:mnc-mcc." ‖ PLMN ‖
/// ".3gppnetwork.org"`, the PLMN octets carried as they are.
pub fn serving_network_name(plmn: &[u8; 3]) -> (snn: Vec<u8>)
    ensures
        snn@ == snn_prefix() + plmn@ + snn_suffix(),
{
    let prefix: [u8; 11] = [0x35, 0x47, 0x3a, 0x6d, 0x6e, 0x63, 0x2d, 0x6d, 0x63, 0x63, 0x2e];
    let suffix: [u8; 16] = [0x2e, 0x33, 0x67, 0x70, 0x70, 0x6e, 0x65, 0x74, 0x77, 0x6f, 0x72, 0x6b, 0x2e, 0x6f, 0x72, 0x67];
    let mut snn: Vec<u8> = Vec::new();
    crate::bytes_util::append_bytes(&mut snn, &prefix);
    crate::bytes_util::append_bytes(&mut snn, plmn);
    crate::bytes_util::append_bytes(&mut snn, &suffix);
    proof {
        assert(prefix@ =~= snn_prefix());
        assert(suffix@ =~= snn_suffix());
        assert(snn@ =~= snn_prefix() + plmn@ + snn_suffix());
    }
    snn
}

/// KAUSF (TS 33.501 Annex A.2): `KDF(CK ‖ IK, 0x6A, [SNN, SQN ⊕ AK])`.
pub fn derive_kausf(ck: &[u8; 16], ik: &[u8; 16], snn: &[u8], sqn_xor_ak: &[u8; 6]) -> (kausf: [u8; 32])
    ensures
        kausf@ == kdf_spec(ck_ik(ck@, ik@), FC_KAUSF_DERIVATION, seq![snn@, sqn_xor_ak@]),
{
    let key = concat_ck_ik(ck, ik);
    let p1: &[u8] = sqn_xor_ak;
    let params: [&[u8]; 2] = [snn, p1];
    let out = kdf_generic(&key, FC_KAUSF_DERIVATION, &params);
    proof {
        assert(slice_views(params@) =~= seq![snn@, sqn_xor_ak@]);
    }
    out
}

/// RES* / XRES* (TS 33.501 Annex A.4): the 128 least significant bits of
/// `KDF(CK ‖ IK, 0x6B, [SNN, RAND, RES])`.
pub fn derive_res_star(ck: &[u8; 16], ik: &[u8; 16], snn: &[u8], rand: &[u8; 16], res: &[u8; 8]) -> (res_star: [u8; 16])
    ensures
        res_star@ == kdf_spec(ck_ik(ck@, ik@), FC_RES_STAR_DERIVATION, seq![snn@, rand@, res@]).subrange(16, 32),
{
    let key = concat_ck_ik(ck, ik);
    let p1: &[u8] = rand;
    let p2: &[u8] = res;
    let params: [&[u8]; 3] = [snn, p1, p2];
    let full = kdf_generic(&key, FC_RES_STAR_DERIVATION, &params);
    proof {
        assert(slice_views(params@) =~= seq![snn@, rand@, res@]);
    }
    let mut out = [0u8; 16];
    let mut i: usize = 0;
    while i < 16
        invariant
            i <= 16,
            forall|j: int| 0 <= j < i ==> out@[j] == full@[j + 16],
        decreases 16 - i,
    {
        out[i] = full[i + 16];
        i = i + 1;
    }
    proof {
        assert(out@ =~= full@.subrange(16, 32));
    }
    out
}

/// KSEAF (TS 33.501 Annex A.6): `KDF(KAUSF, 0x6C, [SNN])`.
pub fn derive_kseaf(kausf: &[u8; 32], snn: &[u8]) -> (kseaf: [u8; 32])
    ensures
        kseaf@ == kdf_spec(kausf@, FC_KSEAF_DERIVATION, seq![snn@]),
{
    let params: [&[u8]; 1] = [snn];
    let out = kdf_generic(kausf, FC_KSEAF_DERIVATION, &params);
    proof {
        assert(slice_views(params@) =~= seq![snn@]);
    }
    out
}

/// KAMF (TS 33.501 Annex A.7): `KDF(KSEAF, 0x6D, [SUPI, ABBA])`.
pub fn derive_kamf(kseaf: &[u8; 32], supi: &[u8], abba: &[u8; 2]) -> (kamf: [u8; 32])
    ensures
        kamf@ == kdf_spec(kseaf@, FC_KAMF_DERIVATION, seq![supi@, abba@]),
{
    let p1: &[u8] = abba;
    let params: [&[u8]; 2] = [supi, p1];
    let out = kdf_generic(kseaf, FC_KAMF_DERIVATION, &params);
    proof {
        assert(slice_views(params@) =~= seq![supi@, abba@]);
    }
    out
}

} // verus!
