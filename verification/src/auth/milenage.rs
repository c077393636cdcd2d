//! Milenage authentication and key generation — 3GPP TS 35.205/206.
//!
//! f1, f1*, f2, f3, f4, f5 and f5* over AES-128 with the TS 35.206 default
//! rotations (r1 = 64, r2 = 0, r3 = 32, r4 = 64, r5 = 96 bits) and constants
//! (c1 = 0, c2 = 1, c3 = 2, c4 = 4, c5 = 8 in the last byte).

use aes::cipher::generic_array::GenericArray;
use aes::cipher::{BlockEncrypt, KeyInit};
use aes::Aes128;
use subtle::ConstantTimeEq;
use vstd::prelude::*;

pub use crate::auth::keys::{Amf, AuthKey, OpCode, Rand, Sqn};
use crate::auth::keys::sqn_bytes;

verus! {

/// The AES-128 block cipher: E_K(block).
pub uninterp spec fn aes128_encrypt(key: Seq<u8>, block: Seq<u8>) -> Seq<u8>;

/// Calls `aes::Aes128::encrypt_block` under `key`.
/// Trusted: the result is the one AES-128 encryption of `block` under `key`,
/// a function of these two alone.
#[verifier::external_body]
pub(crate) fn aes128(k: &[u8; 16], block: &[u8; 16]) -> (out: [u8; 16])
    ensures
        out@ == aes128_encrypt(k@, block@),
{
    let cipher = Aes128::new(GenericArray::from_slice(k));
    let mut b = GenericArray::from(*block);
    cipher.encrypt_block(&mut b);
    b.into()
}

/// Calls `subtle::ConstantTimeEq::ct_eq` on two byte slices.
/// Trusted: the returned choice is 1 exactly when both slices have the same
/// length and hold the same bytes (the comparison of equal-length slices
/// takes time independent of their contents).
#[verifier::external_body]
pub(crate) fn ct_eq_bytes(a: &[u8], b: &[u8]) -> (r: bool)
    ensures
        r == (a@ == b@),
{
    bool::from(a.ct_eq(b))
}

/// Byte-wise exclusive or.
pub open spec fn xor_seq(a: Seq<u8>, b: Seq<u8>) -> Seq<u8> {
    Seq::new(a.len(), |i: int| a[i] ^ b[i])
}

/// Cyclic left rotation by `r` bytes.
pub open spec fn rot_bytes(a: Seq<u8>, r: int) -> Seq<u8> {
    Seq::new(a.len(), |i: int| a[(i + r) % (a.len() as int)])
}

/// Xor the constant `c` into the last byte of a 16-byte block.
pub open spec fn xor_last(a: Seq<u8>, c: u8) -> Seq<u8> {
    a.update(15, a[15] ^ c)
}

/// TEMP = E_K(RAND xor OPc).
pub open spec fn milenage_temp(k: Seq<u8>, opc: Seq<u8>, rand: Seq<u8>) -> Seq<u8> {
    aes128_encrypt(k, xor_seq(rand, opc))
}

/// IN1 = SQN || AMF || SQN || AMF.
pub open spec fn milenage_in1(sqn: Seq<u8>, amf: Seq<u8>) -> Seq<u8> {
    sqn + amf + sqn + amf
}

/// OUT1 = E_K(TEMP xor rot(IN1 xor OPc, r1) xor c1) xor OPc.
pub open spec fn milenage_out1(k: Seq<u8>, opc: Seq<u8>, rand: Seq<u8>, sqn: Seq<u8>, amf: Seq<u8>) -> Seq<u8> {
    xor_seq(
        aes128_encrypt(k, xor_seq(milenage_temp(k, opc, rand), rot_bytes(xor_seq(milenage_in1(sqn, amf), opc), 8))),
        opc,
    )
}

/// OUTn = E_K(rot(TEMP xor OPc, r) xor c) xor OPc, for n = 2..5.
pub open spec fn milenage_out(k: Seq<u8>, opc: Seq<u8>, rand: Seq<u8>, r: int, c: u8) -> Seq<u8> {
    xor_seq(
        aes128_encrypt(k, xor_last(rot_bytes(xor_seq(milenage_temp(k, opc, rand), opc), r), c)),
        opc,
    )
}

/// OPc = E_K(OP) xor OP.
pub open spec fn opc_from_op(k: Seq<u8>, op: Seq<u8>) -> Seq<u8> {
    xor_seq(aes128_encrypt(k, op), op)
}

/// All seven Milenage function outputs for a single (RAND, SQN, AMF) triple.
#[derive(Clone, Copy, Debug, PartialEq, Eq)]
pub struct AuthVector {
    /// f1  — 64-bit network authentication code (MAC-A).
    pub mac_a: [u8; 8],
    /// f1* — 64-bit resynchronisation authentication code (MAC-S).
    pub mac_s: [u8; 8],
    /// f2  — 64-bit signed response (RES/XRES).
    pub res: [u8; 8],
    /// f3  — 128-bit confidentiality key (CK).
    pub ck: [u8; 16],
    /// f4  — 128-bit integrity key (IK).
    pub ik: [u8; 16],
    /// f5  — 48-bit anonymity key (AK).
    pub ak: [u8; 6],
    /// f5* — 48-bit anonymity key for resync (AK*).
    pub ak_star: [u8; 6],
}

/// `av` holds f1..f5* of Milenage under key `k` and OPc `opc` for the triple.
pub open spec fn is_milenage_vector(
    av: AuthVector,
    k: Seq<u8>,
    opc: Seq<u8>,
    rand: Seq<u8>,
    sqn: Seq<u8>,
    amf: Seq<u8>,
) -> bool {
    let out1 = milenage_out1(k, opc, rand, sqn, amf);
    let out2 = milenage_out(k, opc, rand, 0, 1);
    &&& av.mac_a@ == out1.subrange(0, 8)
    &&& av.mac_s@ == out1.subrange(8, 16)
    &&& av.ak@ == out2.subrange(0, 6)
    &&& av.res@ == out2.subrange(8, 16)
    &&& av.ck@ == milenage_out(k, opc, rand, 4, 2)
    &&& av.ik@ == milenage_out(k, opc, rand, 8, 4)
    &&& av.ak_star@ == milenage_out(k, opc, rand, 12, 8).subrange(0, 6)
}

/// AUTN = (SQN xor AK) || AMF || MAC-A.
pub open spec fn autn_spec(av: AuthVector, sqn: Seq<u8>, amf: Seq<u8>) -> Seq<u8> {
    xor_seq(sqn, av.ak@) + amf + av.mac_a@
}

pub(crate) fn xor16(a: &[u8; 16], b: &[u8; 16]) -> (r: [u8; 16])
    ensures
        r@ == xor_seq(a@, b@),
{
    let mut r = [0u8; 16];
    let mut i: usize = 0;
    while i < 16
        invariant
            i <= 16,
            forall|j: int| 0 <= j < i ==> r@[j] == a@[j] ^ b@[j],
        decreases 16 - i,
    {
        r[i] = a[i] ^ b[i];
        i = i + 1;
    }
    proof {
        assert(r@ =~= xor_seq(a@, b@));
    }
    r
}

fn rot16(a: &[u8; 16], rot: usize) -> (r: [u8; 16])
    requires
        rot < 16,
    ensures
        r@ == rot_bytes(a@, rot as int),
{
    let mut r = [0u8; 16];
    let mut i: usize = 0;
    while i < 16
        invariant
            i <= 16,
            rot < 16,
            forall|j: int| 0 <= j < i ==> r@[j] == a@[(j + rot) % 16],
        decreases 16 - i,
    {
        r[i] = a[(i + rot) % 16];
        i = i + 1;
    }
    proof {
        assert(r@ =~= rot_bytes(a@, rot as int));
    }
    r
}

fn with_last_xored(a: &[u8; 16], c: u8) -> (r: [u8; 16])
    ensures
        r@ == xor_last(a@, c),
{
    let mut r = *a;
    r[15] = a[15] ^ c;
    proof {
        assert(r@ =~= xor_last(a@, c));
    }
    r
}

/// E_K(x) xor OPc.
fn encrypt_then_xor(k: &[u8; 16], x: &[u8; 16], opc: &[u8; 16]) -> (r: [u8; 16])
    ensures
        r@ == xor_seq(aes128_encrypt(k@, x@), opc@),
{
    let e = aes128(k, x);
    xor16(&e, opc)
}

impl AuthVector {
    /// Build the 16-byte AUTN token sent to the UE:
    /// `AUTN = (SQN xor AK) || AMF || MAC-A`.
    pub fn autn(&self, sqn: &[u8; 6], amf: &[u8; 2]) -> (autn: [u8; 16])
        ensures
            autn@ == autn_spec(*self, sqn@, amf@),
    {
        let autn = [
            sqn[0] ^ self.ak[0],
            sqn[1] ^ self.ak[1],
            sqn[2] ^ self.ak[2],
            sqn[3] ^ self.ak[3],
            sqn[4] ^ self.ak[4],
            sqn[5] ^ self.ak[5],
            amf[0],
            amf[1],
            self.mac_a[0],
            self.mac_a[1],
            self.mac_a[2],
            self.mac_a[3],
            self.mac_a[4],
            self.mac_a[5],
            self.mac_a[6],
            self.mac_a[7],
        ];
        proof {
            assert(autn@ =~= autn_spec(*self, sqn@, amf@));
        }
        autn
    }
}

/// Per-subscriber Milenage state — K and OPc.
#[derive(Clone, Copy)]
pub struct MilenageContext {
    k: AuthKey,
    opc: OpCode,
}

impl MilenageContext {
    /// The subscriber key K.
    pub closed spec fn key_bytes(&self) -> Seq<u8> {
        self.k.0@
    }

    /// The stored OPc.
    pub closed spec fn opc_bytes(&self) -> Seq<u8> {
        self.opc.0@
    }

    /// Construct from a pre-computed OPc.
    pub fn new(k: AuthKey, opc: OpCode) -> (ctx: MilenageContext)
        ensures
            ctx.key_bytes() == k.0@,
            ctx.opc_bytes() == opc.0@,
    {
        MilenageContext { k, opc }
    }

    /// Construct from OP, computing OPc = E_K(OP) xor OP.
    pub fn with_op(k: AuthKey, op: &[u8; 16]) -> (ctx: MilenageContext)
        ensures
            ctx.key_bytes() == k.0@,
            ctx.opc_bytes() == opc_from_op(k.0@, op@),
    {
        let opc_bytes = encrypt_then_xor(&k.0, op, op);
        MilenageContext { k, opc: OpCode(opc_bytes) }
    }

    /// The stored OPc.
    pub fn opc(&self) -> (r: &OpCode)
        ensures
            r.0@ == self.opc_bytes(),
    {
        &self.opc
    }

    /// Generate a full authentication vector for one `(RAND, SQN, AMF)` triple.
    pub fn generate_vector(&self, rand: &[u8; 16], sqn: &[u8; 6], amf: &[u8; 2]) -> (av: AuthVector)
        ensures
            is_milenage_vector(av, self.key_bytes(), self.opc_bytes(), rand@, sqn@, amf@),
    {
        let k = &self.k.0;
        let opc = &self.opc.0;

        // TEMP = E_K(RAND xor OPc)
        let temp = aes128(k, &xor16(rand, opc));

        // f1 / f1*: IN1 = SQN || AMF || SQN || AMF, rotated by r1 = 8 bytes.
        let in1 = [
            sqn[0], sqn[1], sqn[2], sqn[3], sqn[4], sqn[5], amf[0], amf[1],
            sqn[0], sqn[1], sqn[2], sqn[3], sqn[4], sqn[5], amf[0], amf[1],
        ];
        proof {
            assert(in1@ =~= milenage_in1(sqn@, amf@));
        }
        let in1_opc = xor16(&in1, opc);
        let rotated = rot16(&in1_opc, 8);
        let out1 = encrypt_then_xor(k, &xor16(&temp, &rotated), opc);

        // f2 / f5 (r2 = 0, c2 = 1), f3 (r3 = 4, c3 = 2), f4 (r4 = 8, c4 = 4),
        // f5* (r5 = 12, c5 = 8).
        let t = xor16(&temp, opc);
        let out2 = encrypt_then_xor(k, &with_last_xored(&rot16(&t, 0), 0x01), opc);
        let ck = encrypt_then_xor(k, &with_last_xored(&rot16(&t, 4), 0x02), opc);
        let ik = encrypt_then_xor(k, &with_last_xored(&rot16(&t, 8), 0x04), opc);
        let out5 = encrypt_then_xor(k, &with_last_xored(&rot16(&t, 12), 0x08), opc);

        let mac_a = [out1[0], out1[1], out1[2], out1[3], out1[4], out1[5], out1[6], out1[7]];
        let mac_s = [out1[8], out1[9], out1[10], out1[11], out1[12], out1[13], out1[14], out1[15]];
        let ak = [out2[0], out2[1], out2[2], out2[3], out2[4], out2[5]];
        let res = [out2[8], out2[9], out2[10], out2[11], out2[12], out2[13], out2[14], out2[15]];
        let ak_star = [out5[0], out5[1], out5[2], out5[3], out5[4], out5[5]];
        let av = AuthVector { mac_a, mac_s, res, ck, ik, ak, ak_star };
        proof {
            assert(mac_a@ =~= out1@.subrange(0, 8));
            assert(mac_s@ =~= out1@.subrange(8, 16));
            assert(ak@ =~= out2@.subrange(0, 6));
            assert(res@ =~= out2@.subrange(8, 16));
            assert(ak_star@ =~= out5@.subrange(0, 6));
        }
        av
    }

    /// Deterministic generation from typed inputs: the caller supplies RAND.
    pub fn generate_vector_with_rand(&self, sqn: Sqn, amf: Amf, rand: Rand) -> (av: AuthVector)
        ensures
            is_milenage_vector(av, self.key_bytes(), self.opc_bytes(), rand.0@, sqn_bytes(sqn.0), amf.0@),
    {
        let sqn_b = sqn.to_bytes();
        self.generate_vector(&rand.0, &sqn_b, &amf.0)
    }

    /// Constant-time comparison of a received RES against the stored XRES.
    pub fn verify_res(expected: &[u8; 8], received: &[u8; 8]) -> (ok: bool)
        ensures
            ok == (expected@ == received@),
    {
        ct_eq_bytes(expected, received)
    }
}

/// A Milenage vector is determined by K, OPc, RAND, SQN and AMF: two
/// contexts that hold the same K and OPc (however they were built, from OP
/// or from OPc) give the same vector for the same triple.
pub proof fn law_vector_determined_by_key_and_opc(
    a: AuthVector,
    b: AuthVector,
    k: Seq<u8>,
    opc: Seq<u8>,
    rand: Seq<u8>,
    sqn: Seq<u8>,
    amf: Seq<u8>,
)
    requires
        is_milenage_vector(a, k, opc, rand, sqn, amf),
        is_milenage_vector(b, k, opc, rand, sqn, amf),
    ensures
        a == b,
{
    assert(a.mac_a@ =~= b.mac_a@);
    assert(a.mac_s@ =~= b.mac_s@);
    assert(a.res@ =~= b.res@);
    assert(a.ck@ =~= b.ck@);
    assert(a.ik@ =~= b.ik@);
    assert(a.ak@ =~= b.ak@);
    assert(a.ak_star@ =~= b.ak_star@);
    lemma_array_eq(a.mac_a, b.mac_a);
    lemma_array_eq(a.mac_s, b.mac_s);
    lemma_array_eq(a.res, b.res);
    lemma_array_eq(a.ck, b.ck);
    lemma_array_eq(a.ik, b.ik);
    lemma_array_eq(a.ak, b.ak);
    lemma_array_eq(a.ak_star, b.ak_star);
}

/// Arrays with the same view are equal.
pub proof fn lemma_array_eq<const N: usize>(a: [u8; N], b: [u8; N])
    requires
        a@ == b@,
    ensures
        a == b,
{
    assert(forall|i: int| 0 <= i < N ==> a[i] == #[trigger] b[i]);
    assert(a =~= b);
}

} // verus!
