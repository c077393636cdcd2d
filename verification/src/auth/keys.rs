//! Key material and identifiers of the AKA procedure.

use vstd::prelude::*;

verus! {

#[verifier::external_type_specification]
#[verifier::external_body]
pub struct ExFromHexError(hex::FromHexError);

/// A hexadecimal digit (`0-9`, `a-f`, `A-F`).
pub open spec fn is_hex_digit(c: char) -> bool {
    ||| (48 <= (c as u32) <= 57)
    ||| (97 <= (c as u32) <= 102)
    ||| (65 <= (c as u32) <= 70)
}

/// The value 0..15 of a hexadecimal digit.
pub open spec fn hex_digit_value(c: char) -> int {
    if 48 <= (c as u32) <= 57 {
        (c as u32) - 48
    } else if 97 <= (c as u32) <= 102 {
        (c as u32) - 97 + 10
    } else {
        (c as u32) - 65 + 10
    }
}

/// `s` is exactly `2 * n` hexadecimal digits.
pub open spec fn is_hex_of_len(s: Seq<char>, n: nat) -> bool {
    &&& s.len() == 2 * n
    &&& forall|i: int| 0 <= i < s.len() ==> is_hex_digit(#[trigger] s[i])
}

/// The bytes that a string of hexadecimal digits spells, high nibble first.
pub open spec fn hex_decoded(s: Seq<char>) -> Seq<u8> {
    Seq::new(
        s.len() / 2,
        |i: int| (hex_digit_value(s[2 * i]) * 16 + hex_digit_value(s[2 * i + 1])) as u8,
    )
}

/// Calls `hex::decode_to_slice` into a 16-byte buffer.
/// Trusted: the crate decodes two digits per byte, high nibble first, and
/// fails exactly when the input is not 32 hexadecimal ASCII digits (the
/// buffer is then discarded here).
#[verifier::external_body]
fn hex_decode_16(s: &str) -> (r: Result<[u8; 16], hex::FromHexError>)
    ensures
        r.is_ok() <==> is_hex_of_len(s@, 16),
        r matches Ok(b) ==> b@ == hex_decoded(s@),
{
    let mut out = [0u8; 16];
    match hex::decode_to_slice(s, &mut out) {
        Ok(()) => Ok(out),
        Err(e) => Err(e),
    }
}

/// 128-bit subscriber authentication key (Ki).
#[derive(Clone, Copy)]
pub struct AuthKey(pub [u8; 16]);

impl AuthKey {
    /// Parse from a 32-character hex string.
    pub fn from_hex(s: &str) -> (r: Result<AuthKey, hex::FromHexError>)
        ensures
            r.is_ok() <==> is_hex_of_len(s@, 16),
            r matches Ok(k) ==> k.0@ == hex_decoded(s@),
    {
        match hex_decode_16(s) {
            Ok(b) => Ok(AuthKey(b)),
            Err(e) => Err(e),
        }
    }
}

/// 128-bit operator code variant OPc = E_K(OP) xor OP.
#[derive(Clone, Copy, Debug, PartialEq, Eq)]
pub struct OpCode(pub [u8; 16]);

impl OpCode {
    /// Parse from a 32-character hex string.
    pub fn from_hex(s: &str) -> (r: Result<OpCode, hex::FromHexError>)
        ensures
            r.is_ok() <==> is_hex_of_len(s@, 16),
            r matches Ok(k) ==> k.0@ == hex_decoded(s@),
    {
        match hex_decode_16(s) {
            Ok(b) => Ok(OpCode(b)),
            Err(e) => Err(e),
        }
    }
}

/// 128-bit random challenge (RAND).
#[derive(Debug, Clone, Copy, PartialEq, Eq)]
pub struct Rand(pub [u8; 16]);

/// The largest sequence number: SQN is 48 bits wide.
pub const SQN_MASK: u64 = 0x0000_FFFF_FFFF_FFFF;

/// Sequence number (SQN); the low 48 bits of the integer travel on the wire.
#[derive(Debug, Clone, Copy, PartialEq, Eq, PartialOrd, Ord, Structural)]
pub struct Sqn(pub u64);

/// The 6-byte big-endian wire form of the low 48 bits of `x`.
pub open spec fn sqn_bytes(x: u64) -> Seq<u8> {
    seq![
        (x >> 40u64) as u8,
        (x >> 32u64) as u8,
        (x >> 24u64) as u8,
        (x >> 16u64) as u8,
        (x >> 8u64) as u8,
        x as u8,
    ]
}

/// The integer that a 6-byte big-endian wire form spells.
pub open spec fn sqn_value(b: Seq<u8>) -> int {
    b[0] * 0x100_0000_0000 + b[1] * 0x1_0000_0000 + b[2] * 0x100_0000 + b[3] * 0x1_0000 + b[4]
        * 0x100 + b[5]
}

impl Sqn {
    /// Extract the 6-byte big-endian wire encoding.
    pub fn to_bytes(self) -> (b: [u8; 6])
        ensures
            b@ == sqn_bytes(self.0),
            sqn_value(b@) == self.0 % 0x1_0000_0000_0000,
    {
        let x = self.0;
        let b = [
            (x >> 40u64) as u8,
            (x >> 32u64) as u8,
            (x >> 24u64) as u8,
            (x >> 16u64) as u8,
            (x >> 8u64) as u8,
            x as u8,
        ];
        proof {
            assert(b@ =~= sqn_bytes(x));
            lemma_sqn_bytes_value(x);
        }
        b
    }

    /// Parse from the 6-byte big-endian wire encoding.
    pub fn from_bytes(b: &[u8; 6]) -> (s: Sqn)
        ensures
            s.0 == sqn_value(b@),
            s.0 < 0x1_0000_0000_0000,
            sqn_bytes(s.0) == b@,
    {
        let v = (b[0] as u64) * 0x100_0000_0000u64 + (b[1] as u64) * 0x1_0000_0000u64 + (b[2]
            as u64) * 0x100_0000u64 + (b[3] as u64) * 0x1_0000u64 + (b[4] as u64) * 0x100u64 + (
        b[5] as u64);
        proof {
            lemma_value_sqn_bytes(b@);
        }
        Sqn(v)
    }

    /// The next sequence number, wrapping at the top of the integer range.
    pub fn increment(self) -> (s: Sqn)
        ensures
            s.0 == (if self.0 == u64::MAX { 0 } else { self.0 + 1 }),
    {
        Sqn(self.0.wrapping_add(1))
    }
}

/// The 48-bit value of a wire form and the wire form of a value agree.
pub proof fn lemma_sqn_bytes_value(x: u64)
    ensures
        sqn_value(sqn_bytes(x)) == x % 0x1_0000_0000_0000,
{
    let b0 = (x >> 40u64) as u8;
    let b1 = (x >> 32u64) as u8;
    let b2 = (x >> 24u64) as u8;
    let b3 = (x >> 16u64) as u8;
    let b4 = (x >> 8u64) as u8;
    let b5 = x as u8;
    assert((b0 as u64) * 0x100_0000_0000u64 + (b1 as u64) * 0x1_0000_0000u64 + (b2 as u64) * 0x100_0000u64
        + (b3 as u64) * 0x1_0000u64 + (b4 as u64) * 0x100u64 + (b5 as u64) == x % 0x1_0000_0000_0000u64)
        by (bit_vector)
        requires
            b0 == (x >> 40u64) as u8,
            b1 == (x >> 32u64) as u8,
            b2 == (x >> 24u64) as u8,
            b3 == (x >> 16u64) as u8,
            b4 == (x >> 8u64) as u8,
            b5 == x as u8,
    ;
}

/// Reading a wire form and writing it back gives the same bytes.
pub proof fn lemma_value_sqn_bytes(b: Seq<u8>)
    requires
        b.len() == 6,
    ensures
        sqn_value(b) < 0x1_0000_0000_0000,
        sqn_bytes(sqn_value(b) as u64) == b,
{
    let b0 = b[0];
    let b1 = b[1];
    let b2 = b[2];
    let b3 = b[3];
    let b4 = b[4];
    let b5 = b[5];
    let v: u64 = ((b0 as u64) * 0x100_0000_0000u64 + (b1 as u64) * 0x1_0000_0000u64 + (b2 as u64)
        * 0x100_0000u64 + (b3 as u64) * 0x1_0000u64 + (b4 as u64) * 0x100u64 + (b5 as u64)) as u64;
    assert((b0 as u64) * 0x100_0000_0000u64 + (b1 as u64) * 0x1_0000_0000u64 + (b2 as u64)
        * 0x100_0000u64 + (b3 as u64) * 0x1_0000u64 + (b4 as u64) * 0x100u64 + (b5 as u64)
        < 0x1_0000_0000_0000u64) by (bit_vector);
    assert(((v >> 40u64) as u8) == b0 && ((v >> 32u64) as u8) == b1 && ((v >> 24u64) as u8) == b2
        && ((v >> 16u64) as u8) == b3 && ((v >> 8u64) as u8) == b4 && (v as u8) == b5)
        by (bit_vector)
        requires
            v == (b0 as u64) * 0x100_0000_0000u64 + (b1 as u64) * 0x1_0000_0000u64 + (b2 as u64)
                * 0x100_0000u64 + (b3 as u64) * 0x1_0000u64 + (b4 as u64) * 0x100u64 + (b5 as u64),
    ;
    assert(sqn_bytes(sqn_value(b) as u64) =~= b);
}

/// Writing a sequence number and reading it back keeps its low 48 bits.
pub proof fn law_sqn_round_trip(s: Sqn)
    ensures
        sqn_value(sqn_bytes(s.0)) == s.0 % 0x1_0000_0000_0000,
        s.0 <= SQN_MASK ==> sqn_value(sqn_bytes(s.0)) == s.0,
{
    lemma_sqn_bytes_value(s.0);
}

/// PLMN identity — 3 bytes encoding MCC + MNC.
#[derive(Debug, Clone, Copy, PartialEq, Eq)]
pub struct Plmn(pub [u8; 3]);

/// Authentication Management Field (AMF) — 2 bytes set by the operator.
#[derive(Debug, Clone, Copy, PartialEq, Eq)]
pub struct Amf(pub [u8; 2]);

impl Amf {
    /// Standard AMF value used by most operators: 0x8000.
    pub fn standard() -> (a: Amf)
        ensures
            a.0@ == seq![0x80u8, 0x00u8],
    {
        let a = Amf([0x80, 0x00]);
        proof {
            assert(a.0@ =~= seq![0x80u8, 0x00u8]);
        }
        a
    }
}

/// Authentication vector as handed to the MME: the challenge, the network
/// token and the session secrets.
pub struct AuthVector {
    /// The RAND challenge sent to the UE.
    pub rand: Rand,
    /// Network authentication token (AK xor SQN || AMF || MAC-A).
    pub autn: [u8; 16],
    /// Expected response.
    pub xres: [u8; 8],
    /// Cipher key (CK).
    pub ck: [u8; 16],
    /// Integrity key (IK).
    pub ik: [u8; 16],
}

} // verus!
