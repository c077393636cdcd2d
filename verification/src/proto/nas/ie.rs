//! NAS information element encoding: BCD IMSI (TS 24.008 10.5.1.4), LV and
//! TLV fields, and the selected-algorithms octet.

use vstd::prelude::*;

verus! {

const IDENTITY_IMSI: u8 = 0x01;

/// 10 to the power `k`.
pub open spec fn pow10(k: nat) -> nat
    decreases k,
{
    if k == 0 {
        1
    } else {
        10 * pow10((k - 1) as nat)
    }
}

/// Decimal digit `i` (0 = most significant) of the low 15 digits of `imsi`.
pub open spec fn imsi_digit(imsi: u64, i: int) -> u8 {
    ((imsi as nat / pow10((14 - i) as nat)) % 10) as u8
}

/// The 15 decimal digits of `imsi` (of its value modulo 10^15).
pub open spec fn imsi_digits(imsi: u64) -> Seq<u8> {
    Seq::new(15, |i: int| imsi_digit(imsi, i))
}

/// Mobile Identity for an IMSI: first digit with the odd flag and the IMSI
/// type, then the 14 remaining digits two per byte, low nibble first.
pub open spec fn imsi_bcd(imsi: u64) -> Seq<u8> {
    let d = imsi_digits(imsi);
    seq![(d[0] << 4u8) | 0x09u8] + Seq::new(7, |j: int| (d[2 * j + 2] << 4u8) | d[2 * j + 1])
}

/// The digits one BCD byte carries: the low nibble, then the high nibble
/// unless it is the 0xF filler.
pub open spec fn byte_digits(b: u8) -> Seq<u8> {
    if (b >> 4u8) & 0x0F != 0x0F {
        seq![b & 0x0F, (b >> 4u8) & 0x0F]
    } else {
        seq![b & 0x0F]
    }
}

/// The digits of a run of BCD bytes.
pub open spec fn bcd_tail(s: Seq<u8>) -> Seq<u8>
    decreases s.len(),
{
    if s.len() == 0 {
        Seq::empty()
    } else {
        bcd_tail(s.drop_last()) + byte_digits(s.last())
    }
}

/// The digit string of a Mobile Identity: the high nibble of byte 0, the
/// digits of the remaining bytes, and a trailing 0xF dropped when the odd
/// flag is clear.
pub open spec fn identity_digits(b: Seq<u8>) -> Seq<u8> {
    let d0 = seq![(b[0] >> 4u8) & 0x0F] + bcd_tail(b.skip(1));
    if (b[0] >> 3u8) & 0x01 == 0 && d0.last() == 0x0F {
        d0.drop_last()
    } else {
        d0
    }
}

/// The number a digit string spells in decimal.
pub open spec fn digits_value(d: Seq<u8>) -> nat
    decreases d.len(),
{
    if d.len() == 0 {
        0
    } else {
        digits_value(d.drop_last()) * 10 + (d.last() as nat)
    }
}

/// What `decode_imsi` returns: `None` unless the identity type is IMSI and
/// the digit string has at most 15 decimal digits.
pub open spec fn decode_imsi_spec(b: Seq<u8>) -> Option<u64> {
    if b.len() == 0 || b[0] & 0x07 != 1 {
        None
    } else {
        let d = identity_digits(b);
        if d.len() > 15 || exists|i: int| 0 <= i < d.len() && d[i] > 9 {
            None
        } else {
            Some(digits_value(d) as u64)
        }
    }
}

pub proof fn lemma_pow10_pos(k: nat)
    ensures
        pow10(k) > 0,
    decreases k,
{
    if k > 0 {
        lemma_pow10_pos((k - 1) as nat);
    }
}

pub proof fn lemma_pow10_15()
    ensures
        pow10(15) == 1_000_000_000_000_000,
{
    reveal_with_fuel(pow10, 16);
}

/// Encode an IMSI (its 15 low decimal digits) as a Mobile Identity: always
/// 8 bytes.
pub fn encode_imsi(imsi: u64) -> (out: Vec<u8>)
    ensures
        out@ == imsi_bcd(imsi),
        out@.len() == 8,
{
    let mut digits = [0u8; 15];
    let mut n = imsi;
    let mut i: usize = 15;
    proof {
        assert(pow10(0) == 1);
        assert(imsi as nat / 1 == imsi as nat);
    }
    while i > 0
        invariant
            i <= 15,
            n as nat == imsi as nat / pow10((15 - i) as nat),
            forall|j: int| i <= j < 15 ==> digits@[j] == imsi_digit(imsi, j),
        decreases i,
    {
        i = i - 1;
        digits[i] = (n % 10) as u8;
        proof {
            lemma_pow10_pos((14 - i) as nat);
            vstd::arithmetic::div_mod::lemma_div_denominator(imsi as int, pow10((14 - i) as nat) as int, 10);
            assert(pow10((15 - i) as nat) == pow10((14 - i) as nat) * 10);
        }
        n = n / 10;
    }
    let mut out: Vec<u8> = Vec::with_capacity(8);
    out.push((digits[0] << 4u8) | (1u8 << 3u8) | IDENTITY_IMSI);
    proof {
        let d0 = digits[0];
        assert((d0 << 4u8) | (1u8 << 3u8) | 1u8 == (d0 << 4u8) | 0x09u8) by (bit_vector);
        assert(out@ =~= imsi_bcd(imsi).take(1));
    }
    let mut i: usize = 1;
    while i < 15
        invariant
            1 <= i <= 15,
            i % 2 == 1,
            forall|j: int| 0 <= j < 15 ==> digits@[j] == imsi_digit(imsi, j),
            out@ == imsi_bcd(imsi).take((i + 1) / 2),
        decreases 15 - i,
    {
        let lo = digits[i];
        let hi = if i + 1 < 15 { digits[i + 1] } else { 0x0F };
        out.push((hi << 4u8) | lo);
        proof {
            assert(imsi_bcd(imsi).take((i + 3) / 2) =~= imsi_bcd(imsi).take((i + 1) / 2).push((hi << 4u8) | lo));
        }
        i = i + 2;
    }
    proof {
        assert(imsi_bcd(imsi).take(8) =~= imsi_bcd(imsi));
    }
    out
}

/// Decode a Mobile Identity back to an IMSI; `None` when the identity type
/// is not IMSI, or the digits are not at most 15 decimal digits.
pub fn decode_imsi(bytes: &[u8]) -> (r: Option<u64>)
    ensures
        r == decode_imsi_spec(bytes@),
{
    if bytes.len() == 0 {
        return None;
    }
    let id_type = bytes[0] & 0x07;
    if id_type != IDENTITY_IMSI {
        return None;
    }
    let odd = (bytes[0] >> 3u8) & 0x01;
    let mut digits: Vec<u8> = Vec::with_capacity(15);
    digits.push((bytes[0] >> 4u8) & 0x0F);
    let n = bytes.len();
    let mut k: usize = 1;
    while k < n
        invariant
            1 <= k <= n,
            n == bytes@.len(),
            digits@ == seq![(bytes@[0] >> 4u8) & 0x0F] + bcd_tail(bytes@.subrange(1, k as int)),
        decreases n - k,
    {
        let byte = bytes[k];
        let lo = byte & 0x0F;
        let hi = (byte >> 4u8) & 0x0F;
        digits.push(lo);
        if hi != 0x0F {
            digits.push(hi);
        }
        proof {
            let s = bytes@.subrange(1, k as int + 1);
            assert(s.drop_last() =~= bytes@.subrange(1, k as int));
            assert(digits@ =~= seq![(bytes@[0] >> 4u8) & 0x0F] + bcd_tail(s));
        }
        k = k + 1;
    }
    proof {
        assert(bytes@.subrange(1, n as int) =~= bytes@.skip(1));
    }
    if odd == 0 && digits.len() > 0 && digits[digits.len() - 1] == 0x0F {
        digits.pop();
    }
    let ghost d = identity_digits(bytes@);
    proof {
        assert(digits@ =~= d);
    }
    if digits.len() > 15 {
        return None;
    }
    let mut imsi: u64 = 0;
    let len = digits.len();
    let mut j: usize = 0;
    while j < len
        invariant
            j <= len,
            len == digits@.len(),
            len <= 15,
            digits@ == d,
            d == identity_digits(bytes@),
            bytes@.len() > 0,
            bytes@[0] & 0x07 == 1,
            forall|t: int| 0 <= t < j ==> d[t] <= 9,
            imsi as nat == digits_value(d.take(j as int)),
            digits_value(d.take(j as int)) < pow10(j as nat),
        decreases len - j,
    {
        let dj = digits[j];
        if dj > 9 {
            proof {
                assert(0 <= j < d.len() && d[j as int] > 9);
                assert(exists|i: int| 0 <= i < d.len() && d[i] > 9);
                assert(decode_imsi_spec(bytes@) is None);
            }
            return None;
        }
        proof {
            assert(d.take(j as int + 1).drop_last() =~= d.take(j as int));
            lemma_pow10_le(j as nat + 1, 15);
            lemma_pow10_15();
        }
        imsi = imsi * 10 + dj as u64;
        j = j + 1;
    }
    proof {
        assert(d.take(len as int) =~= d);
    }
    Some(imsi)
}

pub proof fn lemma_pow10_le(a: nat, b: nat)
    requires
        a <= b,
    ensures
        pow10(a) <= pow10(b),
    decreases b,
{
    if a < b {
        lemma_pow10_le(a, (b - 1) as nat);
        lemma_pow10_pos((b - 1) as nat);
    }
}

/// The digits of the encoded tail bytes are the IMSI digits 1 to 14.
proof fn lemma_bcd_tail_of_encoding(imsi: u64, j: int)
    requires
        0 <= j <= 7,
    ensures
        bcd_tail(imsi_bcd(imsi).skip(1).take(j)) == imsi_digits(imsi).subrange(1, 2 * j + 1),
    decreases j,
{
    let d = imsi_digits(imsi);
    let t = imsi_bcd(imsi).skip(1);
    if j > 0 {
        lemma_bcd_tail_of_encoding(imsi, j - 1);
        assert(t.take(j).drop_last() =~= t.take(j - 1));
        let lo = d[2 * j - 1];
        let hi = d[2 * j];
        assert(lo <= 9 && hi <= 9);
        let b = (hi << 4u8) | lo;
        assert(b & 0x0F == lo && (b >> 4u8) & 0x0F == hi) by (bit_vector)
            requires
                lo <= 9,
                hi <= 9,
                b == (hi << 4u8) | lo,
        ;
        assert(t.take(j).last() == b);
        assert(bcd_tail(t.take(j)) =~= d.subrange(1, 2 * j + 1));
    } else {
        assert(d.subrange(1, 1) =~= Seq::<u8>::empty());
    }
}

/// The digits spell the number: the value of the first `k` digits of an
/// IMSI below 10^15 is the IMSI divided by 10^(15-k).
proof fn lemma_digits_value_prefix(imsi: u64, k: int)
    requires
        0 <= k <= 15,
        imsi < 1_000_000_000_000_000,
    ensures
        digits_value(imsi_digits(imsi).take(k)) == imsi as nat / pow10((15 - k) as nat),
    decreases k,
{
    let d = imsi_digits(imsi);
    if k == 0 {
        lemma_pow10_15();
        assert(imsi as nat / pow10(15) == 0);
    } else {
        lemma_digits_value_prefix(imsi, k - 1);
        assert(d.take(k).drop_last() =~= d.take(k - 1));
        let p = pow10((15 - k) as nat);
        lemma_pow10_pos((15 - k) as nat);
        assert(pow10((16 - k) as nat) == p * 10);
        vstd::arithmetic::div_mod::lemma_div_denominator(imsi as int, p as int, 10);
        let a = imsi as int / p as int;
        vstd::arithmetic::div_mod::lemma_fundamental_div_mod(a, 10);
    }
}

/// Decoding an encoded IMSI (15 decimal digits) gives the IMSI back.
pub proof fn law_imsi_round_trip(imsi: u64)
    requires
        imsi < 1_000_000_000_000_000,
    ensures
        decode_imsi_spec(imsi_bcd(imsi)) == Some(imsi),
{
    let b = imsi_bcd(imsi);
    let d = imsi_digits(imsi);
    assert(forall|i: int| 0 <= i < 15 ==> #[trigger] d[i] <= 9);
    let d0 = d[0];
    let b0 = (d0 << 4u8) | 0x09u8;
    assert(b0 & 0x07 == 1 && (b0 >> 4u8) & 0x0F == d0 && (b0 >> 3u8) & 0x01 == 1) by (bit_vector)
        requires
            d0 <= 9,
            b0 == (d0 << 4u8) | 0x09u8,
    ;
    lemma_bcd_tail_of_encoding(imsi, 7);
    assert(b.skip(1).take(7) =~= b.skip(1));
    assert(identity_digits(b) =~= d);
    assert(!(exists|i: int| 0 <= i < d.len() && d[i] > 9));
    lemma_digits_value_prefix(imsi, 15);
    assert(d.take(15) =~= d);
    assert(pow10(0) == 1);
        assert(imsi as nat / 1 == imsi as nat);
    assert(digits_value(d) == imsi as nat);
}

/// An encoded IMSI carries the IMSI identity type and the odd flag.
pub proof fn law_imsi_encoding_header(imsi: u64)
    ensures
        imsi_bcd(imsi).len() == 8,
        imsi_bcd(imsi)[0] & 0x07 == 1,
        (imsi_bcd(imsi)[0] >> 3u8) & 0x01 == 1,
{
    let d0 = imsi_digits(imsi)[0];
    let b0 = (d0 << 4u8) | 0x09u8;
    assert(b0 & 0x07 == 1 && (b0 >> 3u8) & 0x01 == 1) by (bit_vector)
        requires
            b0 == (d0 << 4u8) | 0x09u8,
    ;
}

// ── LV / TLV ──────────────────────────────────────────────────────────────────

/// An LV field: one length byte (the length modulo 256), then the value.
pub open spec fn lv_bytes(value: Seq<u8>) -> Seq<u8> {
    seq![(value.len() % 256) as u8] + value
}

/// What `read_lv` returns: the value and the rest, when the buffer holds the
/// whole field.
pub open spec fn read_lv_spec(buf: Seq<u8>) -> Option<(Seq<u8>, Seq<u8>)> {
    if buf.len() == 0 || buf.len() < 1 + buf[0] {
        None
    } else {
        Some((buf.subrange(1, 1 + buf[0] as int), buf.skip(1 + buf[0] as int)))
    }
}

/// Write an LV field into a buffer: 1-byte length + value bytes.
pub fn write_lv(buf: &mut Vec<u8>, value: &[u8])
    ensures
        final(buf)@ == old(buf)@ + lv_bytes(value@),
{
    buf.push((value.len() % 256) as u8);
    crate::bytes_util::append_bytes(buf, value);
    proof {
        assert(final(buf)@ =~= old(buf)@ + lv_bytes(value@));
    }
}

/// Read an LV field: `(value, remaining)`, or `None` if the buffer is too
/// short.
pub fn read_lv(buf: &[u8]) -> (r: Option<(&[u8], &[u8])>)
    ensures
        match r {
            Some((v, rest)) => read_lv_spec(buf@) == Some((v@, rest@)),
            None => read_lv_spec(buf@) is None,
        },
{
    if buf.len() == 0 {
        return None;
    }
    let len = buf[0] as usize;
    if buf.len() < 1 + len {
        return None;
    }
    let v = vstd::slice::slice_subrange(buf, 1, 1 + len);
    let rest = vstd::slice::slice_subrange(buf, 1 + len, buf.len());
    proof {
        assert(rest@ =~= buf@.skip(1 + len as int));
    }
    Some((v, rest))
}

/// A TLV field: the IEI byte, then an LV field.
pub open spec fn tlv_bytes(iei: u8, value: Seq<u8>) -> Seq<u8> {
    seq![iei] + lv_bytes(value)
}

/// What `read_tlv` returns.
pub open spec fn read_tlv_spec(buf: Seq<u8>) -> Option<(u8, Seq<u8>, Seq<u8>)> {
    if buf.len() < 2 {
        None
    } else {
        match read_lv_spec(buf.skip(1)) {
            Some((v, rest)) => Some((buf[0], v, rest)),
            None => None,
        }
    }
}

/// Write a TLV field: 1-byte IEI + 1-byte length + value bytes.
pub fn write_tlv(buf: &mut Vec<u8>, iei: u8, value: &[u8])
    ensures
        final(buf)@ == old(buf)@ + tlv_bytes(iei, value@),
{
    buf.push(iei);
    write_lv(buf, value);
    proof {
        assert(final(buf)@ =~= old(buf)@ + tlv_bytes(iei, value@));
    }
}

/// Read the next TLV field: `(iei, value, remaining)`.
pub fn read_tlv(buf: &[u8]) -> (r: Option<(u8, &[u8], &[u8])>)
    ensures
        match r {
            Some((iei, v, rest)) => read_tlv_spec(buf@) == Some((iei, v@, rest@)),
            None => read_tlv_spec(buf@) is None,
        },
{
    if buf.len() < 2 {
        return None;
    }
    let iei = buf[0];
    let tail = vstd::slice::slice_subrange(buf, 1, buf.len());
    proof {
        assert(tail@ =~= buf@.skip(1));
    }
    match read_lv(tail) {
        Some((value, rest)) => Some((iei, value, rest)),
        None => None,
    }
}

/// Where `find_tlv` stops: the suffix that starts at the first TLV whose IEI
/// is `target`, skipping whole TLVs before it.
pub open spec fn find_tlv_spec(buf: Seq<u8>, target: u8) -> Option<Seq<u8>>
    decreases buf.len(),
{
    if buf.len() < 2 {
        None
    } else if buf[0] == target {
        Some(buf)
    } else if buf.len() < 2 + buf[1] {
        None
    } else {
        find_tlv_spec(buf.skip(2 + buf[1] as int), target)
    }
}

/// Skip TLV fields until one with IEI `target_iei`; return the buffer from
/// that field on.
pub fn find_tlv<'a>(buf: &'a [u8], target_iei: u8) -> (r: Option<&'a [u8]>)
    ensures
        match r {
            Some(s) => find_tlv_spec(buf@, target_iei) == Some(s@),
            None => find_tlv_spec(buf@, target_iei) is None,
        },
{
    let mut cur = buf;
    while cur.len() >= 2
        invariant
            find_tlv_spec(cur@, target_iei) == find_tlv_spec(buf@, target_iei),
        decreases cur@.len(),
    {
        if cur[0] == target_iei {
            return Some(cur);
        }
        let len = cur[1] as usize;
        if cur.len() < 2 + len {
            return None;
        }
        let next = vstd::slice::slice_subrange(cur, 2 + len, cur.len());
        proof {
            assert(next@ =~= cur@.skip(2 + len as int));
        }
        cur = next;
    }
    None
}

/// Reading an LV field written for a value of at most 255 bytes gives the
/// value and what followed.
pub proof fn law_lv_round_trip(value: Seq<u8>, rest: Seq<u8>)
    requires
        value.len() <= 255,
    ensures
        read_lv_spec(lv_bytes(value) + rest) == Some((value, rest)),
{
    let b = lv_bytes(value) + rest;
    assert(b.subrange(1, 1 + value.len() as int) =~= value);
    assert(b.skip(1 + value.len() as int) =~= rest);
}

/// Reading a TLV field written for a value of at most 255 bytes gives the
/// IEI, the value and what followed.
pub proof fn law_tlv_round_trip(iei: u8, value: Seq<u8>, rest: Seq<u8>)
    requires
        value.len() <= 255,
    ensures
        read_tlv_spec(tlv_bytes(iei, value) + rest) == Some((iei, value, rest)),
{
    let b = tlv_bytes(iei, value) + rest;
    assert(b.skip(1) =~= lv_bytes(value) + rest);
    law_lv_round_trip(value, rest);
}

// ── NAS security algorithms (EEA/EIA) ─────────────────────────────────────────

/// NAS ciphering algorithm identifier.
#[derive(Debug, Clone, Copy, PartialEq, Eq, Structural)]
pub enum NasEeaAlgorithm {
    /// Null (no ciphering)
    Eea0,
    /// SNOW 3G
    Eea1,
    /// AES-CTR
    Eea2,
    /// ZUC
    Eea3,
}

/// NAS integrity algorithm identifier.
#[derive(Debug, Clone, Copy, PartialEq, Eq, Structural)]
pub enum NasEiaAlgorithm {
    /// Null (emergency only)
    Eia0,
    /// SNOW 3G
    Eia1,
    /// AES-CMAC
    Eia2,
    /// ZUC
    Eia3,
}

/// The algorithm identity number of a ciphering algorithm.
pub open spec fn eea_id(a: NasEeaAlgorithm) -> u8 {
    match a {
        NasEeaAlgorithm::Eea0 => 0,
        NasEeaAlgorithm::Eea1 => 1,
        NasEeaAlgorithm::Eea2 => 2,
        NasEeaAlgorithm::Eea3 => 3,
    }
}

/// The algorithm identity number of an integrity algorithm.
pub open spec fn eia_id(a: NasEiaAlgorithm) -> u8 {
    match a {
        NasEiaAlgorithm::Eia0 => 0,
        NasEiaAlgorithm::Eia1 => 1,
        NasEiaAlgorithm::Eia2 => 2,
        NasEiaAlgorithm::Eia3 => 3,
    }
}

/// The ciphering algorithm a 4-bit selector names (unknown values: EEA0).
pub open spec fn eea_from_id(n: u8) -> NasEeaAlgorithm {
    if n == 1 {
        NasEeaAlgorithm::Eea1
    } else if n == 2 {
        NasEeaAlgorithm::Eea2
    } else if n == 3 {
        NasEeaAlgorithm::Eea3
    } else {
        NasEeaAlgorithm::Eea0
    }
}

/// The integrity algorithm a 4-bit selector names (unknown values: EIA0).
pub open spec fn eia_from_id(n: u8) -> NasEiaAlgorithm {
    if n == 1 {
        NasEiaAlgorithm::Eia1
    } else if n == 2 {
        NasEiaAlgorithm::Eia2
    } else if n == 3 {
        NasEiaAlgorithm::Eia3
    } else {
        NasEiaAlgorithm::Eia0
    }
}

impl NasEeaAlgorithm {
    /// The algorithm identity number (0..3).
    pub fn id(self) -> (n: u8)
        ensures
            n == eea_id(self),
    {
        match self {
            NasEeaAlgorithm::Eea0 => 0,
            NasEeaAlgorithm::Eea1 => 1,
            NasEeaAlgorithm::Eea2 => 2,
            NasEeaAlgorithm::Eea3 => 3,
        }
    }
}

impl NasEiaAlgorithm {
    /// The algorithm identity number (0..3).
    pub fn id(self) -> (n: u8)
        ensures
            n == eia_id(self),
    {
        match self {
            NasEiaAlgorithm::Eia0 => 0,
            NasEiaAlgorithm::Eia1 => 1,
            NasEiaAlgorithm::Eia2 => 2,
            NasEiaAlgorithm::Eia3 => 3,
        }
    }
}

/// Encode the selected NAS security algorithm byte: EEA in bits 7-4, EIA in
/// bits 3-0.
pub fn encode_security_algorithms(eea: NasEeaAlgorithm, eia: NasEiaAlgorithm) -> (b: u8)
    ensures
        b == ((eea_id(eea) << 4u8) | eia_id(eia)),
{
    (eea.id() << 4u8) | eia.id()
}

/// Decode the NAS security algorithm byte.
pub fn decode_security_algorithms(byte: u8) -> (r: (NasEeaAlgorithm, NasEiaAlgorithm))
    ensures
        r == (eea_from_id((byte >> 4u8) & 0x0F), eia_from_id(byte & 0x0F)),
{
    let eea = match (byte >> 4u8) & 0x0F {
        1 => NasEeaAlgorithm::Eea1,
        2 => NasEeaAlgorithm::Eea2,
        3 => NasEeaAlgorithm::Eea3,
        _ => NasEeaAlgorithm::Eea0,
    };
    let eia = match byte & 0x0F {
        1 => NasEiaAlgorithm::Eia1,
        2 => NasEiaAlgorithm::Eia2,
        3 => NasEiaAlgorithm::Eia3,
        _ => NasEiaAlgorithm::Eia0,
    };
    (eea, eia)
}

/// Decoding the encoded algorithm byte gives back both algorithms.
pub proof fn law_security_algorithms_round_trip(eea: NasEeaAlgorithm, eia: NasEiaAlgorithm)
    ensures
        eea_from_id((((eea_id(eea) << 4u8) | eia_id(eia)) >> 4u8) & 0x0F) == eea,
        eia_from_id(((eea_id(eea) << 4u8) | eia_id(eia)) & 0x0F) == eia,
{
    let a = eea_id(eea);
    let b = eia_id(eia);
    assert(a <= 3 && b <= 3);
    assert(((((a << 4u8) | b) >> 4u8) & 0x0F) == a && (((a << 4u8) | b) & 0x0F) == b) by (bit_vector)
        requires
            a <= 3,
            b <= 3,
    ;
}

} // verus!
