//! ASN.1 ALIGNED Packed Encoding Rules (ITU-T X.691), the subset S1AP and
//! NGAP need: single bits, constrained whole numbers, length determinants
//! (short and medium form) and octet strings.
//!
//! Bits are written most significant first; `align` pads with zero bits to
//! the next octet boundary.

use vstd::prelude::*;

verus! {

// ── Bit-level model ──────────────────────────────────────────────────────────

/// 2 to the power `n`.
pub open spec fn two_pow(n: nat) -> nat
    decreases n,
{
    if n == 0 {
        1
    } else {
        2 * two_pow((n - 1) as nat)
    }
}

/// Number of bits needed to write the numbers `0..=x`.
pub open spec fn bit_len(x: nat) -> nat
    decreases x,
{
    if x == 0 {
        0
    } else {
        1 + bit_len(x / 2)
    }
}

/// The `n` low bits of `v`, most significant first.
pub open spec fn bits_of(v: u64, n: nat) -> Seq<bool> {
    Seq::new(n, |i: int| (v >> ((n - 1 - i) as u64)) & 1 == 1)
}

/// Bit `p` of a byte string (bit 0 is the top bit of byte 0).
pub open spec fn bit_at(data: Seq<u8>, p: int) -> bool {
    (data[p / 8] >> ((7 - p % 8) as u8)) & 1 == 1
}

/// The number the `n` bits of `data` from bit `pos` spell.
pub open spec fn bits_value(data: Seq<u8>, pos: int, n: nat) -> nat
    decreases n,
{
    if n == 0 {
        0
    } else {
        2 * bits_value(data, pos, (n - 1) as nat) + if bit_at(data, pos + n - 1) {
            1nat
        } else {
            0nat
        }
    }
}

/// The next octet boundary at or after `pos`.
pub open spec fn align_up(pos: int) -> int {
    if pos % 8 == 0 {
        pos
    } else {
        pos + 8 - pos % 8
    }
}

/// Zero bits from `len` to the next octet boundary.
pub open spec fn pad_bits(len: nat) -> Seq<bool> {
    Seq::new((align_up(len as int) - len) as nat, |i: int| false)
}

/// The bits of each byte, in order.
pub open spec fn octet_bits(data: Seq<u8>) -> Seq<bool>
    decreases data.len(),
{
    if data.len() == 0 {
        Seq::empty()
    } else {
        octet_bits(data.drop_last()) + bits_of(data.last() as u64, 8)
    }
}

/// Bits of a constrained whole number in `min..=max` (X.691 §10.5): none
/// for a single value; the offset in the minimal number of bits when that
/// is at most 8; else octet aligned, in whole octets.
pub open spec fn constrained_bits(cur_len: nat, value: u64, min: u64, max: u64) -> Seq<bool> {
    let nb = bit_len((max - min) as nat);
    let v = (value - min) as u64;
    if max == min {
        Seq::empty()
    } else if nb <= 8 {
        bits_of(v, nb)
    } else {
        pad_bits(cur_len) + bits_of(v, 8 * ((nb + 7) / 8))
    }
}

/// Bits of a length determinant (X.691 §10.9): octet aligned, then `0` and
/// 7 bits below 128, else `10` and 14 bits.
pub open spec fn length_bits(cur_len: nat, len: u64) -> Seq<bool> {
    pad_bits(cur_len) + if len < 128 {
        seq![false] + bits_of(len, 7)
    } else {
        seq![true, false] + bits_of(len, 14)
    }
}

/// One byte from 8 bits starting at `s`, the first bit most significant.
pub open spec fn byte_of_bits(b: Seq<bool>, s: int) -> u8 {
    (if b[s] { 0x80u8 } else { 0u8 }) | (if b[s + 1] { 0x40u8 } else { 0u8 }) | (if b[s + 2] { 0x20u8 } else { 0u8 }) | (
    if b[s + 3] { 0x10u8 } else { 0u8 }) | (if b[s + 4] { 0x08u8 } else { 0u8 }) | (if b[s + 5] { 0x04u8 } else { 0u8 }) | (
    if b[s + 6] { 0x02u8 } else { 0u8 }) | (if b[s + 7] { 0x01u8 } else { 0u8 })
}

/// Whole octets of a bit string whose length is a multiple of 8.
pub open spec fn bytes_of_bits(b: Seq<bool>) -> Seq<u8> {
    Seq::new(b.len() / 8, |i: int| byte_of_bits(b, 8 * i))
}

// ── Reading, as functions of the data and the bit position ───────────────────

/// `(result, next position)` of reading one bit.
pub open spec fn read_bit_spec(data: Seq<u8>, pos: int) -> (Option<bool>, int) {
    if pos < 8 * data.len() {
        (Some(bit_at(data, pos)), pos + 1)
    } else {
        (None, pos)
    }
}

/// `(result, next position)` of reading `n` bits: the value modulo 2^64,
/// or `None` with the position at the end of the data.
pub open spec fn read_bits_spec(data: Seq<u8>, pos: int, n: nat) -> (Option<u64>, int) {
    if pos + n <= 8 * data.len() {
        (Some((bits_value(data, pos, n) % 0x1_0000_0000_0000_0000) as u64), pos + n)
    } else {
        (None, 8 * data.len() as int)
    }
}

/// `(result, next position)` of reading a constrained whole number; `None`
/// when the offset read would take the value past `u64::MAX`.
pub open spec fn read_constrained_spec(data: Seq<u8>, pos: int, min: u64, max: u64) -> (Option<u64>, int) {
    let nb = bit_len((max - min) as nat);
    if max == min {
        (Some(min), pos)
    } else {
        let (r, p) = if nb <= 8 {
            read_bits_spec(data, pos, nb)
        } else {
            read_bits_spec(data, align_up(pos), 8 * ((nb + 7) / 8))
        };
        match r {
            Some(v) => if min + v <= u64::MAX {
                (Some((min + v) as u64), p)
            } else {
                (None, p)
            },
            None => (None, p),
        }
    }
}

/// `(result, next position)` of reading a length determinant.
pub open spec fn read_length_spec(data: Seq<u8>, pos: int) -> (Option<u64>, int) {
    let a = align_up(pos);
    let (b0, p1) = read_bit_spec(data, a);
    match b0 {
        None => (None, p1),
        Some(false) => read_bits_spec(data, p1, 7),
        Some(true) => {
            let (b1, p2) = read_bit_spec(data, p1);
            match b1 {
                None => (None, p2),
                Some(true) => (None, p2),
                Some(false) => read_bits_spec(data, p2, 14),
            }
        },
    }
}

/// `(result, next position)` of reading `n` whole octets.
pub open spec fn read_octets_spec(data: Seq<u8>, pos: int, n: nat) -> (Option<Seq<u8>>, int) {
    let a = align_up(pos);
    if a + 8 * n <= 8 * data.len() {
        (Some(data.subrange(a / 8, a / 8 + n)), a + 8 * n)
    } else {
        (None, 8 * data.len() as int)
    }
}

/// `(result, next position)` of reading a length-prefixed octet string.
pub open spec fn read_octet_string_spec(data: Seq<u8>, pos: int) -> (Option<Seq<u8>>, int) {
    let (len, p) = read_length_spec(data, pos);
    match len {
        None => (None, p),
        Some(n) => read_octets_spec(data, p, n as nat),
    }
}

// ── Lemmas ───────────────────────────────────────────────────────────────────

pub proof fn lemma_two_pow_64()
    ensures
        two_pow(64) == 0x1_0000_0000_0000_0000,
        two_pow(8) == 256,
        two_pow(7) == 128,
        two_pow(14) == 16384,
{
    reveal_with_fuel(two_pow, 65);
}

pub proof fn lemma_two_pow_pos(n: nat)
    ensures
        two_pow(n) > 0,
    decreases n,
{
    if n > 0 {
        lemma_two_pow_pos((n - 1) as nat);
    }
}

pub proof fn lemma_two_pow_mono(a: nat, b: nat)
    requires
        a <= b,
    ensures
        two_pow(a) <= two_pow(b),
    decreases b,
{
    if a < b {
        lemma_two_pow_mono(a, (b - 1) as nat);
    }
}

/// `n` bits spell a number below 2^n.
pub proof fn lemma_bits_value_bound(data: Seq<u8>, pos: int, n: nat)
    ensures
        bits_value(data, pos, n) < two_pow(n),
    decreases n,
{
    if n > 0 {
        lemma_bits_value_bound(data, pos, (n - 1) as nat);
    }
}

/// A number below 2^bit_len(x) ... and x itself is below it.
pub proof fn lemma_bit_len_bound(x: nat)
    ensures
        x < two_pow(bit_len(x)),
        x > 0 ==> two_pow((bit_len(x) - 1) as nat) <= x,
    decreases x,
{
    if x > 0 {
        lemma_bit_len_bound(x / 2);
    }
}

pub proof fn lemma_bit_len_le(x: nat, k: nat)
    requires
        x < two_pow(k),
    ensures
        bit_len(x) <= k,
    decreases x,
{
    if x > 0 {
        lemma_two_pow_pos(k);
        if k == 0 {
        } else {
            lemma_bit_len_le(x / 2, (k - 1) as nat);
        }
    }
}

/// `64 - leading_zeros(x)` is the bit length of `x`.
pub proof fn lemma_leading_zeros(x: u64)
    ensures
        64 - vstd::std_specs::bits::u64_leading_zeros(x) == bit_len(x as nat),
    decreases x,
{
    reveal(vstd::std_specs::bits::u64_leading_zeros);
    if x > 0 {
        lemma_leading_zeros(x / 2);
        assert(vstd::std_specs::bits::u64_leading_zeros(x) == vstd::std_specs::bits::u64_leading_zeros(x / 2) - 1);
        assert(bit_len(x as nat) == 1 + bit_len((x / 2) as nat));
    }
}

/// The bits of `v` read back give `v` modulo 2^n.
pub proof fn lemma_bits_of_value(data: Seq<u8>, pos: int, v: u64, n: nat)
    requires
        n <= 64,
        forall|i: int| 0 <= i < n ==> bit_at(data, pos + i) == #[trigger] bits_of(v, n)[i],
    ensures
        bits_value(data, pos, n) == (v as nat) % two_pow(n),
    decreases n,
{
    if n == 0 {
    } else {
        let w = v >> 1u64;
        assert forall|i: int| 0 <= i < n - 1 implies bit_at(data, pos + i) == #[trigger] bits_of(w, (n - 1) as nat)[i] by {
            assert(bit_at(data, pos + i) == bits_of(v, n)[i]);
            let s = (n - 1 - i) as u64;
            assert(s >= 1 && s <= 63);
            assert(((v >> s) & 1 == 1) == (((v >> 1u64) >> ((s - 1) as u64)) & 1 == 1)) by (bit_vector)
                requires
                    1 <= s <= 63,
            ;
        }
        lemma_bits_of_value(data, pos, w, (n - 1) as nat);
        assert(bit_at(data, pos + n - 1) == bits_of(v, n)[n - 1]);
        assert((v >> 0u64) & 1 == 1 <==> v % 2 == 1) by (bit_vector);
        assert(w == v / 2) by (bit_vector)
            requires
                w == v >> 1u64,
        ;
        lemma_two_pow_pos((n - 1) as nat);
        vstd::arithmetic::div_mod::lemma_mod_breakdown(v as int, 2, two_pow((n - 1) as nat) as int);
    }
}

/// Each byte's 8 bits.
pub proof fn lemma_byte_bits(x: u8, j: int)
    requires
        0 <= j < 8,
    ensures
        ((x >> ((7 - j) as u8)) & 1 == 1) == bits_of(x as u64, 8)[j],
{
    let s = (7 - j) as u8;
    assert(((x >> s) & 1 == 1) == (((x as u64) >> (s as u64)) & 1 == 1)) by (bit_vector)
        requires
            s < 8,
    ;
}

/// The bits of a byte string are its octet bits.
pub proof fn lemma_octet_bits(data: Seq<u8>)
    ensures
        octet_bits(data).len() == 8 * data.len(),
        forall|i: int| 0 <= i < 8 * data.len() ==> #[trigger] octet_bits(data)[i] == bit_at(data, i),
    decreases data.len(),
{
    if data.len() > 0 {
        let d = data.drop_last();
        lemma_octet_bits(d);
        assert forall|i: int| 0 <= i < 8 * data.len() implies #[trigger] octet_bits(data)[i] == bit_at(data, i) by {
            if i < 8 * d.len() {
                assert(octet_bits(data)[i] == octet_bits(d)[i]);
                assert(i / 8 < d.len()) by (nonlinear_arith)
                    requires
                        0 <= i < 8 * d.len(),
                ;
                assert(bit_at(d, i) == bit_at(data, i));
            } else {
                let j = i - 8 * d.len();
                assert(i / 8 == d.len() && i % 8 == j) by (nonlinear_arith)
                    requires
                        j == i - 8 * d.len(),
                        0 <= j < 8,
                ;
                lemma_byte_bits(data.last(), j);
            }
        }
    }
}

/// A byte packed from 8 bits gives those bits back.
pub proof fn lemma_byte_of_bits(b: Seq<bool>, s: int, j: int)
    requires
        0 <= j < 8,
        0 <= s,
        s + 8 <= b.len(),
    ensures
        ((byte_of_bits(b, s) >> ((7 - j) as u8)) & 1 == 1) == b[s + j],
{
    let (b0, b1, b2, b3, b4, b5, b6, b7) = (b[s], b[s + 1], b[s + 2], b[s + 3], b[s + 4], b[s + 5], b[s + 6], b[s + 7]);
    let x = byte_of_bits(b, s);
    let sh = (7 - j) as u8;
    assert(((x >> sh) & 1 == 1) == (if sh == 7 { b0 } else if sh == 6 { b1 } else if sh == 5 { b2 } else if sh == 4 {
        b3
    } else if sh == 3 { b4 } else if sh == 2 { b5 } else if sh == 1 { b6 } else { b7 })) by (bit_vector)
        requires
            sh < 8,
            x == (if b0 { 0x80u8 } else { 0u8 }) | (if b1 { 0x40u8 } else { 0u8 }) | (if b2 { 0x20u8 } else { 0u8 }) | (
            if b3 { 0x10u8 } else { 0u8 }) | (if b4 { 0x08u8 } else { 0u8 }) | (if b5 { 0x04u8 } else { 0u8 }) | (
            if b6 { 0x02u8 } else { 0u8 }) | (if b7 { 0x01u8 } else { 0u8 }),
    ;
}

/// Packed bits read back bit for bit.
pub proof fn lemma_bytes_of_bits(b: Seq<bool>)
    requires
        b.len() % 8 == 0,
    ensures
        bytes_of_bits(b).len() * 8 == b.len(),
        forall|i: int| 0 <= i < b.len() ==> #[trigger] bit_at(bytes_of_bits(b), i) == b[i],
{
    let bytes = bytes_of_bits(b);
    assert forall|i: int| 0 <= i < b.len() implies #[trigger] bit_at(bytes_of_bits(b), i) == b[i] by {
        let k = i / 8;
        let j = i % 8;
        assert(0 <= k < b.len() / 8 && 8 * k + j == i && 8 * k + 8 <= b.len()) by (nonlinear_arith)
            requires
                0 <= i < b.len(),
                b.len() % 8 == 0,
                k == i / 8,
                j == i % 8,
        ;
        lemma_byte_of_bits(b, 8 * k, j);
    }
}

/// Whole octets read back from octet-aligned bits.
pub proof fn lemma_bits_value_byte(data: Seq<u8>, k: int)
    requires
        0 <= k < data.len(),
    ensures
        bits_value(data, 8 * k, 8) == data[k] as nat,
{
    lemma_octet_bits(data);
    assert forall|i: int| 0 <= i < 8 implies bit_at(data, 8 * k + i) == #[trigger] bits_of(data[k] as u64, 8)[i] by {
        assert((8 * k + i) / 8 == k && (8 * k + i) % 8 == i) by (nonlinear_arith)
            requires
                0 <= i < 8,
        ;
        lemma_byte_bits(data[k], i);
    }
    lemma_bits_of_value(data, 8 * k, data[k] as u64, 8);
    lemma_two_pow_64();
}

// ── Writer ───────────────────────────────────────────────────────────────────

/// An ALIGNED PER bit string under construction.
pub struct PerWriter {
    bits: Vec<bool>,
}

impl View for PerWriter {
    type V = Seq<bool>;

    closed spec fn view(&self) -> Seq<bool> {
        self.bits@
    }
}

impl PerWriter {
    pub fn new() -> (w: Self)
        ensures
            w@ == Seq::<bool>::empty(),
    {
        PerWriter { bits: Vec::new() }
    }

    /// Append one bit.
    pub fn write_bit(&mut self, bit: bool)
        ensures
            final(self)@ == old(self)@.push(bit),
    {
        self.bits.push(bit);
    }

    /// Append the `n` low bits of `value`, most significant first.
    pub fn write_bits(&mut self, value: u64, n: usize)
        requires
            n <= 64,
        ensures
            final(self)@ == old(self)@ + bits_of(value, n as nat),
    {
        let ghost start = self@;
        let mut i: usize = n;
        while i > 0
            invariant
                i <= n,
                n <= 64,
                self@ == start + bits_of(value, n as nat).take((n - i) as int),
            decreases i,
        {
            i = i - 1;
            let bit = (value >> (i as u64)) & 1 == 1;
            self.bits.push(bit);
            proof {
                assert(bits_of(value, n as nat).take((n - i) as int) =~= bits_of(value, n as nat).take((n - i - 1) as int).push(bit));
            }
        }
        proof {
            assert(bits_of(value, n as nat).take(n as int) =~= bits_of(value, n as nat));
        }
    }

    /// Pad with zero bits to the next octet boundary.
    pub fn align(&mut self)
        ensures
            final(self)@ == old(self)@ + pad_bits(old(self)@.len()),
    {
        let ghost start = self@;
        let rem = self.bits.len() % 8;
        if rem != 0 {
            let mut k: usize = 0;
            while k < 8 - rem
                invariant
                    rem == start.len() % 8,
                    0 < rem < 8,
                    k <= 8 - rem,
                    self@ == start + Seq::new(k as nat, |i: int| false),
                decreases 8 - rem - k,
            {
                self.bits.push(false);
                proof {
                    assert(Seq::new(k as nat + 1, |i: int| false) =~= Seq::new(k as nat, |i: int| false).push(false));
                }
                k = k + 1;
            }
            proof {
                assert(Seq::new((8 - rem) as nat, |i: int| false) =~= pad_bits(start.len()));
            }
        } else {
            proof {
                assert(pad_bits(start.len()) =~= Seq::<bool>::empty());
                assert(self@ =~= start + pad_bits(start.len()));
            }
        }
    }

    /// Append every byte, 8 bits each.
    pub fn write_octets(&mut self, data: &[u8])
        ensures
            final(self)@ == old(self)@ + octet_bits(data@),
    {
        let ghost start = self@;
        let n = data.len();
        let mut i: usize = 0;
        while i < n
            invariant
                n == data@.len(),
                i <= n,
                self@ == start + octet_bits(data@.take(i as int)),
            decreases n - i,
        {
            self.write_bits(data[i] as u64, 8);
            proof {
                assert(data@.take(i as int + 1).drop_last() =~= data@.take(i as int));
                assert(self@ =~= start + octet_bits(data@.take(i as int + 1)));
            }
            i = i + 1;
        }
        proof {
            assert(data@.take(n as int) =~= data@);
        }
    }

    /// Append a constrained whole number in `min..=max`.
    pub fn write_constrained_int(&mut self, value: u64, min: u64, max: u64)
        requires
            min <= value <= max,
            max - min < u64::MAX,
        ensures
            final(self)@ == old(self)@ + constrained_bits(old(self)@.len(), value, min, max),
    {
        let range = max - min + 1;
        let v = value - min;
        if range <= 1 {
            proof {
                assert(constrained_bits(old(self)@.len(), value, min, max) =~= Seq::<bool>::empty());
                assert(self@ =~= old(self)@ + Seq::<bool>::empty());
            }
            return;
        }
        let num_bits = bits_for_range(range);
        proof {
            lemma_bit_len_bound((max - min) as nat);
            lemma_two_pow_64();
            lemma_bit_len_le((max - min) as nat, 64);
        }
        if num_bits <= 8 {
            self.write_bits(v, num_bits);
        } else {
            self.align();
            let num_octets = (num_bits + 7) / 8;
            self.write_bits(v, num_octets * 8);
            proof {
                assert(self@ =~= old(self)@ + constrained_bits(old(self)@.len(), value, min, max));
            }
        }
    }

    /// Append a length determinant (short or medium form).
    pub fn write_length_determinant(&mut self, len: usize)
        requires
            len < 16384,
        ensures
            final(self)@ == old(self)@ + length_bits(old(self)@.len(), len as u64),
    {
        self.align();
        if len < 128 {
            self.write_bit(false);
            self.write_bits(len as u64, 7);
        } else {
            self.write_bit(true);
            self.write_bit(false);
            self.write_bits(len as u64, 14);
        }
        proof {
            assert(self@ =~= old(self)@ + length_bits(old(self)@.len(), len as u64));
        }
    }

    /// Append a length-prefixed octet string.
    pub fn write_octet_string(&mut self, data: &[u8])
        requires
            data@.len() < 16384,
        ensures
            final(self)@ == old(self)@ + length_bits(old(self)@.len(), data@.len() as u64) + octet_bits(data@),
    {
        self.write_length_determinant(data.len());
        self.write_octets(data);
    }

    /// Pad to an octet boundary and pack the bits into bytes.
    pub fn into_bytes(self) -> (out: Vec<u8>)
        ensures
            out@ == bytes_of_bits(self@ + pad_bits(self@.len())),
    {
        let mut w = self;
        w.align();
        let bits = w.bits;
        let n = bits.len() / 8;
        let mut out: Vec<u8> = Vec::with_capacity(n);
        let mut k: usize = 0;
        proof {
            assert(bits@.len() % 8 == 0);
        }
        while k < n
            invariant
                n == bits@.len() / 8,
                bits@.len() % 8 == 0,
                bits@.len() <= usize::MAX,
                k <= n,
                out@ =~= bytes_of_bits(bits@).take(k as int),
            decreases n - k,
        {
            proof {
                assert(8 * k + 8 <= bits@.len()) by (nonlinear_arith)
                    requires
                        k < n,
                        n == bits@.len() / 8,
                ;
            }
            let s = 8 * k;
            let byte: u8 = (if bits[s] { 0x80u8 } else { 0u8 }) | (if bits[s + 1] { 0x40u8 } else { 0u8 }) | (
            if bits[s + 2] { 0x20u8 } else { 0u8 }) | (if bits[s + 3] { 0x10u8 } else { 0u8 }) | (if bits[s + 4] {
                0x08u8
            } else {
                0u8
            }) | (if bits[s + 5] { 0x04u8 } else { 0u8 }) | (if bits[s + 6] { 0x02u8 } else { 0u8 }) | (if bits[s + 7] {
                0x01u8
            } else {
                0u8
            });
            out.push(byte);
            proof {
                assert(bytes_of_bits(bits@).take(k as int + 1) =~= bytes_of_bits(bits@).take(k as int).push(byte));
            }
            k = k + 1;
        }
        proof {
            assert(bytes_of_bits(bits@).take(n as int) =~= bytes_of_bits(bits@));
        }
        out
    }
}

impl Default for PerWriter {
    fn default() -> (w: Self)
        ensures
            w@ == Seq::<bool>::empty(),
    {
        PerWriter::new()
    }
}

/// Bits needed to write a constrained whole number with `range` values.
pub fn bits_for_range(range: u64) -> (n: usize)
    ensures
        n as nat == if range <= 1 { 0 } else { bit_len((range - 1) as nat) },
        n <= 64,
{
    if range <= 1 {
        0
    } else {
        proof {
            lemma_leading_zeros((range - 1) as u64);
            lemma_bit_len_bound((range - 1) as nat);
            lemma_two_pow_64();
            lemma_bit_len_le((range - 1) as nat, 64);
        }
        64 - (range - 1).leading_zeros() as usize
    }
}

// ── Reader ───────────────────────────────────────────────────────────────────

/// A cursor over ALIGNED PER bytes.
pub struct PerReader<'a> {
    data: &'a [u8],
    bit_pos: usize,
}

impl<'a> PerReader<'a> {
    /// The bytes being read.
    pub closed spec fn spec_data(&self) -> Seq<u8> {
        self.data@
    }

    /// The position of the next bit.
    pub closed spec fn spec_pos(&self) -> int {
        self.bit_pos as int
    }

    /// The position lies within the data, whose bit count fits in `usize`.
    pub open spec fn wf(&self) -> bool {
        &&& 0 <= self.spec_pos() <= 8 * self.spec_data().len()
        &&& 8 * self.spec_data().len() <= usize::MAX
    }

    /// A reader at the first bit of `data`.
    pub fn new(data: &'a [u8]) -> (r: Self)
        requires
            8 * data@.len() <= usize::MAX,
        ensures
            r.wf(),
            r.spec_data() == data@,
            r.spec_pos() == 0,
    {
        PerReader { data, bit_pos: 0 }
    }

    /// Read one bit.
    pub fn read_bit(&mut self) -> (r: Option<bool>)
        requires
            old(self).wf(),
        ensures
            final(self).wf(),
            final(self).spec_data() == old(self).spec_data(),
            (r, final(self).spec_pos()) == read_bit_spec(old(self).spec_data(), old(self).spec_pos()),
    {
        let byte_idx = self.bit_pos / 8;
        let bit_idx = self.bit_pos % 8;
        if byte_idx >= self.data.len() {
            return None;
        }
        let bit = (self.data[byte_idx] >> ((7 - bit_idx) as u8)) & 1 == 1;
        self.bit_pos = self.bit_pos + 1;
        Some(bit)
    }

    /// Read `n` bits as a number (modulo 2^64).
    pub fn read_bits(&mut self, n: usize) -> (r: Option<u64>)
        requires
            old(self).wf(),
        ensures
            final(self).wf(),
            final(self).spec_data() == old(self).spec_data(),
            (r, final(self).spec_pos()) == read_bits_spec(old(self).spec_data(), old(self).spec_pos(), n as nat),
    {
        let ghost d = self.spec_data();
        let ghost p0 = self.spec_pos();
        let mut v: u64 = 0;
        let mut k: usize = 0;
        while k < n
            invariant
                self.wf(),
                self.spec_data() == d,
                d == old(self).spec_data(),
                p0 == old(self).spec_pos(),
                k <= n,
                self.spec_pos() == p0 + k,
                p0 + k <= 8 * d.len(),
                v as nat == bits_value(d, p0, k as nat) % 0x1_0000_0000_0000_0000,
            decreases n - k,
        {
            let b = self.read_bit();
            match b {
                None => {
                    return None;
                },
                Some(bit) => {
                    let bb: u64 = if bit { 1 } else { 0 };
                    let nv = (v << 1u64) | bb;
                    proof {
                        assert(nv as int == (2 * (v as int) + bb as int) % 0x1_0000_0000_0000_0000) by (bit_vector)
                            requires
                                nv == (v << 1u64) | bb,
                                bb <= 1,
                        ;
                        let m: int = 0x1_0000_0000_0000_0000;
                        let x = bits_value(d, p0, k as nat) as int;
                        vstd::arithmetic::div_mod::lemma_mul_mod_noop_right(2, x, m);
                        vstd::arithmetic::div_mod::lemma_add_mod_noop(2 * x, bb as int, m);
                        vstd::arithmetic::div_mod::lemma_add_mod_noop(2 * (x % m), bb as int, m);
                        vstd::arithmetic::div_mod::lemma_small_mod(bb as nat, m as nat);
                    }
                    v = nv;
                },
            }
            k = k + 1;
        }
        Some(v)
    }

    /// Skip to the next octet boundary.
    pub fn align(&mut self)
        requires
            old(self).wf(),
        ensures
            final(self).wf(),
            final(self).spec_data() == old(self).spec_data(),
            final(self).spec_pos() == align_up(old(self).spec_pos()),
    {
        let rem = self.bit_pos % 8;
        if rem != 0 {
            proof {
                let p = self.bit_pos as int;
                let l = self.data@.len() as int;
                assert(p + 8 - p % 8 <= 8 * l) by (nonlinear_arith)
                    requires
                        p <= 8 * l,
                        p % 8 != 0,
                        0 <= p,
                ;
            }
            self.bit_pos = self.bit_pos + (8 - rem);
        }
    }

    /// Read a constrained whole number in `min..=max`.
    pub fn read_constrained_int(&mut self, min: u64, max: u64) -> (r: Option<u64>)
        requires
            old(self).wf(),
            min <= max,
            max - min < u64::MAX,
        ensures
            final(self).wf(),
            final(self).spec_data() == old(self).spec_data(),
            (r, final(self).spec_pos()) == read_constrained_spec(old(self).spec_data(), old(self).spec_pos(), min, max),
    {
        let range = max - min + 1;
        if range <= 1 {
            return Some(min);
        }
        let num_bits = bits_for_range(range);
        let ghost d = self.spec_data();
        let ghost p = self.spec_pos();
        let v = if num_bits <= 8 {
            match self.read_bits(num_bits) {
                Some(v) => v,
                None => {
                    return None;
                },
            }
        } else {
            self.align();
            let num_octets = (num_bits + 7) / 8;
            match self.read_bits(num_octets * 8) {
                Some(v) => v,
                None => {
                    return None;
                },
            }
        };
        proof {
            let w = read_width((max - min) as u64);
            let start = if num_bits <= 8 { p } else { align_up(p) };
            lemma_bits_value_bound(d, start, w);
            lemma_two_pow_64();
            lemma_two_pow_mono(w, 64);
            lemma_bit_len_bound((max - min) as nat);
            lemma_bit_len_le((max - min) as nat, 64);
        }
        // A value past u64::MAX can only come from bytes no writer made.
        min.checked_add(v)
    }

    /// Read a length determinant (short or medium form; the fragmented
    /// form is not supported and reads as `None`).
    pub fn read_length_determinant(&mut self) -> (r: Option<usize>)
        requires
            old(self).wf(),
        ensures
            final(self).wf(),
            final(self).spec_data() == old(self).spec_data(),
            (match r {
                Some(n) => Some(n as u64),
                None => None,
            }, final(self).spec_pos()) == read_length_spec(old(self).spec_data(), old(self).spec_pos()),
    {
        self.align();
        let b0 = match self.read_bit() {
            Some(b) => b,
            None => {
                return None;
            },
        };
        if !b0 {
            let rest = match self.read_bits(7) {
                Some(v) => v,
                None => {
                    return None;
                },
            };
            proof {
                lemma_bits_value_bound(old(self).spec_data(), align_up(old(self).spec_pos()) + 1, 7);
                lemma_two_pow_64();
            }
            Some(rest as usize)
        } else {
            let b1 = match self.read_bit() {
                Some(b) => b,
                None => {
                    return None;
                },
            };
            if b1 {
                return None;
            }
            let rest = match self.read_bits(14) {
                Some(v) => v,
                None => {
                    return None;
                },
            };
            proof {
                lemma_bits_value_bound(old(self).spec_data(), align_up(old(self).spec_pos()) + 2, 14);
                lemma_two_pow_64();
            }
            Some(rest as usize)
        }
    }

    /// Read `n` whole octets from the next octet boundary.
    pub fn read_octets(&mut self, n: usize) -> (r: Option<Vec<u8>>)
        requires
            old(self).wf(),
        ensures
            final(self).wf(),
            final(self).spec_data() == old(self).spec_data(),
            (match r {
                Some(v) => Some(v@),
                None => None,
            }, final(self).spec_pos()) == read_octets_spec(old(self).spec_data(), old(self).spec_pos(), n as nat),
    {
        self.align();
        let ghost d = self.spec_data();
        let ghost a = self.spec_pos();
        let mut out: Vec<u8> = Vec::new();
        let mut k: usize = 0;
        while k < n
            invariant
                self.wf(),
                self.spec_data() == d,
                d == old(self).spec_data(),
                a == align_up(old(self).spec_pos()),
                a % 8 == 0,
                0 <= a <= 8 * d.len(),
                k <= n,
                self.spec_pos() == a + 8 * k,
                out@ == d.subrange(a / 8, a / 8 + k),
            decreases n - k,
        {
            let b = match self.read_bits(8) {
                Some(v) => v,
                None => {
                    proof {
                        assert(a + 8 * n > 8 * d.len());
                    }
                    return None;
                },
            };
            proof {
                let idx = a / 8 + k;
                assert(8 * idx == a + 8 * k) by (nonlinear_arith)
                    requires
                        a % 8 == 0,
                        idx == a / 8 + k,
                ;
                assert(idx < d.len()) by (nonlinear_arith)
                    requires
                        8 * idx + 8 <= 8 * d.len(),
                ;
                lemma_bits_value_byte(d, idx);
                lemma_two_pow_64();
                assert(d.subrange(a / 8, a / 8 + k + 1) =~= d.subrange(a / 8, a / 8 + k).push(d[idx]));
            }
            out.push(b as u8);
            k = k + 1;
        }
        Some(out)
    }

    /// Read a length-prefixed octet string.
    pub fn read_octet_string(&mut self) -> (r: Option<Vec<u8>>)
        requires
            old(self).wf(),
        ensures
            final(self).wf(),
            final(self).spec_data() == old(self).spec_data(),
            (match r {
                Some(v) => Some(v@),
                None => None,
            }, final(self).spec_pos()) == read_octet_string_spec(old(self).spec_data(), old(self).spec_pos()),
    {
        let len = match self.read_length_determinant() {
            Some(n) => n,
            None => {
                return None;
            },
        };
        self.read_octets(len)
    }
}

/// Bits a constrained whole number with offsets `0..=span` occupies once
/// read: the minimal bit count up to 8, else whole octets.
pub open spec fn read_width(span: u64) -> nat {
    let nb = bit_len(span as nat);
    if nb <= 8 {
        nb
    } else {
        8 * ((nb + 7) / 8)
    }
}

// ── Laws: what the writer writes, the reader reads back ──────────────────────

/// The bytes carry the given bits from bit 0 on.
pub open spec fn bits_match(data: Seq<u8>, bits: Seq<bool>) -> bool {
    &&& bits.len() <= 8 * data.len()
    &&& forall|i: int| 0 <= i < bits.len() ==> bit_at(data, i) == #[trigger] bits[i]
}

pub proof fn lemma_align_up(pos: int)
    requires
        pos >= 0,
    ensures
        align_up(pos) % 8 == 0,
        pos <= align_up(pos) < pos + 8,
        pad_bits(pos as nat).len() == align_up(pos) - pos,
{
}

/// The packed output of a writer carries its bits.
pub proof fn law_into_bytes_carries_bits(bits: Seq<bool>)
    ensures
        bits_match(bytes_of_bits(bits + pad_bits(bits.len())), bits + pad_bits(bits.len())),
        bits_match(bytes_of_bits(bits + pad_bits(bits.len())), bits),
{
    lemma_align_up(bits.len() as int);
    let all = bits + pad_bits(bits.len());
    lemma_bytes_of_bits(all);
    assert forall|i: int| 0 <= i < bits.len() implies bit_at(bytes_of_bits(all), i) == #[trigger] bits[i] by {
        assert(all[i] == bits[i]);
    }
}

proof fn lemma_read_bits_of(data: Seq<u8>, pos: int, v: u64, n: nat)
    requires
        n <= 64,
        pos >= 0,
        pos + n <= 8 * data.len(),
        forall|i: int| 0 <= i < n ==> bit_at(data, pos + i) == #[trigger] bits_of(v, n)[i],
        (v as nat) < two_pow(n),
    ensures
        read_bits_spec(data, pos, n) == (Some(v), pos + n),
{
    lemma_bits_of_value(data, pos, v, n);
    vstd::arithmetic::div_mod::lemma_small_mod(v as nat, two_pow(n));
    lemma_two_pow_64();
    vstd::arithmetic::div_mod::lemma_small_mod(v as nat, 0x1_0000_0000_0000_0000);
}

/// A constrained whole number reads back as written, and the reader ends
/// where the writer did.
pub proof fn law_constrained_int_round_trip(data: Seq<u8>, pre: Seq<bool>, value: u64, min: u64, max: u64)
    requires
        min <= value <= max,
        max - min < u64::MAX,
        bits_match(data, pre + constrained_bits(pre.len(), value, min, max)),
    ensures
        read_constrained_spec(data, pre.len() as int, min, max)
            == (Some(value), (pre + constrained_bits(pre.len(), value, min, max)).len() as int),
{
    let all = pre + constrained_bits(pre.len(), value, min, max);
    if max == min {
        assert(all =~= pre);
    } else {
        let span = (max - min) as nat;
        let nb = bit_len(span);
        let v = (value - min) as u64;
        lemma_bit_len_bound(span);
        lemma_two_pow_64();
        lemma_bit_len_le(span, 64);
        if nb <= 8 {
            assert forall|i: int| 0 <= i < nb implies bit_at(data, pre.len() + i) == #[trigger] bits_of(v, nb)[i] by {
                assert(all[pre.len() + i] == bits_of(v, nb)[i]);
            }
            lemma_read_bits_of(data, pre.len() as int, v, nb);
        } else {
            let a = align_up(pre.len() as int);
            lemma_align_up(pre.len() as int);
            let w = 8 * ((nb + 7) / 8);
            assert(nb <= w <= 64) by (nonlinear_arith)
                requires
                    w == 8 * ((nb + 7) / 8),
                    nb <= 64,
            ;
            lemma_two_pow_mono(nb, w);
            assert forall|i: int| 0 <= i < w implies bit_at(data, a + i) == #[trigger] bits_of(v, w)[i] by {
                assert(all[a + i] == bits_of(v, w)[i]);
            }
            lemma_read_bits_of(data, a, v, w);
        }
    }
}

/// A length determinant reads back as written.
pub proof fn law_length_round_trip(data: Seq<u8>, pre: Seq<bool>, len: u64)
    requires
        len < 16384,
        bits_match(data, pre + length_bits(pre.len(), len)),
    ensures
        read_length_spec(data, pre.len() as int) == (Some(len), (pre + length_bits(pre.len(), len)).len() as int),
{
    let all = pre + length_bits(pre.len(), len);
    let a = align_up(pre.len() as int);
    lemma_align_up(pre.len() as int);
    lemma_two_pow_64();
    assert(bit_at(data, a) == all[a]);
    if len < 128 {
        assert forall|i: int| 0 <= i < 7 implies bit_at(data, a + 1 + i) == #[trigger] bits_of(len, 7)[i] by {
            assert(all[a + 1 + i] == bits_of(len, 7)[i]);
        }
        lemma_read_bits_of(data, a + 1, len, 7);
    } else {
        assert(bit_at(data, a + 1) == all[a + 1]);
        assert forall|i: int| 0 <= i < 14 implies bit_at(data, a + 2 + i) == #[trigger] bits_of(len, 14)[i] by {
            assert(all[a + 2 + i] == bits_of(len, 14)[i]);
        }
        lemma_read_bits_of(data, a + 2, len, 14);
    }
}

/// Octets written at an octet boundary read back as written.
pub proof fn law_octets_round_trip(data: Seq<u8>, pre: Seq<bool>, bytes: Seq<u8>)
    requires
        pre.len() % 8 == 0,
        bits_match(data, pre + octet_bits(bytes)),
    ensures
        read_octets_spec(data, pre.len() as int, bytes.len()) == (Some(bytes), (pre + octet_bits(bytes)).len() as int),
{
    let all = pre + octet_bits(bytes);
    let a = pre.len() as int;
    lemma_octet_bits(bytes);
    assert(a + 8 * bytes.len() <= 8 * data.len());
    let got = data.subrange(a / 8, a / 8 + bytes.len());
    assert forall|k: int| 0 <= k < bytes.len() implies got[k] == bytes[k] by {
        let idx = a / 8 + k;
        assert(8 * idx == a + 8 * k) by (nonlinear_arith)
            requires
                a % 8 == 0,
                idx == a / 8 + k,
        ;
        assert(idx < data.len()) by (nonlinear_arith)
            requires
                8 * idx + 8 <= 8 * data.len(),
                8 * idx == a + 8 * k,
                k < bytes.len(),
                a + 8 * bytes.len() <= 8 * data.len(),
        ;
        lemma_bits_value_byte(data, idx);
        assert forall|j: int| 0 <= j < 8 implies bit_at(data, 8 * idx + j) == #[trigger] bits_of(bytes[k] as u64, 8)[j] by {
            assert(all[a + 8 * k + j] == octet_bits(bytes)[8 * k + j]);
            assert((8 * k + j) / 8 == k && (8 * k + j) % 8 == j) by (nonlinear_arith)
                requires
                    0 <= j < 8,
            ;
            lemma_byte_bits(bytes[k], j);
        }
        lemma_bits_of_value(data, 8 * idx, bytes[k] as u64, 8);
        lemma_two_pow_64();
    }
    assert(got =~= bytes);
}

/// A length-prefixed octet string reads back as written.
pub proof fn law_octet_string_round_trip(data: Seq<u8>, pre: Seq<bool>, bytes: Seq<u8>)
    requires
        bytes.len() < 16384,
        bits_match(data, pre + length_bits(pre.len(), bytes.len() as u64) + octet_bits(bytes)),
    ensures
        read_octet_string_spec(data, pre.len() as int)
            == (Some(bytes), (pre + length_bits(pre.len(), bytes.len() as u64) + octet_bits(bytes)).len() as int),
{
    let mid = pre + length_bits(pre.len(), bytes.len() as u64);
    let all = mid + octet_bits(bytes);
    assert forall|i: int| 0 <= i < mid.len() implies bit_at(data, i) == #[trigger] mid[i] by {
        assert(all[i] == mid[i]);
    }
    law_length_round_trip(data, pre, bytes.len() as u64);
    lemma_align_up(pre.len() as int);
    assert(mid.len() % 8 == 0);
    law_octets_round_trip(data, mid, bytes);
}

} // verus!
