//! Generic Keccak sponge (pad10*1, absorb, squeeze) over Keccak-f[1600].
//!
//! Lanes are little-endian: byte `i` of the 200-byte state is byte `i % 8`
//! of lane `i / 8`. The rate is a parameter (capacity = 200 - rate).

use vstd::prelude::*;

use crate::auth::tuak::keccak_p::{keccak_f1600, keccak_f1600_spec, STATE_BYTES, STATE_LANES};

verus! {

/// Byte `i` of the little-endian byte image of the lanes.
pub open spec fn lane_byte(lanes: Seq<u64>, i: int) -> u8 {
    (lanes[i / 8] >> ((8 * (i % 8)) as u64)) as u8
}

/// The 200-byte image of the 25 lanes.
pub open spec fn state_bytes_spec(lanes: Seq<u64>) -> Seq<u8> {
    Seq::new(200, |i: int| lane_byte(lanes, i))
}

/// Byte `i` of a block, zero past its end.
pub open spec fn block_byte(block: Seq<u8>, i: int) -> u64 {
    if 0 <= i < block.len() {
        block[i] as u64
    } else {
        0
    }
}

/// Lane `i` read little-endian from the block (zero-padded).
pub open spec fn le_lane(block: Seq<u8>, i: int) -> u64 {
    block_byte(block, 8 * i) | (block_byte(block, 8 * i + 1) << 8u64) | (block_byte(block, 8 * i + 2)
        << 16u64) | (block_byte(block, 8 * i + 3) << 24u64) | (block_byte(block, 8 * i + 4) << 32u64)
        | (block_byte(block, 8 * i + 5) << 40u64) | (block_byte(block, 8 * i + 6) << 48u64) | (
    block_byte(block, 8 * i + 7) << 56u64)
}

/// The state with one block xored into its leading lanes.
pub open spec fn xor_block_spec(st: Seq<u64>, block: Seq<u8>) -> Seq<u64> {
    Seq::new(25, |i: int| st[i] ^ le_lane(block, i))
}

/// pad10*1, byte-oriented: one `0x81` when a single byte is missing,
/// otherwise `0x01`, zeros, `0x80`, up to the next multiple of the rate.
pub open spec fn pad_spec(input: Seq<u8>, rate: nat) -> Seq<u8> {
    let pad_len = (rate as int) - (input.len() as int) % (rate as int);
    if pad_len == 1 {
        input.push(0x81u8)
    } else {
        input.push(0x01u8) + Seq::new((pad_len - 2) as nat, |i: int| 0u8) + seq![0x80u8]
    }
}

/// Xor each `rate`-byte block of `data` into the state and permute.
pub open spec fn absorb_blocks(st: Seq<u64>, data: Seq<u8>, rate: nat) -> Seq<u64>
    decreases data.len(),
{
    if rate == 0 || data.len() < rate {
        st
    } else {
        absorb_blocks(
            keccak_f1600_spec(xor_block_spec(st, data.take(rate as int))),
            data.skip(rate as int),
            rate,
        )
    }
}

/// Squeezing `len` bytes from `st` at rate offset `pos`: the bytes, the
/// state afterwards and the offset afterwards. A fresh permutation runs each
/// time the rate part of the state is used up.
pub open spec fn squeeze_spec(st: Seq<u64>, pos: nat, rate: nat, len: nat) -> (Seq<u8>, Seq<u64>, nat)
    decreases len,
{
    if len == 0 {
        (Seq::empty(), st, pos)
    } else {
        let st1 = if pos >= rate { keccak_f1600_spec(st) } else { st };
        let p1: nat = if pos >= rate { 0 } else { pos };
        let rest = squeeze_spec(st1, p1 + 1, rate, (len - 1) as nat);
        (seq![state_bytes_spec(st1)[p1 as int]] + rest.0, rest.1, rest.2)
    }
}

/// A Keccak sponge instance: fixed 1600-bit state, configurable rate.
pub struct KeccakSponge {
    state: [u64; STATE_LANES],
    rate_bytes: usize,
    squeeze_pos: usize,
    squeezing: bool,
}

impl KeccakSponge {
    /// The 25 lanes.
    pub closed spec fn lanes(&self) -> Seq<u64> {
        self.state@
    }

    /// The rate in bytes.
    pub closed spec fn rate(&self) -> nat {
        self.rate_bytes as nat
    }

    /// Offset into the rate part already squeezed out.
    pub closed spec fn pos(&self) -> nat {
        self.squeeze_pos as nat
    }

    /// Whether output has begun.
    pub closed spec fn is_squeezing(&self) -> bool {
        self.squeezing
    }

    /// The sponge's invariant: a rate in 1..=200 and an offset within it.
    pub closed spec fn wf(&self) -> bool {
        &&& 1 <= self.rate_bytes <= 200
        &&& self.squeeze_pos <= self.rate_bytes
    }

    /// `rate_bytes` must be in `1..=200`; the state starts all-zero.
    pub fn new(rate_bytes: usize) -> (s: KeccakSponge)
        requires
            1 <= rate_bytes <= STATE_BYTES,
        ensures
            s.wf(),
            s.lanes() == Seq::new(25, |i: int| 0u64),
            s.rate() == rate_bytes,
            s.pos() == 0,
            !s.is_squeezing(),
    {
        let s = KeccakSponge { state: [0u64; STATE_LANES], rate_bytes, squeeze_pos: 0, squeezing: false };
        proof {
            assert(s.state@ =~= Seq::new(25, |i: int| 0u64));
        }
        s
    }

    /// Absorb the whole input: pad10*1, then xor and permute block by block.
    pub fn absorb(&mut self, input: &[u8])
        requires
            old(self).wf(),
            !old(self).is_squeezing(),
            input@.len() + STATE_BYTES <= usize::MAX,
        ensures
            final(self).wf(),
            final(self).lanes() == absorb_blocks(old(self).lanes(), pad_spec(input@, old(self).rate()), old(self).rate()),
            final(self).rate() == old(self).rate(),
            final(self).pos() == old(self).pos(),
            !final(self).is_squeezing(),
    {
        let rate = self.rate_bytes;
        let padded = pad10_star_1(input, rate);
        let n = padded.len();
        let nblocks = n / rate;
        proof {
            lemma_pad_len(input@, rate as nat);
            vstd::arithmetic::div_mod::lemma_fundamental_div_mod(n as int, rate as int);
        }
        let ghost orig = self.state@;
        let mut b: usize = 0;
        proof {
            assert(padded@.skip(0) =~= padded@);
        }
        while b < nblocks
            invariant
                1 <= rate <= 200,
                rate == self.rate_bytes,
                self.wf(),
                !self.squeezing,
                self.squeeze_pos == old(self).squeeze_pos,
                n == padded@.len(),
                n == nblocks * rate,
                b <= nblocks,
                absorb_blocks(orig, padded@, rate as nat) == absorb_blocks(self.state@, padded@.skip(b * rate), rate as nat),
            decreases nblocks - b,
        {
            proof {
                vstd::arithmetic::mul::lemma_mul_inequality((b + 1) as int, nblocks as int, rate as int);
                vstd::arithmetic::mul::lemma_mul_is_distributive_add_other_way(rate as int, b as int, 1);
            }
            let block = vstd::slice::slice_subrange(padded.as_slice(), b * rate, (b + 1) * rate);
            let ghost rest = padded@.skip(b * rate);
            proof {
                assert(block@ =~= rest.take(rate as int));
                assert(rest.skip(rate as int) =~= padded@.skip((b + 1) * rate));
            }
            self.xor_block_into_state(block);
            keccak_f1600(&mut self.state);
            b = b + 1;
        }
        proof {
            assert(padded@.skip(nblocks * rate) =~= Seq::<u8>::empty());
        }
    }

    /// Squeeze `len` bytes, continuing where the previous call stopped.
    pub fn squeeze(&mut self, len: usize) -> (out: Vec<u8>)
        requires
            old(self).wf(),
        ensures
            final(self).wf(),
            final(self).is_squeezing(),
            final(self).rate() == old(self).rate(),
            (out@, final(self).lanes(), final(self).pos()) == squeeze_spec(old(self).lanes(), old(self).pos(), old(self).rate(), len as nat),
    {
        self.squeezing = true;
        let rate = self.rate_bytes;
        let mut out: Vec<u8> = Vec::new();
        let ghost target = squeeze_spec(self.state@, self.squeeze_pos as nat, rate as nat, len as nat);
        while out.len() < len
            invariant
                self.wf(),
                self.squeezing,
                rate == self.rate_bytes,
                out@.len() <= len,
                target.0 == out@ + squeeze_spec(self.state@, self.squeeze_pos as nat, rate as nat, (len - out@.len()) as nat).0,
                target.1 == squeeze_spec(self.state@, self.squeeze_pos as nat, rate as nat, (len - out@.len()) as nat).1,
                target.2 == squeeze_spec(self.state@, self.squeeze_pos as nat, rate as nat, (len - out@.len()) as nat).2,
            decreases len - out@.len(),
        {
            let remaining = len - out.len();
            if self.squeeze_pos == self.rate_bytes {
                proof {
                    lemma_squeeze_at_rate(self.state@, rate as nat, remaining as nat);
                }
                keccak_f1600(&mut self.state);
                self.squeeze_pos = 0;
            }
            let state_bytes = self.state_as_bytes();
            let available = self.rate_bytes - self.squeeze_pos;
            let take = if available < remaining { available } else { remaining };
            let pos = self.squeeze_pos;
            let ghost st = self.state@;
            proof {
                lemma_squeeze_additive(st, pos as nat, rate as nat, take as nat, (remaining - take) as nat);
                lemma_squeeze_chunk(st, pos as nat, rate as nat, take as nat);
            }
            let mut j: usize = pos;
            let ghost out0 = out@;
            while j < pos + take
                invariant
                    pos <= j <= pos + take,
                    pos + take <= 200,
                    state_bytes@ == state_bytes_spec(st),
                    out@ == out0 + state_bytes_spec(st).subrange(pos as int, j as int),
                decreases pos + take - j,
            {
                out.push(state_bytes[j]);
                proof {
                    assert(state_bytes_spec(st).subrange(pos as int, j + 1) =~= state_bytes_spec(st).subrange(pos as int, j as int).push(state_bytes_spec(st)[j as int]));
                }
                j = j + 1;
            }
            self.squeeze_pos = pos + take;
            proof {
                let tail = squeeze_spec(st, (pos + take) as nat, rate as nat, (remaining - take) as nat);
                assert(target.0 =~= out@ + tail.0);
            }
        }
        out
    }

    /// One-shot convenience: absorb `input`, then squeeze `output_len` bytes.
    pub fn absorb_and_squeeze(rate_bytes: usize, input: &[u8], output_len: usize) -> (out: Vec<u8>)
        requires
            1 <= rate_bytes <= STATE_BYTES,
            input@.len() + STATE_BYTES <= usize::MAX,
        ensures
            out@ == squeeze_spec(
                absorb_blocks(Seq::new(25, |i: int| 0u64), pad_spec(input@, rate_bytes as nat), rate_bytes as nat),
                0,
                rate_bytes as nat,
                output_len as nat,
            ).0,
    {
        let mut sponge = KeccakSponge::new(rate_bytes);
        sponge.absorb(input);
        sponge.squeeze(output_len)
    }

    fn xor_block_into_state(&mut self, block: &[u8])
        requires
            block@.len() <= old(self).rate_bytes,
            old(self).wf(),
        ensures
            final(self).state@ == xor_block_spec(old(self).state@, block@),
            final(self).rate_bytes == old(self).rate_bytes,
            final(self).squeeze_pos == old(self).squeeze_pos,
            final(self).squeezing == old(self).squeezing,
    {
        let len = block.len();
        let ghost st0 = self.state@;
        let mut i: usize = 0;
        while i < 25
            invariant
                i <= 25,
                len == block@.len(),
                len <= 200,
                self.rate_bytes == old(self).rate_bytes,
                self.squeeze_pos == old(self).squeeze_pos,
                self.squeezing == old(self).squeezing,
                forall|j: int| 0 <= j < i ==> self.state@[j] == st0[j] ^ le_lane(block@, j),
                forall|j: int| i <= j < 25 ==> self.state@[j] == st0[j],
            decreases 25 - i,
        {
            let base = i * 8;
            let b0: u64 = if base < len { block[base] as u64 } else { 0 };
            let b1: u64 = if base + 1 < len { block[base + 1] as u64 } else { 0 };
            let b2: u64 = if base + 2 < len { block[base + 2] as u64 } else { 0 };
            let b3: u64 = if base + 3 < len { block[base + 3] as u64 } else { 0 };
            let b4: u64 = if base + 4 < len { block[base + 4] as u64 } else { 0 };
            let b5: u64 = if base + 5 < len { block[base + 5] as u64 } else { 0 };
            let b6: u64 = if base + 6 < len { block[base + 6] as u64 } else { 0 };
            let b7: u64 = if base + 7 < len { block[base + 7] as u64 } else { 0 };
            let lane = b0 | (b1 << 8u64) | (b2 << 16u64) | (b3 << 24u64) | (b4 << 32u64) | (b5 << 40u64)
                | (b6 << 48u64) | (b7 << 56u64);
            proof {
                assert(lane == le_lane(block@, i as int));
            }
            self.state[i] = self.state[i] ^ lane;
            i = i + 1;
        }
        proof {
            assert(self.state@ =~= xor_block_spec(st0, block@));
        }
    }

    fn state_as_bytes(&self) -> (out: [u8; STATE_BYTES])
        ensures
            out@ == state_bytes_spec(self.state@),
    {
        let mut out = [0u8; STATE_BYTES];
        let mut i: usize = 0;
        while i < 200
            invariant
                i <= 200,
                forall|j: int| 0 <= j < i ==> out@[j] == lane_byte(self.state@, j),
            decreases 200 - i,
        {
            let lane = self.state[i / 8];
            let shift = (8 * (i % 8)) as u64;
            out[i] = (lane >> shift) as u8;
            i = i + 1;
        }
        proof {
            assert(out@ =~= state_bytes_spec(self.state@));
        }
        out
    }
}

/// Multi-rate padding (pad10*1), byte-oriented.
pub fn pad10_star_1(input: &[u8], rate_bytes: usize) -> (out: Vec<u8>)
    requires
        rate_bytes >= 1,
        input@.len() + rate_bytes <= usize::MAX,
    ensures
        out@ == pad_spec(input@, rate_bytes as nat),
        (out@.len() as int) % (rate_bytes as int) == 0,
        out@.len() > input@.len(),
{
    let mut out = crate::bytes_util::to_vec(input);
    let rem = out.len() % rate_bytes;
    let pad_len = rate_bytes - rem;
    if pad_len == 1 {
        out.push(0x81);
    } else {
        out.push(0x01);
        let mut k: usize = 0;
        let ghost start = out@;
        while k < pad_len - 2
            invariant
                k <= pad_len - 2,
                pad_len >= 2,
                out@ == start + Seq::new(k as nat, |i: int| 0u8),
            decreases pad_len - 2 - k,
        {
            out.push(0u8);
            proof {
                assert(start + Seq::new((k + 1) as nat, |i: int| 0u8) =~= (start + Seq::new(k as nat, |i: int| 0u8)).push(0u8));
            }
            k = k + 1;
        }
        out.push(0x80);
    }
    proof {
        lemma_pad_len(input@, rate_bytes as nat);
        assert(out@ =~= pad_spec(input@, rate_bytes as nat));
    }
    out
}

/// The padded input is a whole number of blocks, longer than the input.
pub proof fn lemma_pad_len(input: Seq<u8>, rate: nat)
    requires
        rate >= 1,
    ensures
        pad_spec(input, rate).len() == input.len() + ((rate as int) - (input.len() as int) % (rate as int)),
        (pad_spec(input, rate).len() as int) % (rate as int) == 0,
{
    let r = rate as int;
    let l = input.len() as int;
    vstd::arithmetic::div_mod::lemma_fundamental_div_mod(l, r);
    let q = l / r;
    assert(l + (r - l % r) == (q + 1) * r) by (nonlinear_arith)
        requires
            l == r * q + l % r,
    ;
    vstd::arithmetic::div_mod::lemma_mod_multiples_basic(q + 1, r);
}

/// Squeezing at the end of the rate part is squeezing from a freshly
/// permuted state.
pub proof fn lemma_squeeze_at_rate(st: Seq<u64>, rate: nat, len: nat)
    requires
        rate >= 1,
        len > 0,
    ensures
        squeeze_spec(st, rate, rate, len) == squeeze_spec(keccak_f1600_spec(st), 0, rate, len),
{
}

/// Within the current rate block, squeezing copies state bytes.
pub proof fn lemma_squeeze_chunk(st: Seq<u64>, pos: nat, rate: nat, k: nat)
    requires
        pos < rate,
        pos + k <= rate,
        rate <= 200,
    ensures
        squeeze_spec(st, pos, rate, k).0 == state_bytes_spec(st).subrange(pos as int, (pos + k) as int),
        squeeze_spec(st, pos, rate, k).1 == st,
        squeeze_spec(st, pos, rate, k).2 == pos + k,
    decreases k,
{
    if k > 0 {
        let rest = squeeze_spec(st, pos + 1, rate, (k - 1) as nat);
        if k == 1 {
            assert(rest == (Seq::<u8>::empty(), st, pos + 1));
        } else {
            lemma_squeeze_chunk(st, pos + 1, rate, (k - 1) as nat);
        }
        assert(squeeze_spec(st, pos, rate, k) == (seq![state_bytes_spec(st)[pos as int]] + rest.0, rest.1, rest.2));
        assert(squeeze_spec(st, pos, rate, k).0 =~= state_bytes_spec(st).subrange(pos as int, (pos + k) as int));
    }
}

/// Squeezing `a + b` bytes is squeezing `a` bytes and then `b` more.
pub proof fn lemma_squeeze_additive(st: Seq<u64>, pos: nat, rate: nat, a: nat, b: nat)
    ensures
        ({
            let first = squeeze_spec(st, pos, rate, a);
            let second = squeeze_spec(first.1, first.2, rate, b);
            squeeze_spec(st, pos, rate, a + b) == (first.0 + second.0, second.1, second.2)
        }),
    decreases a,
{
    if a == 0 {
        let second = squeeze_spec(st, pos, rate, b);
        assert(Seq::<u8>::empty() + second.0 =~= second.0);
    } else {
        let st1 = if pos >= rate { keccak_f1600_spec(st) } else { st };
        let p1: nat = if pos >= rate { 0 } else { pos };
        lemma_squeeze_additive(st1, p1 + 1, rate, (a - 1) as nat, b);
        let first = squeeze_spec(st, pos, rate, a);
        let second = squeeze_spec(first.1, first.2, rate, b);
        let whole = squeeze_spec(st, pos, rate, a + b);
        assert(((a + b) - 1) as nat == ((a - 1) as nat) + b);
        assert(whole.0 =~= first.0 + second.0);
    }
}

/// Squeezing in two calls gives the same bytes as one call for the total.
pub proof fn law_incremental_squeeze(st: Seq<u64>, pos: nat, rate: nat, a: nat, b: nat)
    ensures
        squeeze_spec(st, pos, rate, a + b).0 == squeeze_spec(st, pos, rate, a).0 + squeeze_spec(
            squeeze_spec(st, pos, rate, a).1,
            squeeze_spec(st, pos, rate, a).2,
            rate,
            b,
        ).0,
{
    lemma_squeeze_additive(st, pos, rate, a, b);
}

/// Squeezed output has exactly the requested length.
pub proof fn law_squeeze_length(st: Seq<u64>, pos: nat, rate: nat, len: nat)
    ensures
        squeeze_spec(st, pos, rate, len).0.len() == len,
    decreases len,
{
    if len > 0 {
        let st1 = if pos >= rate { keccak_f1600_spec(st) } else { st };
        let p1: nat = if pos >= rate { 0 } else { pos };
        law_squeeze_length(st1, p1 + 1, rate, (len - 1) as nat);
    }
}

} // verus!
