//! The ALIGNED PER framing S1AP and NGAP share: the initiating-message PDU
//! wrapper (choice, procedure code, criticality, open-type value) and the
//! protocol IE container (count, then id / criticality / value per IE).

use vstd::prelude::*;

use crate::proto::s1ap::per::{
    bit_len, bits_match, constrained_bits, length_bits, octet_bits, pad_bits, read_constrained_spec,
    read_length_spec, read_octet_string_spec, read_octets_spec, bytes_of_bits, PerReader,
    PerWriter, two_pow, lemma_two_pow_64, lemma_align_up, align_up, bits_of, bit_at,
    law_constrained_int_round_trip, law_into_bytes_carries_bits, law_length_round_trip,
    law_octet_string_round_trip, law_octets_round_trip,
};

verus! {

pub const PDU_CHOICE_INITIATING_MESSAGE: u64 = 0;
pub const PROTOCOL_IE_ID_MAX: u64 = 65_535;
pub const PROCEDURE_CODE_MAX: u64 = 255;

/// One protocol IE: id, criticality, encoded value.
pub type IeEntry = (u32, u8, Vec<u8>);

/// What an IE says.
pub type IeView = (u32, u8, Seq<u8>);

pub open spec fn ie_views(es: Seq<IeEntry>) -> Seq<IeView> {
    Seq::new(es.len(), |i: int| (es[i].0, es[i].1, es[i].2@))
}

/// The bytes a writer holding `b` packs into.
pub open spec fn pack(b: Seq<bool>) -> Seq<u8> {
    bytes_of_bits(b + pad_bits(b.len()))
}

/// Bits of one IE written at bit `cur`.
pub open spec fn entry_bits(cur: nat, e: IeView) -> Seq<bool> {
    let b1 = constrained_bits(cur, e.0 as u64, 0, 65535);
    let b2 = constrained_bits(cur + b1.len(), e.1 as u64, 0, 2);
    b1 + b2 + length_bits(cur + b1.len() + b2.len(), e.2.len() as u64) + octet_bits(e.2)
}

/// Bits of a run of IEs written from bit `cur`.
pub open spec fn entries_bits(cur: nat, es: Seq<IeView>) -> Seq<bool>
    decreases es.len(),
{
    if es.len() == 0 {
        Seq::empty()
    } else {
        let pre = entries_bits(cur, es.drop_last());
        pre + entry_bits(cur + pre.len(), es.last())
    }
}

/// Bits of an IE container written at bit `cur`.
pub open spec fn container_bits(cur: nat, es: Seq<IeView>) -> Seq<bool> {
    let l = length_bits(cur, es.len() as u64);
    l + entries_bits(cur + l.len(), es)
}

/// Bits of the initiating-message wrapper around `value`.
pub open spec fn wrapper_bits(proc: u32, crit: u8, value: Seq<u8>) -> Seq<bool> {
    let b0 = constrained_bits(0, 0, 0, 2);
    let b1 = constrained_bits(b0.len(), proc as u64, 0, 255);
    let b2 = constrained_bits(b0.len() + b1.len(), crit as u64, 0, 2);
    b0 + b1 + b2 + length_bits(b0.len() + b1.len() + b2.len(), value.len() as u64) + octet_bits(value)
}

/// Reading one IE at bit `pos`.
pub open spec fn read_entry_spec(data: Seq<u8>, pos: int) -> Option<(IeView, int)> {
    let (id, p1) = read_constrained_spec(data, pos, 0, 65535);
    let (crit, p2) = read_constrained_spec(data, p1, 0, 2);
    let (val, p3) = read_octet_string_spec(data, p2);
    match (id, crit, val) {
        (Some(i), Some(c), Some(v)) => Some(((i as u32, c as u8, v), p3)),
        _ => None,
    }
}

/// Reading `k` IEs at bit `pos`.
pub open spec fn read_entries_spec(data: Seq<u8>, pos: int, k: nat) -> Option<(Seq<IeView>, int)>
    decreases k,
{
    if k == 0 {
        Some((Seq::empty(), pos))
    } else {
        match read_entries_spec(data, pos, (k - 1) as nat) {
            Some((es, p)) => match read_entry_spec(data, p) {
                Some((e, p2)) => Some((es.push(e), p2)),
                None => None,
            },
            None => None,
        }
    }
}

/// Reading an IE container at bit `pos`.
pub open spec fn read_container_spec(data: Seq<u8>, pos: int) -> Option<(Seq<IeView>, int)> {
    let (n, p) = read_length_spec(data, pos);
    match n {
        Some(k) => read_entries_spec(data, p, k as nat),
        None => None,
    }
}

/// Reading the initiating-message wrapper: `(procedure code, criticality,
/// value)`.
pub open spec fn decode_wrapper_spec(buf: Seq<u8>) -> Option<(u32, u8, Seq<u8>)> {
    let (choice, p0) = read_constrained_spec(buf, 0, 0, 2);
    let (proc, p1) = read_constrained_spec(buf, p0, 0, 255);
    let (crit, p2) = read_constrained_spec(buf, p1, 0, 2);
    let (val, _) = read_octet_string_spec(buf, p2);
    match (choice, proc, crit, val) {
        (Some(_), Some(pc), Some(c), Some(v)) => Some((pc as u32, c as u8, v)),
        _ => None,
    }
}

// ── Lengths ──────────────────────────────────────────────────────────────────

/// Bytes one IE with a value of `len` bytes takes: id (2), criticality and
/// padding (1), length determinant (1 or 2), the value.
pub open spec fn ie_entry_bytes(len: nat) -> nat {
    4 + len + if len >= 128 {
        1nat
    } else {
        0nat
    }
}

pub open spec fn entries_bytes(es: Seq<IeView>) -> nat
    decreases es.len(),
{
    if es.len() == 0 {
        0
    } else {
        entries_bytes(es.drop_last()) + ie_entry_bytes(es.last().2.len())
    }
}

/// Bytes an octet string of `len` bytes takes: length determinant, then the
/// octets.
pub open spec fn octet_string_bytes(len: nat) -> nat {
    len + if len >= 128 {
        2nat
    } else {
        1nat
    }
}

pub proof fn lemma_bit_len_consts()
    ensures
        bit_len(2) == 2,
        bit_len(15) == 4,
        bit_len(255) == 8,
        bit_len(65535) == 16,
        bit_len(16_777_215) == 24,
        bit_len(4_294_967_295) == 32,
{
    reveal_with_fuel(bit_len, 34);
}

/// An IE written at an octet boundary takes `ie_entry_bytes` octets and
/// ends at an octet boundary.
pub proof fn lemma_entry_len(cur: nat, e: IeView)
    requires
        cur % 8 == 0,
        e.2.len() < 16384,
    ensures
        entry_bits(cur, e).len() == 8 * ie_entry_bytes(e.2.len()),
{
    lemma_bit_len_consts();
    let b1 = constrained_bits(cur, e.0 as u64, 0, 65535);
    lemma_align_up(cur as int);
    assert(b1.len() == 16);
    let b2 = constrained_bits(cur + 16, e.1 as u64, 0, 2);
    assert(b2.len() == 2);
    lemma_align_up(cur + 18int);
    assert(align_up(cur + 18int) == cur + 24) by (nonlinear_arith)
        requires
            cur % 8 == 0,
            align_up(cur + 18int) % 8 == 0,
            cur + 18 <= align_up(cur + 18int) < cur + 26,
    ;
    crate::proto::s1ap::per::lemma_octet_bits(e.2);
}

/// IEs written from an octet boundary take `entries_bytes` octets.
pub proof fn lemma_entries_len(cur: nat, es: Seq<IeView>)
    requires
        cur % 8 == 0,
        forall|i: int| 0 <= i < es.len() ==> (#[trigger] es[i]).2.len() < 16384,
    ensures
        entries_bits(cur, es).len() == 8 * entries_bytes(es),
    decreases es.len(),
{
    if es.len() > 0 {
        lemma_entries_len(cur, es.drop_last());
        let pre = entries_bits(cur, es.drop_last());
        assert((cur + pre.len()) % 8 == 0) by (nonlinear_arith)
            requires
                cur % 8 == 0,
                pre.len() == 8 * entries_bytes(es.drop_last()),
        ;
        assert(es.last() == es[es.len() - 1]);
        lemma_entry_len(cur + pre.len(), es.last());
    }
}

/// A container with fewer than 128 IEs written at bit 0 packs into
/// `1 + entries_bytes` octets.
pub proof fn lemma_container_len(es: Seq<IeView>)
    requires
        es.len() < 128,
        forall|i: int| 0 <= i < es.len() ==> (#[trigger] es[i]).2.len() < 16384,
    ensures
        container_bits(0, es).len() == 8 * (1 + entries_bytes(es)),
        pack(container_bits(0, es)).len() == 1 + entries_bytes(es),
{
    lemma_align_up(0);
    assert(length_bits(0, es.len() as u64).len() == 8);
    lemma_entries_len(8, es);
    let b = container_bits(0, es);
    lemma_align_up(b.len() as int);
    assert(b.len() % 8 == 0) by (nonlinear_arith)
        requires
            b.len() == 8 * (1 + entries_bytes(es)),
    ;
    assert(pad_bits(b.len()).len() == 0);
}

/// What a writer packs for one constrained whole number, octet string or
/// run of octets written from bit 0.
pub proof fn lemma_pack_len(b: Seq<bool>)
    requires
        b.len() % 8 == 0,
    ensures
        pack(b).len() * 8 == b.len(),
{
    lemma_align_up(b.len() as int);
    assert(pad_bits(b.len()).len() == 0);
}

// ── Writing ──────────────────────────────────────────────────────────────────

/// Write an IE container: the count, then each IE.
#[verifier::rlimit(50)]
pub fn write_ie_container(w: &mut PerWriter, entries: &[IeEntry])
    requires
        entries@.len() < 16384,
        forall|i: int|
            0 <= i < entries@.len() ==> (#[trigger] entries@[i]).0 <= 65535 && entries@[i].1 <= 2 && entries@[i].2@.len()
                < 16384,
    ensures
        final(w)@ == old(w)@ + container_bits(old(w)@.len(), ie_views(entries@)),
{
    let ghost start = w@;
    w.write_length_determinant(entries.len());
    let ghost c1 = w@.len();
    let n = entries.len();
    let mut i: usize = 0;
    while i < n
        invariant
            n == entries@.len(),
            i <= n,
            forall|j: int|
                0 <= j < entries@.len() ==> (#[trigger] entries@[j]).0 <= 65535 && entries@[j].1 <= 2 && entries@[j].2@.len()
                    < 16384,
            c1 == start.len() + length_bits(start.len(), n as u64).len(),
            w@ == start + length_bits(start.len(), n as u64) + entries_bits(c1, ie_views(entries@).take(i as int)),
        decreases n - i,
    {
        let e = &entries[i];
        let ghost before = w@;
        w.write_constrained_int(e.0 as u64, 0, PROTOCOL_IE_ID_MAX);
        w.write_constrained_int(e.1 as u64, 0, 2);
        w.write_octet_string(e.2.as_slice());
        proof {
            let vs = ie_views(entries@);
            assert(vs.take(i as int + 1).drop_last() =~= vs.take(i as int));
            assert(vs.take(i as int + 1).last() == (e.0, e.1, e.2@));
            assert(w@ =~= start + length_bits(start.len(), n as u64) + entries_bits(c1, vs.take(i as int + 1)));
        }
        i = i + 1;
    }
    proof {
        assert(ie_views(entries@).take(n as int) =~= ie_views(entries@));
        assert(w@ =~= start + container_bits(start.len(), ie_views(entries@)));
    }
}

/// Wrap an IE container value in the initiating-message PDU.
pub fn encode_pdu_wrapper(procedure_code: u32, criticality: u8, value_bytes: &[u8]) -> (out: Vec<u8>)
    requires
        procedure_code <= 255,
        criticality <= 2,
        value_bytes@.len() < 16384,
    ensures
        out@ == pack(wrapper_bits(procedure_code, criticality, value_bytes@)),
{
    let mut w = PerWriter::new();
    w.write_constrained_int(PDU_CHOICE_INITIATING_MESSAGE, 0, 2);
    w.write_constrained_int(procedure_code as u64, 0, PROCEDURE_CODE_MAX);
    w.write_constrained_int(criticality as u64, 0, 2);
    w.write_octet_string(value_bytes);
    proof {
        assert(w@ =~= wrapper_bits(procedure_code, criticality, value_bytes@));
    }
    w.into_bytes()
}

/// The bytes of a constrained whole number written alone.
pub fn per_constrained(value: u64, min: u64, max: u64) -> (out: Vec<u8>)
    requires
        min <= value <= max,
        max - min < u64::MAX,
    ensures
        out@ == pack(constrained_bits(0, value, min, max)),
{
    let mut w = PerWriter::new();
    w.write_constrained_int(value, min, max);
    proof {
        assert(w@ =~= constrained_bits(0, value, min, max));
    }
    w.into_bytes()
}

/// The bytes of an octet string written alone.
pub fn per_octet_string(data: &[u8]) -> (out: Vec<u8>)
    requires
        data@.len() < 16384,
    ensures
        out@ == pack(length_bits(0, data@.len() as u64) + octet_bits(data@)),
{
    let mut w = PerWriter::new();
    w.write_octet_string(data);
    proof {
        assert(w@ =~= length_bits(0, data@.len() as u64) + octet_bits(data@));
    }
    w.into_bytes()
}

/// The bytes of a run of octets written alone (no length).
pub fn per_octets(data: &[u8]) -> (out: Vec<u8>)
    ensures
        out@ == pack(octet_bits(data@)),
{
    let mut w = PerWriter::new();
    w.write_octets(data);
    proof {
        assert(w@ =~= octet_bits(data@));
    }
    w.into_bytes()
}

// ── Reading ──────────────────────────────────────────────────────────────────

pub proof fn lemma_read_length_bound(data: Seq<u8>, pos: int)
    ensures
        read_length_spec(data, pos).0 matches Some(n) ==> n < 16384,
{
    let a = align_up(pos);
    lemma_two_pow_64();
    crate::proto::s1ap::per::lemma_bits_value_bound(data, a + 1, 7);
    crate::proto::s1ap::per::lemma_bits_value_bound(data, a + 2, 14);
    crate::proto::s1ap::per::lemma_bits_value_bound(data, a + 1 + 1, 14);
}

pub proof fn lemma_read_octet_string_len(data: Seq<u8>, pos: int)
    requires
        pos >= 0,
    ensures
        read_octet_string_spec(data, pos).0 matches Some(v) ==> v.len() < 16384,
{
    lemma_read_length_bound(data, pos);
    let (len, p) = read_length_spec(data, pos);
    match len {
        Some(n) => {
            let a = align_up(p);
            lemma_align_up(pos);
            assert(p >= 0);
            lemma_align_up(p);
            if a + 8 * n <= 8 * data.len() {
                assert(a / 8 + n <= data.len()) by (nonlinear_arith)
                    requires
                        a % 8 == 0,
                        a >= 0,
                        a + 8 * n <= 8 * data.len(),
                ;
                assert(read_octets_spec(data, p, n as nat).0 == Some(data.subrange(a / 8, a / 8 + n)));
                assert(data.subrange(a / 8, a / 8 + n).len() == n);
            }
        },
        None => {},
    }
}

proof fn lemma_entries_none_stays(data: Seq<u8>, pos: int, k: nat, m: nat)
    requires
        k <= m,
        read_entries_spec(data, pos, k) is None,
    ensures
        read_entries_spec(data, pos, m) is None,
    decreases m,
{
    if k < m {
        lemma_entries_none_stays(data, pos, k, (m - 1) as nat);
    }
}

/// Read one IE: id, criticality, value.
fn read_ie_entry(r: &mut PerReader) -> (out: Option<IeEntry>)
    requires
        old(r).wf(),
    ensures
        final(r).wf(),
        final(r).spec_data() == old(r).spec_data(),
        match out {
            Some(e) => read_entry_spec(old(r).spec_data(), old(r).spec_pos()) == Some(
                ((e.0, e.1, e.2@), final(r).spec_pos()),
            ) && e.2@.len() < 16384,
            None => read_entry_spec(old(r).spec_data(), old(r).spec_pos()) is None,
        },
{
    proof {
        lemma_two_pow_64();
        lemma_bit_len_consts();
    }
    let id = match r.read_constrained_int(0, PROTOCOL_IE_ID_MAX) {
        Some(v) => v,
        None => {
            return None;
        },
    };
    let crit = match r.read_constrained_int(0, 2) {
        Some(v) => v,
        None => {
            return None;
        },
    };
    let ghost p2 = r.spec_pos();
    let val = match r.read_octet_string() {
        Some(v) => v,
        None => {
            return None;
        },
    };
    proof {
        lemma_read_octet_string_len(old(r).spec_data(), p2);
        crate::proto::s1ap::per::lemma_bits_value_bound(old(r).spec_data(), 0, 0);
    }
    Some((id as u32, crit as u8, val))
}

/// Read an IE container.
#[verifier::rlimit(40)]
pub fn read_ie_container(r: &mut PerReader) -> (out: Option<Vec<IeEntry>>)
    requires
        old(r).wf(),
    ensures
        final(r).wf(),
        final(r).spec_data() == old(r).spec_data(),
        match out {
            Some(es) => read_container_spec(old(r).spec_data(), old(r).spec_pos()) == Some(
                (ie_views(es@), final(r).spec_pos()),
            ) && forall|i: int| 0 <= i < es@.len() ==> (#[trigger] es@[i]).2@.len() < 16384,
            None => read_container_spec(old(r).spec_data(), old(r).spec_pos()) is None,
        },
{
    let ghost d = r.spec_data();
    let count = match r.read_length_determinant() {
        Some(n) => n,
        None => {
            return None;
        },
    };
    let ghost p0 = r.spec_pos();
    let mut out: Vec<IeEntry> = Vec::new();
    let mut k: usize = 0;
    proof {
        lemma_two_pow_64();
    }
    while k < count
        invariant
            r.wf(),
            r.spec_data() == d,
            d == old(r).spec_data(),
            read_length_spec(d, old(r).spec_pos()) == (Some(count as u64), p0),
            k <= count,
            read_entries_spec(d, p0, k as nat) == Some((ie_views(out@), r.spec_pos())),
            forall|i: int| 0 <= i < out@.len() ==> (#[trigger] out@[i]).2@.len() < 16384,
        decreases count - k,
    {
        let e = match read_ie_entry(r) {
            Some(e) => e,
            None => {
                proof {
                    lemma_entries_none_stays(d, p0, k as nat + 1, count as nat);
                }
                return None;
            },
        };
        let (id, crit, val) = e;
        let ghost prev = ie_views(out@);
        out.push((id, crit, val));
        proof {
            assert(ie_views(out@) =~= prev.push((id, crit, val@)));
        }
        k = k + 1;
    }
    Some(out)
}

/// Read the initiating-message wrapper: `(procedure code, criticality,
/// value)`.
pub fn decode_pdu_wrapper(buf: &[u8]) -> (out: Option<(u32, u8, Vec<u8>)>)
    requires
        8 * buf@.len() <= usize::MAX,
    ensures
        match out {
            Some((pc, c, v)) => decode_wrapper_spec(buf@) == Some((pc, c, v@)) && v@.len() < 16384,
            None => decode_wrapper_spec(buf@) is None,
        },
{
    let mut r = PerReader::new(buf);
    proof {
        lemma_two_pow_64();
        lemma_bit_len_consts();
    }
    let _choice = match r.read_constrained_int(0, 2) {
        Some(v) => v,
        None => {
            return None;
        },
    };
    let proc = match r.read_constrained_int(0, PROCEDURE_CODE_MAX) {
        Some(v) => v,
        None => {
            return None;
        },
    };
    let crit = match r.read_constrained_int(0, 2) {
        Some(v) => v,
        None => {
            return None;
        },
    };
    let val = match r.read_octet_string() {
        Some(v) => v,
        None => {
            return None;
        },
    };
    proof {
        let (_, p0) = read_constrained_spec(buf@, 0, 0, 2);
        let (_, p1) = read_constrained_spec(buf@, p0, 0, 255);
        let (_, p2) = read_constrained_spec(buf@, p1, 0, 2);
        lemma_read_octet_string_len(buf@, p2);
    }
    Some((proc as u32, crit as u8, val))
}

// ── Reading single IE values ─────────────────────────────────────────────────

/// An IE value holding a constrained whole number in `0..=max`.
#[verifier::opaque]
pub open spec fn ie_uint(val: Seq<u8>, max: u64) -> Option<u64> {
    read_constrained_spec(val, 0, 0, max).0
}

/// An IE value holding an octet string.
#[verifier::opaque]
pub open spec fn ie_octet_string(val: Seq<u8>) -> Option<Seq<u8>> {
    read_octet_string_spec(val, 0).0
}

/// An IE value holding `n` octets.
#[verifier::opaque]
pub open spec fn ie_octets(val: Seq<u8>, n: nat) -> Option<Seq<u8>> {
    read_octets_spec(val, 0, n).0
}

/// Read a constrained whole number in `0..=max` from an IE value.
pub fn read_ie_uint(val: &[u8], max: u64) -> (r: Option<u64>)
    requires
        val@.len() < 16384,
        max < u64::MAX,
    ensures
        r == ie_uint(val@, max),
{
    reveal(ie_uint);
    let mut rd = PerReader::new(val);
    rd.read_constrained_int(0, max)
}

/// Read an octet string from an IE value.
pub fn read_ie_octet_string(val: &[u8]) -> (r: Option<Vec<u8>>)
    requires
        val@.len() < 16384,
    ensures
        match r {
            Some(v) => ie_octet_string(val@) == Some(v@),
            None => ie_octet_string(val@) is None,
        },
{
    reveal(ie_octet_string);
    let mut rd = PerReader::new(val);
    rd.read_octet_string()
}

/// Read `n` octets from an IE value.
pub fn read_ie_octets(val: &[u8], n: usize) -> (r: Option<Vec<u8>>)
    requires
        val@.len() < 16384,
    ensures
        match r {
            Some(v) => ie_octets(val@, n as nat) == Some(v@) && v@.len() == n,
            None => ie_octets(val@, n as nat) is None,
        },
{
    reveal(ie_octets);
    let mut rd = PerReader::new(val);
    rd.read_octets(n)
}

// ── Round trips ──────────────────────────────────────────────────────────────

/// An IE the framing can carry: a 16-bit id, a criticality, a value that
/// fits one octet string.
pub open spec fn ie_framable(e: IeView) -> bool {
    e.0 <= 65535 && e.1 <= 2 && e.2.len() < 16384
}

proof fn lemma_bits_match_prefix(data: Seq<u8>, a: Seq<bool>, b: Seq<bool>)
    requires
        bits_match(data, a + b),
    ensures
        bits_match(data, a),
{
    assert forall|i: int| 0 <= i < a.len() implies bit_at(data, i) == #[trigger] a[i] by {
        assert((a + b)[i] == a[i]);
    }
}

/// One IE reads back as written.
proof fn lemma_entry_round_trip(data: Seq<u8>, pre: Seq<bool>, e: IeView)
    requires
        ie_framable(e),
        bits_match(data, pre + entry_bits(pre.len(), e)),
    ensures
        read_entry_spec(data, pre.len() as int) == Some((e, (pre + entry_bits(pre.len(), e)).len() as int)),
{
    let b1 = constrained_bits(pre.len(), e.0 as u64, 0, 65535);
    let p1 = pre + b1;
    let b2 = constrained_bits(p1.len(), e.1 as u64, 0, 2);
    let p2 = p1 + b2;
    let l = length_bits(p2.len(), e.2.len() as u64);
    let all = pre + entry_bits(pre.len(), e);
    assert(all =~= p2 + l + octet_bits(e.2));
    assert(p2 + l + octet_bits(e.2) =~= p1 + (b2 + l + octet_bits(e.2)));
    assert(p2 + l + octet_bits(e.2) =~= p2 + (l + octet_bits(e.2)));
    assert(p1 + (b2 + l + octet_bits(e.2)) =~= pre + (b1 + b2 + l + octet_bits(e.2)));
    lemma_bits_match_prefix(data, p2, l + octet_bits(e.2));
    lemma_bits_match_prefix(data, p1, b2 + l + octet_bits(e.2));
    law_constrained_int_round_trip(data, pre, e.0 as u64, 0, 65535);
    law_constrained_int_round_trip(data, p1, e.1 as u64, 0, 2);
    law_octet_string_round_trip(data, p2, e.2);
}

/// A run of IEs reads back as written.
proof fn lemma_entries_round_trip(data: Seq<u8>, pre: Seq<bool>, es: Seq<IeView>)
    requires
        forall|i: int| 0 <= i < es.len() ==> ie_framable(#[trigger] es[i]),
        bits_match(data, pre + entries_bits(pre.len(), es)),
    ensures
        read_entries_spec(data, pre.len() as int, es.len()) == Some((es, (pre + entries_bits(pre.len(), es)).len() as int)),
    decreases es.len(),
{
    if es.len() == 0 {
        assert(es =~= Seq::<IeView>::empty());
    } else {
        let d = es.drop_last();
        let pb = entries_bits(pre.len(), d);
        let eb = entry_bits(pre.len() + pb.len(), es.last());
        assert(pre + entries_bits(pre.len(), es) =~= (pre + pb) + eb);
        lemma_bits_match_prefix(data, pre + pb, eb);
        assert forall|i: int| 0 <= i < d.len() implies ie_framable(#[trigger] d[i]) by {
            assert(d[i] == es[i]);
        }
        lemma_entries_round_trip(data, pre, d);
        assert(ie_framable(es[es.len() - 1]));
        lemma_entry_round_trip(data, pre + pb, es.last());
        assert(d.push(es.last()) =~= es);
    }
}

/// An IE container packed by a writer reads back as the IEs written.
pub proof fn law_container_round_trip(es: Seq<IeView>)
    requires
        es.len() < 16384,
        forall|i: int| 0 <= i < es.len() ==> ie_framable(#[trigger] es[i]),
    ensures
        read_container_spec(pack(container_bits(0, es)), 0) == Some((es, container_bits(0, es).len() as int)),
{
    let cb = container_bits(0, es);
    let data = pack(cb);
    law_into_bytes_carries_bits(cb);
    let l = length_bits(0, es.len() as u64);
    let empty = Seq::<bool>::empty();
    assert(empty + l =~= l);
    lemma_bits_match_prefix(data, l, entries_bits(l.len(), es));
    law_length_round_trip(data, empty, es.len() as u64);
    lemma_entries_round_trip(data, l, es);
}

/// The wrapper's bits, field by field, and the prefixes the reader meets.
proof fn lemma_wrapper_layout(data: Seq<u8>, proc: u32, crit: u8, value: Seq<u8>)
    requires
        bits_match(data, wrapper_bits(proc, crit, value)),
    ensures
        ({
            let b0 = constrained_bits(0, 0, 0, 2);
            let p1 = b0 + constrained_bits(b0.len(), proc as u64, 0, 255);
            let p2 = p1 + constrained_bits(p1.len(), crit as u64, 0, 2);
            &&& bits_match(data, Seq::<bool>::empty() + b0)
            &&& bits_match(data, b0 + constrained_bits(b0.len(), proc as u64, 0, 255))
            &&& bits_match(data, p1 + constrained_bits(p1.len(), crit as u64, 0, 2))
            &&& bits_match(data, p2 + length_bits(p2.len(), value.len() as u64) + octet_bits(value))
        }),
{
    let wb = wrapper_bits(proc, crit, value);
    let b0 = constrained_bits(0, 0, 0, 2);
    let b1 = constrained_bits(b0.len(), proc as u64, 0, 255);
    let p1 = b0 + b1;
    let b2 = constrained_bits(p1.len(), crit as u64, 0, 2);
    let p2 = p1 + b2;
    let rest = length_bits(p2.len(), value.len() as u64) + octet_bits(value);
    assert(wb =~= p2 + rest);
    assert(p2 + rest =~= p2 + length_bits(p2.len(), value.len() as u64) + octet_bits(value));
    assert(p2 + rest =~= p1 + (b2 + rest));
    assert(p2 + rest =~= b0 + (b1 + b2 + rest));
    assert(Seq::<bool>::empty() + b0 =~= b0);
    lemma_bits_match_prefix(data, b0, b1 + b2 + rest);
    lemma_bits_match_prefix(data, p1, b2 + rest);
    lemma_bits_match_prefix(data, p2, rest);
    assert(bits_match(data, Seq::<bool>::empty() + b0));
    assert(bits_match(data, b0 + constrained_bits(b0.len(), proc as u64, 0, 255)));
    assert(bits_match(data, p1 + constrained_bits(p1.len(), crit as u64, 0, 2)));
    assert(bits_match(data, p2 + length_bits(p2.len(), value.len() as u64) + octet_bits(value)));
}

/// Bytes that carry the wrapper's bits read back as the wrapper's fields.
proof fn lemma_wrapper_reads(data: Seq<u8>, proc: u32, crit: u8, value: Seq<u8>)
    requires
        proc <= 255,
        crit <= 2,
        value.len() < 16384,
        bits_match(data, wrapper_bits(proc, crit, value)),
    ensures
        decode_wrapper_spec(data) == Some((proc, crit, value)),
{
    lemma_wrapper_layout(data, proc, crit, value);
    let empty = Seq::<bool>::empty();
    let b0 = constrained_bits(0, 0, 0, 2);
    let p1 = b0 + constrained_bits(b0.len(), proc as u64, 0, 255);
    let p2 = p1 + constrained_bits(p1.len(), crit as u64, 0, 2);
    law_constrained_int_round_trip(data, empty, 0, 0, 2);
    assert(read_constrained_spec(data, 0, 0, 2) == (Some(0u64), b0.len() as int));
    law_constrained_int_round_trip(data, b0, proc as u64, 0, 255);
    assert(read_constrained_spec(data, b0.len() as int, 0, 255) == (Some(proc as u64), p1.len() as int));
    law_constrained_int_round_trip(data, p1, crit as u64, 0, 2);
    assert(read_constrained_spec(data, p1.len() as int, 0, 2) == (Some(crit as u64), p2.len() as int));
    law_octet_string_round_trip(data, p2, value);
    assert(read_octet_string_spec(data, p2.len() as int).0 == Some(value));
}

/// The initiating-message wrapper reads back as written.
pub proof fn law_wrapper_round_trip(proc: u32, crit: u8, value: Seq<u8>)
    requires
        proc <= 255,
        crit <= 2,
        value.len() < 16384,
    ensures
        decode_wrapper_spec(pack(wrapper_bits(proc, crit, value))) == Some((proc, crit, value)),
{
    law_into_bytes_carries_bits(wrapper_bits(proc, crit, value));
    lemma_wrapper_reads(pack(wrapper_bits(proc, crit, value)), proc, crit, value);
}

/// An IE value holding a constrained whole number reads back as written.
pub proof fn law_ie_uint_round_trip(v: u64, max: u64)
    requires
        v <= max < u64::MAX,
    ensures
        ie_uint(pack(constrained_bits(0, v, 0, max)), max) == Some(v),
{
    reveal(ie_uint);
    let b = constrained_bits(0, v, 0, max);
    law_into_bytes_carries_bits(b);
    let empty = Seq::<bool>::empty();
    assert(empty + b =~= b);
    law_constrained_int_round_trip(pack(b), empty, v, 0, max);
}

/// An IE value holding an octet string reads back as written.
pub proof fn law_ie_octet_string_round_trip(d: Seq<u8>)
    requires
        d.len() < 16384,
    ensures
        ie_octet_string(pack(length_bits(0, d.len() as u64) + octet_bits(d))) == Some(d),
{
    reveal(ie_octet_string);
    let b = length_bits(0, d.len() as u64) + octet_bits(d);
    law_into_bytes_carries_bits(b);
    let empty = Seq::<bool>::empty();
    assert(empty + length_bits(0, d.len() as u64) + octet_bits(d) =~= b);
    law_octet_string_round_trip(pack(b), empty, d);
}

/// An IE value holding fixed-size octets reads back as written.
pub proof fn law_ie_octets_round_trip(d: Seq<u8>)
    ensures
        ie_octets(pack(octet_bits(d)), d.len()) == Some(d),
{
    reveal(ie_octets);
    let b = octet_bits(d);
    law_into_bytes_carries_bits(b);
    let empty = Seq::<bool>::empty();
    assert(empty + b =~= b);
    law_octets_round_trip(pack(b), empty, d);
}

} // verus!
