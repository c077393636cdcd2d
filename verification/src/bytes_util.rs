//! Small byte-buffer helpers shared by the codecs.

use vstd::prelude::*;

verus! {

/// Append every byte of `data` to `buf`.
pub fn append_bytes(buf: &mut Vec<u8>, data: &[u8])
    ensures
        final(buf)@ == old(buf)@ + data@,
{
    let n = data.len();
    let mut i: usize = 0;
    while i < n
        invariant
            n == data@.len(),
            i <= n,
            buf@ == old(buf)@ + data@.subrange(0, i as int),
        decreases n - i,
    {
        buf.push(data[i]);
        proof {
            assert(data@.subrange(0, i as int + 1) =~= data@.subrange(0, i as int).push(data@[i as int]));
        }
        i = i + 1;
    }
    proof {
        assert(data@.subrange(0, n as int) =~= data@);
    }
}

/// Copy a slice into a fresh vector.
pub fn to_vec(data: &[u8]) -> (out: Vec<u8>)
    ensures
        out@ == data@,
{
    let mut out: Vec<u8> = Vec::new();
    append_bytes(&mut out, data);
    proof {
        assert(Seq::<u8>::empty() + data@ =~= data@);
    }
    out
}

/// Byte-wise equality of two slices.
pub fn bytes_eq(a: &[u8], b: &[u8]) -> (r: bool)
    ensures
        r == (a@ == b@),
{
    if a.len() != b.len() {
        return false;
    }
    let n = a.len();
    let mut i: usize = 0;
    while i < n
        invariant
            n == a@.len(),
            n == b@.len(),
            i <= n,
            forall|j: int| 0 <= j < i ==> a@[j] == b@[j],
        decreases n - i,
    {
        if a[i] != b[i] {
            return false;
        }
        i = i + 1;
    }
    proof {
        assert(a@ =~= b@);
    }
    true
}

/// Copy a slice of exactly `N` bytes into an array.
pub fn to_array<const N: usize>(data: &[u8]) -> (out: [u8; N])
    requires
        data@.len() == N,
    ensures
        out@ == data@,
{
    let mut out = [0u8; N];
    let mut i: usize = 0;
    while i < N
        invariant
            data@.len() == N,
            out@.len() == N,
            i <= N,
            forall|j: int| 0 <= j < i ==> out@[j] == data@[j],
        decreases N - i,
    {
        out[i] = data[i];
        i = i + 1;
    }
    proof {
        assert(out@ =~= data@);
    }
    out
}

/// The bytes of `data` from `start` on.
pub fn tail(data: &[u8], start: usize) -> (out: &[u8])
    requires
        start <= data@.len(),
    ensures
        out@ == data@.skip(start as int),
{
    let out = vstd::slice::slice_subrange(data, start, data.len());
    proof {
        assert(out@ =~= data@.skip(start as int));
    }
    out
}

} // verus!
