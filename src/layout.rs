//! Little-endian encoding of the integers that cross the device boundary, and
//! in-place access to fields of the shared memory window.
use vstd::prelude::*;

verus! {

/// The four little-endian bytes of `v`.
pub open spec fn u32_le_bytes(v: u32) -> Seq<u8> {
    seq![(v % 256) as u8, ((v / 256) % 256) as u8, ((v / 65536) % 256) as u8, (v / 16777216) as u8]
}

/// The eight little-endian bytes of `v`.
pub open spec fn u64_le_bytes(v: u64) -> Seq<u8> {
    u32_le_bytes((v % 0x1_0000_0000) as u32) + u32_le_bytes((v / 0x1_0000_0000) as u32)
}

/// The little-endian `u32` stored at `s[off..off + 4]`.
pub open spec fn u32_at(s: Seq<u8>, off: int) -> u32 {
    (s[off] + 256 * s[off + 1] + 65536 * s[off + 2] + 16777216 * s[off + 3]) as u32
}

/// The little-endian `u64` stored at `s[off..off + 8]`.
pub open spec fn u64_at(s: Seq<u8>, off: int) -> u64 {
    (u32_at(s, off) + 0x1_0000_0000 * u32_at(s, off + 4)) as u64
}

/// `s` with the bytes from `off` on replaced by `b`.
pub open spec fn put(s: Seq<u8>, off: int, b: Seq<u8>) -> Seq<u8> {
    Seq::new(s.len(), |i: int| if off <= i < off + b.len() { b[i - off] } else { s[i] })
}

/// Reading back the bytes of a `u32` gives the `u32`.
pub proof fn lemma_u32_round_trip(v: u32, s: Seq<u8>, off: int)
    requires
        0 <= off,
        off + 4 <= s.len(),
        s.subrange(off, off + 4) == u32_le_bytes(v),
    ensures
        u32_at(s, off) == v,
{
    assert(s[off] == u32_le_bytes(v)[0]);
    assert(s[off + 1] == u32_le_bytes(v)[1]);
    assert(s[off + 2] == u32_le_bytes(v)[2]);
    assert(s[off + 3] == u32_le_bytes(v)[3]);
    assert(v == (v % 256) + 256 * ((v / 256) % 256) + 65536 * ((v / 65536) % 256) + 16777216 * (v
        / 16777216)) by (bit_vector);
}

/// Appends the little-endian bytes of `v`.
pub fn push_u32(out: &mut Vec<u8>, v: u32)
    ensures
        final(out)@ == old(out)@ + u32_le_bytes(v),
{
    out.push((v % 256) as u8);
    out.push(((v / 256) % 256) as u8);
    out.push(((v / 65536) % 256) as u8);
    out.push((v / 16777216) as u8);
    assert(final(out)@ =~= old(out)@ + u32_le_bytes(v));
}

/// Appends the little-endian bytes of `v`.
pub fn push_u64(out: &mut Vec<u8>, v: u64)
    ensures
        final(out)@ == old(out)@ + u64_le_bytes(v),
{
    push_u32(out, (v % 0x1_0000_0000) as u32);
    push_u32(out, (v / 0x1_0000_0000) as u32);
    assert(final(out)@ =~= old(out)@ + u64_le_bytes(v));
}

/// Reads the little-endian `u32` at `s[off..off + 4]`.
pub fn read_u32(s: &[u8], off: usize) -> (r: u32)
    requires
        off + 4 <= s@.len(),
    ensures
        r == u32_at(s@, off as int),
{
    s[off] as u32 + 256 * (s[off + 1] as u32) + 65536 * (s[off + 2] as u32) + 16777216 * (s[off
        + 3] as u32)
}

/// Reads the little-endian `u64` at `s[off..off + 8]`.
pub fn read_u64(s: &[u8], off: usize) -> (r: u64)
    requires
        off + 8 <= s@.len(),
    ensures
        r == u64_at(s@, off as int),
{
    let len = s.len();
    assert(off + 8 <= len);
    let lo = read_u32(s, off);
    let hi = read_u32(s, off + 4);
    lo as u64 + 0x1_0000_0000 * (hi as u64)
}

/// Stores the little-endian bytes of `v` at `s[off..off + 4]`.
pub fn write_u32(s: &mut [u8], off: usize, v: u32)
    requires
        off + 4 <= old(s)@.len(),
    ensures
        final(s)@ == put(old(s)@, off as int, u32_le_bytes(v)),
        u32_at(final(s)@, off as int) == v,
{
    s[off] = (v % 256) as u8;
    s[off + 1] = ((v / 256) % 256) as u8;
    s[off + 2] = ((v / 65536) % 256) as u8;
    s[off + 3] = (v / 16777216) as u8;
    assert(s@ =~= put(old(s)@, off as int, u32_le_bytes(v)));
    assert(s@.subrange(off as int, off + 4) =~= u32_le_bytes(v));
    proof {
        lemma_u32_round_trip(v, s@, off as int);
    }
}

/// Stores the byte `v` at `s[off]`.
pub fn write_u8(s: &mut [u8], off: usize, v: u8)
    requires
        off < old(s)@.len(),
    ensures
        final(s)@ == put(old(s)@, off as int, seq![v]),
{
    s[off] = v;
    assert(s@ =~= put(old(s)@, off as int, seq![v]));
}

/// Stores the first `n` bytes of `src` at `s[off..off + n]`.
pub fn write_bytes(s: &mut [u8], off: usize, src: &[u8], n: usize)
    requires
        n <= src@.len(),
        off + n <= old(s)@.len(),
    ensures
        final(s)@ == put(old(s)@, off as int, src@.take(n as int)),
{
    let ghost s0 = s@;
    let total = s.len();
    let mut i: usize = 0;
    while i < n
        invariant
            n <= src@.len(),
            off + n <= s0.len(),
            total == s0.len(),
            i <= n,
            s@.len() == s0.len(),
            forall|j: int| 0 <= j < s0.len() ==> #[trigger] s@[j] == (if off <= j < off + i {
                src@[j - off]
            } else {
                s0[j]
            }),
        decreases n - i,
    {
        s[off + i] = src[i];
        i = i + 1;
    }
    assert(s@ =~= put(s0, off as int, src@.take(n as int)));
}

} // verus!
