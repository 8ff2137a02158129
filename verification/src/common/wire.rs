//! Little-endian integer encoding used by every wire format of the protocol.

use vstd::prelude::*;

verus! {

/// The two little-endian bytes of a `u16`.
pub open spec fn le16(x: u16) -> Seq<u8> {
    seq![(x & 0xff) as u8, ((x >> 8u16) & 0xff) as u8]
}

/// The four little-endian bytes of a `u32`.
pub open spec fn le32(x: u32) -> Seq<u8> {
    seq![
        (x & 0xff) as u8,
        ((x >> 8u32) & 0xff) as u8,
        ((x >> 16u32) & 0xff) as u8,
        ((x >> 24u32) & 0xff) as u8,
    ]
}

/// The eight little-endian bytes of a `u64`.
pub open spec fn le64(x: u64) -> Seq<u8> {
    seq![
        (x & 0xff) as u8,
        ((x >> 8u64) & 0xff) as u8,
        ((x >> 16u64) & 0xff) as u8,
        ((x >> 24u64) & 0xff) as u8,
        ((x >> 32u64) & 0xff) as u8,
        ((x >> 40u64) & 0xff) as u8,
        ((x >> 48u64) & 0xff) as u8,
        ((x >> 56u64) & 0xff) as u8,
    ]
}

/// The `u16` stored little-endian at `s[at..at + 2]`.
pub open spec fn get16(s: Seq<u8>, at: int) -> u16 {
    (s[at] as u16) | ((s[at + 1] as u16) << 8u16)
}

/// The `u32` stored little-endian at `s[at..at + 4]`.
pub open spec fn get32(s: Seq<u8>, at: int) -> u32 {
    (s[at] as u32) | ((s[at + 1] as u32) << 8u32) | ((s[at + 2] as u32) << 16u32) | ((s[at
        + 3] as u32) << 24u32)
}

/// The `u64` stored little-endian at `s[at..at + 8]`.
pub open spec fn get64(s: Seq<u8>, at: int) -> u64 {
    (s[at] as u64) | ((s[at + 1] as u64) << 8u64) | ((s[at + 2] as u64) << 16u64) | ((s[at
        + 3] as u64) << 24u64) | ((s[at + 4] as u64) << 32u64) | ((s[at + 5] as u64) << 40u64)
        | ((s[at + 6] as u64) << 48u64) | ((s[at + 7] as u64) << 56u64)
}

proof fn lemma_u16_bytes(x: u16)
    ensures
        ((x & 0xff) as u8 as u16) | ((((x >> 8u16) & 0xff) as u8 as u16) << 8u16) == x,
{
    assert(((x & 0xff) as u8 as u16) | ((((x >> 8u16) & 0xff) as u8 as u16) << 8u16) == x)
        by (bit_vector);
}

proof fn lemma_u32_bytes(x: u32)
    ensures
        ((x & 0xff) as u8 as u32) | ((((x >> 8u32) & 0xff) as u8 as u32) << 8u32) | ((((x
            >> 16u32) & 0xff) as u8 as u32) << 16u32) | ((((x >> 24u32) & 0xff) as u8 as u32)
            << 24u32) == x,
{
    assert(((x & 0xff) as u8 as u32) | ((((x >> 8u32) & 0xff) as u8 as u32) << 8u32) | ((((x
        >> 16u32) & 0xff) as u8 as u32) << 16u32) | ((((x >> 24u32) & 0xff) as u8 as u32)
        << 24u32) == x) by (bit_vector);
}

proof fn lemma_u64_bytes(x: u64)
    ensures
        ((x & 0xff) as u8 as u64) | ((((x >> 8u64) & 0xff) as u8 as u64) << 8u64) | ((((x
            >> 16u64) & 0xff) as u8 as u64) << 16u64) | ((((x >> 24u64) & 0xff) as u8 as u64)
            << 24u64) | ((((x >> 32u64) & 0xff) as u8 as u64) << 32u64) | ((((x >> 40u64)
            & 0xff) as u8 as u64) << 40u64) | ((((x >> 48u64) & 0xff) as u8 as u64) << 48u64)
            | ((((x >> 56u64) & 0xff) as u8 as u64) << 56u64) == x,
{
    assert(((x & 0xff) as u8 as u64) | ((((x >> 8u64) & 0xff) as u8 as u64) << 8u64) | ((((x
        >> 16u64) & 0xff) as u8 as u64) << 16u64) | ((((x >> 24u64) & 0xff) as u8 as u64)
        << 24u64) | ((((x >> 32u64) & 0xff) as u8 as u64) << 32u64) | ((((x >> 40u64) & 0xff)
        as u8 as u64) << 40u64) | ((((x >> 48u64) & 0xff) as u8 as u64) << 48u64) | ((((x
        >> 56u64) & 0xff) as u8 as u64) << 56u64) == x) by (bit_vector);
}

/// Reading back a little-endian `u16` gives the value that was written.
pub proof fn lemma_get16_le16(s: Seq<u8>, at: int, x: u16)
    requires
        0 <= at,
        at + 2 <= s.len(),
        s.subrange(at, at + 2) == le16(x),
    ensures
        get16(s, at) == x,
{
    assert(s[at] == s.subrange(at, at + 2)[0]);
    assert(s[at + 1] == s.subrange(at, at + 2)[1]);
    lemma_u16_bytes(x);
}

/// Reading back a little-endian `u32` gives the value that was written.
pub proof fn lemma_get32_le32(s: Seq<u8>, at: int, x: u32)
    requires
        0 <= at,
        at + 4 <= s.len(),
        s.subrange(at, at + 4) == le32(x),
    ensures
        get32(s, at) == x,
{
    let t = s.subrange(at, at + 4);
    assert(s[at] == t[0] && s[at + 1] == t[1] && s[at + 2] == t[2] && s[at + 3] == t[3]);
    lemma_u32_bytes(x);
}

/// Reading back a little-endian `u64` gives the value that was written.
pub proof fn lemma_get64_le64(s: Seq<u8>, at: int, x: u64)
    requires
        0 <= at,
        at + 8 <= s.len(),
        s.subrange(at, at + 8) == le64(x),
    ensures
        get64(s, at) == x,
{
    let t = s.subrange(at, at + 8);
    assert(s[at] == t[0] && s[at + 1] == t[1] && s[at + 2] == t[2] && s[at + 3] == t[3]);
    assert(s[at + 4] == t[4] && s[at + 5] == t[5] && s[at + 6] == t[6] && s[at + 7] == t[7]);
    lemma_u64_bytes(x);
}

/// Appends the little-endian bytes of a `u16`.
pub fn put_u16_le(buf: &mut Vec<u8>, x: u16)
    ensures
        final(buf)@ == old(buf)@ + le16(x),
{
    buf.push((x & 0xff) as u8);
    buf.push(((x >> 8u16) & 0xff) as u8);
    proof {
        assert(final(buf)@ =~= old(buf)@ + le16(x));
    }
}

/// Appends the little-endian bytes of a `u32`.
pub fn put_u32_le(buf: &mut Vec<u8>, x: u32)
    ensures
        final(buf)@ == old(buf)@ + le32(x),
{
    buf.push((x & 0xff) as u8);
    buf.push(((x >> 8u32) & 0xff) as u8);
    buf.push(((x >> 16u32) & 0xff) as u8);
    buf.push(((x >> 24u32) & 0xff) as u8);
    proof {
        assert(final(buf)@ =~= old(buf)@ + le32(x));
    }
}

/// Appends the little-endian bytes of a `u64`.
pub fn put_u64_le(buf: &mut Vec<u8>, x: u64)
    ensures
        final(buf)@ == old(buf)@ + le64(x),
{
    buf.push((x & 0xff) as u8);
    buf.push(((x >> 8u64) & 0xff) as u8);
    buf.push(((x >> 16u64) & 0xff) as u8);
    buf.push(((x >> 24u64) & 0xff) as u8);
    buf.push(((x >> 32u64) & 0xff) as u8);
    buf.push(((x >> 40u64) & 0xff) as u8);
    buf.push(((x >> 48u64) & 0xff) as u8);
    buf.push(((x >> 56u64) & 0xff) as u8);
    proof {
        assert(final(buf)@ =~= old(buf)@ + le64(x));
    }
}

/// Appends a slice of bytes.
pub fn put_slice(buf: &mut Vec<u8>, s: &[u8])
    ensures
        final(buf)@ == old(buf)@ + s@,
{
    let mut i: usize = 0;
    while i < s.len()
        invariant
            i <= s@.len(),
            buf@ == old(buf)@ + s@.subrange(0, i as int),
        decreases s@.len() - i,
    {
        buf.push(s[i]);
        i = i + 1;
        proof {
            assert(buf@ =~= old(buf)@ + s@.subrange(0, i as int));
        }
    }
    proof {
        assert(s@.subrange(0, s@.len() as int) =~= s@);
    }
}

/// Reads a little-endian `u16` at `at`.
pub fn get_u16_le(s: &[u8], at: usize) -> (x: u16)
    requires
        at + 2 <= s@.len(),
    ensures
        x == get16(s@, at as int),
{
    (s[at] as u16) | ((s[at + 1] as u16) << 8u16)
}

/// Reads a little-endian `u32` at `at`.
pub fn get_u32_le(s: &[u8], at: usize) -> (x: u32)
    requires
        at + 4 <= s@.len(),
    ensures
        x == get32(s@, at as int),
{
    (s[at] as u32) | ((s[at + 1] as u32) << 8u32) | ((s[at + 2] as u32) << 16u32) | ((s[at
        + 3] as u32) << 24u32)
}

/// Reads a little-endian `u64` at `at`.
pub fn get_u64_le(s: &[u8], at: usize) -> (x: u64)
    requires
        at + 8 <= s@.len(),
    ensures
        x == get64(s@, at as int),
{
    (s[at] as u64) | ((s[at + 1] as u64) << 8u64) | ((s[at + 2] as u64) << 16u64) | ((s[at
        + 3] as u64) << 24u64) | ((s[at + 4] as u64) << 32u64) | ((s[at + 5] as u64) << 40u64)
        | ((s[at + 6] as u64) << 48u64) | ((s[at + 7] as u64) << 56u64)
}

/// Copies `s[from..to]` into a new vector.
pub fn copy_range(s: &[u8], from: usize, to: usize) -> (v: Vec<u8>)
    requires
        from <= to <= s@.len(),
    ensures
        v@ == s@.subrange(from as int, to as int),
{
    let mut v: Vec<u8> = Vec::with_capacity(to - from);
    let mut i: usize = from;
    while i < to
        invariant
            from <= i <= to <= s@.len(),
            v@ == s@.subrange(from as int, i as int),
        decreases to - i,
    {
        v.push(s[i]);
        i = i + 1;
        proof {
            assert(v@ =~= s@.subrange(from as int, i as int));
        }
    }
    v
}

} // verus!
