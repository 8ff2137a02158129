//! CRC-32 (IEEE 802.3, reflected polynomial `0xEDB88320`, initial value and
//! final XOR `0xFFFFFFFF`), the checksum of every frame, and its detection of
//! any change confined to one byte.

use vstd::prelude::*;

verus! {

/// The reflected CRC-32 polynomial.
pub const CRC32_POLY: u32 = 0xEDB8_8320;

/// One bit step of the CRC register.
pub open spec fn crc_shift(c: u32) -> u32 {
    if c & 1 == 1 {
        (c >> 1u32) ^ CRC32_POLY
    } else {
        c >> 1u32
    }
}

/// Eight bit steps of the CRC register.
pub open spec fn crc_shift8(c: u32) -> u32 {
    crc_shift(crc_shift(crc_shift(crc_shift(crc_shift(crc_shift(crc_shift(crc_shift(c))))))))
}

/// The register after `data`, starting from `0xFFFFFFFF`: each byte is XORed
/// into the low bits, then eight bit steps follow.
pub open spec fn crc_register(data: Seq<u8>) -> u32
    decreases data.len(),
{
    if data.len() == 0 {
        0xFFFF_FFFFu32
    } else {
        crc_shift8(crc_register(data.drop_last()) ^ (data.last() as u32))
    }
}

/// The CRC-32 (IEEE) checksum of a byte string.
#[verifier::opaque]
pub open spec fn crc32_of(data: Seq<u8>) -> u32 {
    crc_register(data) ^ 0xFFFF_FFFFu32
}

proof fn lemma_shift_xor(a: u32, b: u32)
    ensures
        crc_shift(a) ^ crc_shift(b) == crc_shift(a ^ b),
        crc_shift(a ^ b) == 0 ==> a == b,
{
    assert(((if a & 1 == 1 { (a >> 1u32) ^ 0xEDB8_8320u32 } else { a >> 1u32 }) ^ (if b & 1 == 1 {
        (b >> 1u32) ^ 0xEDB8_8320u32
    } else {
        b >> 1u32
    })) == (if (a ^ b) & 1 == 1 {
        ((a ^ b) >> 1u32) ^ 0xEDB8_8320u32
    } else {
        (a ^ b) >> 1u32
    })) by (bit_vector);
    assert((if (a ^ b) & 1 == 1 {
        ((a ^ b) >> 1u32) ^ 0xEDB8_8320u32
    } else {
        (a ^ b) >> 1u32
    }) == 0 ==> a == b) by (bit_vector);
}

/// Eight bit steps respect XOR, and they map only equal registers to equal
/// registers.
proof fn lemma_shift8_xor(a: u32, b: u32)
    ensures
        crc_shift8(a) ^ crc_shift8(b) == crc_shift8(a ^ b),
        crc_shift8(a) == crc_shift8(b) ==> a == b,
{
    lemma_shift_xor(a, b);
    let (a1, b1) = (crc_shift(a), crc_shift(b));
    lemma_shift_xor(a1, b1);
    let (a2, b2) = (crc_shift(a1), crc_shift(b1));
    lemma_shift_xor(a2, b2);
    let (a3, b3) = (crc_shift(a2), crc_shift(b2));
    lemma_shift_xor(a3, b3);
    let (a4, b4) = (crc_shift(a3), crc_shift(b3));
    lemma_shift_xor(a4, b4);
    let (a5, b5) = (crc_shift(a4), crc_shift(b4));
    lemma_shift_xor(a5, b5);
    let (a6, b6) = (crc_shift(a5), crc_shift(b5));
    lemma_shift_xor(a6, b6);
    let (a7, b7) = (crc_shift(a6), crc_shift(b6));
    lemma_shift_xor(a7, b7);
    let (a8, b8) = (crc_shift(a7), crc_shift(b7));
    assert(crc_shift8(a) == a8 && crc_shift8(b) == b8);
    assert forall|p: u32, q: u32| p ^ q == 0 ==> p == q by {
        assert(p ^ q == 0 ==> p == q) by (bit_vector);
    }
    assert forall|p: u32, q: u32| p == q ==> p ^ q == 0 by {
        assert(p == q ==> p ^ q == 0) by (bit_vector);
    }
}

proof fn lemma_xor_distinct(a: u32, x: u8, y: u8)
    requires
        x != y,
    ensures
        a ^ (x as u32) != a ^ (y as u32),
{
    assert(x != y ==> a ^ (x as u32) != a ^ (y as u32)) by (bit_vector);
}

/// Two byte strings of one length that differ in exactly one byte leave the
/// register in different states after every prefix that covers that byte.
proof fn lemma_register_differs(d1: Seq<u8>, d2: Seq<u8>, i: int, n: int)
    requires
        d1.len() == d2.len(),
        0 <= i < n <= d1.len(),
        d1[i] != d2[i],
        forall|j: int| 0 <= j < d1.len() && j != i ==> d1[j] == d2[j],
    ensures
        crc_register(d1.subrange(0, n)) != crc_register(d2.subrange(0, n)),
    decreases n,
{
    let p1 = d1.subrange(0, n);
    let p2 = d2.subrange(0, n);
    assert(p1.drop_last() =~= d1.subrange(0, n - 1));
    assert(p2.drop_last() =~= d2.subrange(0, n - 1));
    let r1 = crc_register(d1.subrange(0, n - 1));
    let r2 = crc_register(d2.subrange(0, n - 1));
    if n - 1 == i {
        let q1 = d1.subrange(0, n - 1);
        let q2 = d2.subrange(0, n - 1);
        assert(q1 =~= q2) by {
            assert forall|j: int| 0 <= j < q1.len() implies #[trigger] q1[j] == q2[j] by {
                assert(j != i);
            }
        }
        lemma_xor_distinct(r1, d1[i], d2[i]);
        lemma_shift8_xor(r1 ^ (d1[i] as u32), r2 ^ (d2[i] as u32));
    } else {
        lemma_register_differs(d1, d2, i, n - 1);
        assert(d1[n - 1] == d2[n - 1]);
        let b = d1[n - 1] as u32;
        assert(r1 ^ b != r2 ^ b) by {
            assert(r1 != r2 ==> r1 ^ b != r2 ^ b) by (bit_vector);
        }
        lemma_shift8_xor(r1 ^ b, r2 ^ b);
    }
}

/// CRC-32 detects every change confined to one byte: changing one byte of a
/// byte string changes its checksum.
pub proof fn lemma_crc32_detects_byte_change(data: Seq<u8>, i: int, x: u8)
    requires
        0 <= i < data.len(),
        x != data[i],
    ensures
        crc32_of(data.update(i, x)) != crc32_of(data),
{
    reveal(crc32_of);
    let d2 = data.update(i, x);
    lemma_register_differs(d2, data, i, data.len() as int);
    assert(d2.subrange(0, data.len() as int) =~= d2);
    assert(data.subrange(0, data.len() as int) =~= data);
    let r1 = crc_register(d2);
    let r2 = crc_register(data);
    assert(r1 != r2 ==> r1 ^ 0xFFFF_FFFFu32 != r2 ^ 0xFFFF_FFFFu32) by (bit_vector);
}

} // verus!
