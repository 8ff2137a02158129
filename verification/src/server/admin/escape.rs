//! Byte- and character-level helpers of the admin console: constant-time
//! comparison, Prometheus label escaping, hexadecimal encoding and decoding,
//! and percent-decoding of query values.

use vstd::prelude::*;
use vstd::utf8::*;
use crate::common::text::{bytes_to_text, push_char, text_of_bytes};

verus! {

broadcast use vstd::utf8::encode_utf8_decode_utf8;

proof fn lemma_or_xor_zero(d: u8, x: u8, y: u8)
    ensures
        ((d | (x ^ y)) == 0) <==> (d == 0 && x == y),
{
    assert(((d | (x ^ y)) == 0) <==> (d == 0 && x == y)) by (bit_vector);
}

/// Constant-time string comparison: every byte pair is inspected whatever the
/// outcome, so the running time depends on the length alone.
pub fn constant_time_eq(a: &str, b: &str) -> (r: bool)
    ensures
        r == (a@ == b@),
{
    let x = a.as_bytes();
    let y = b.as_bytes();
    if x.len() != y.len() {
        proof {
            assert(a@ != b@);
        }
        return false;
    }
    let mut diff: u8 = 0;
    let mut i: usize = 0;
    while i < x.len()
        invariant
            x@ == encode_utf8(a@),
            y@ == encode_utf8(b@),
            x@.len() == y@.len(),
            i <= x@.len(),
            (diff == 0) <==> (forall|j: int| 0 <= j < i ==> x@[j] == y@[j]),
        decreases x@.len() - i,
    {
        proof {
            lemma_or_xor_zero(diff, x@[i as int], y@[i as int]);
        }
        diff = diff | (x[i] ^ y[i]);
        i = i + 1;
    }
    proof {
        if diff == 0 {
            assert(x@ =~= y@);
            assert(decode_utf8(encode_utf8(a@)) == a@);
            assert(decode_utf8(encode_utf8(b@)) == b@);
        } else {
            let j = choose|j: int| 0 <= j < x@.len() && x@[j] != y@[j];
            assert(x@[j] != y@[j]);
            assert(x@ != y@);
        }
    }
    diff == 0
}

/// How one character is written inside a Prometheus label value.
pub open spec fn prom_escape_char(c: char) -> Seq<char> {
    if c == '\\' {
        seq!['\\', '\\']
    } else if c == '"' {
        seq!['\\', '"']
    } else if c == '\n' {
        seq!['\\', 'n']
    } else {
        seq![c]
    }
}

/// A Prometheus label value with `\`, `"` and newlines escaped.
pub open spec fn prom_escaped(s: Seq<char>) -> Seq<char>
    decreases s.len(),
{
    if s.len() == 0 {
        Seq::empty()
    } else {
        prom_escaped(s.drop_last()) + prom_escape_char(s.last())
    }
}

/// Escapes a Prometheus label value: `\` becomes `\\`, `"` becomes `\"` and a
/// newline becomes `\n`; every other character is kept.
pub fn prom_escape(s: &str) -> (r: String)
    ensures
        r@ == prom_escaped(s@),
{
    let mut out = String::new();
    let n = s.unicode_len();
    let mut i: usize = 0;
    while i < n
        invariant
            n == s@.len(),
            i <= n,
            out@ == prom_escaped(s@.subrange(0, i as int)),
        decreases n - i,
    {
        let c = s.get_char(i);
        proof {
            let p = s@.subrange(0, i as int + 1);
            assert(p.drop_last() =~= s@.subrange(0, i as int));
            assert(p.last() == c);
        }
        if c == '\\' {
            push_char(&mut out, '\\');
            push_char(&mut out, '\\');
        } else if c == '"' {
            push_char(&mut out, '\\');
            push_char(&mut out, '"');
        } else if c == '\n' {
            push_char(&mut out, '\\');
            push_char(&mut out, 'n');
        } else {
            push_char(&mut out, c);
        }
        i = i + 1;
        proof {
            assert(out@ =~= prom_escaped(s@.subrange(0, i as int)));
        }
    }
    proof {
        assert(s@.subrange(0, n as int) =~= s@);
    }
    out
}

/// The lower-case hexadecimal digit for a value below sixteen.
pub open spec fn hex_char(d: nat) -> char {
    if d < 10 {
        (48 + d) as char
    } else {
        (87 + d) as char
    }
}

/// Lower-case hexadecimal rendering of a byte string, two digits per byte.
pub open spec fn hex_of(b: Seq<u8>) -> Seq<char>
    decreases b.len(),
{
    if b.len() == 0 {
        Seq::empty()
    } else {
        hex_of(b.drop_last()) + seq![hex_char(b.last() as nat / 16), hex_char(b.last() as nat % 16)]
    }
}

fn hex_digit_char(d: u8) -> (c: char)
    requires
        d < 16,
    ensures
        c == hex_char(d as nat),
{
    if d < 10 {
        (48u8 + d) as char
    } else {
        (87u8 + d) as char
    }
}

/// Renders bytes as lower-case hexadecimal, two digits per byte.
pub fn to_hex(bytes: &[u8]) -> (r: String)
    ensures
        r@ == hex_of(bytes@),
{
    let mut out = String::new();
    let mut i: usize = 0;
    while i < bytes.len()
        invariant
            i <= bytes@.len(),
            out@ == hex_of(bytes@.subrange(0, i as int)),
        decreases bytes@.len() - i,
    {
        let b = bytes[i];
        proof {
            let p = bytes@.subrange(0, i as int + 1);
            assert(p.drop_last() =~= bytes@.subrange(0, i as int));
            assert(p.last() == b);
        }
        push_char(&mut out, hex_digit_char(b / 16));
        push_char(&mut out, hex_digit_char(b % 16));
        i = i + 1;
        proof {
            assert(out@ =~= hex_of(bytes@.subrange(0, i as int)));
        }
    }
    proof {
        assert(bytes@.subrange(0, bytes@.len() as int) =~= bytes@);
    }
    out
}

/// The value of a hexadecimal digit (either case).
pub open spec fn hex_digit_value(c: u8) -> Option<u8> {
    if 48 <= c <= 57 {
        Some((c - 48) as u8)
    } else if 97 <= c <= 102 {
        Some((c - 87) as u8)
    } else if 65 <= c <= 70 {
        Some((c - 55) as u8)
    } else {
        None
    }
}

/// What `u8::from_str_radix(text, 16)` gives for a two-byte text `c1 c2`: an
/// optional leading `+` followed by hexadecimal digits.
pub open spec fn hex_pair_value(c1: u8, c2: u8) -> Option<u8> {
    if c1 == 43 {
        hex_digit_value(c2)
    } else {
        match (hex_digit_value(c1), hex_digit_value(c2)) {
            (Some(h), Some(l)) => Some((16 * h + l) as u8),
            _ => None,
        }
    }
}

fn digit_value(c: u8) -> (r: Option<u8>)
    ensures
        r == hex_digit_value(c),
{
    if 48 <= c && c <= 57 {
        Some(c - 48)
    } else if 97 <= c && c <= 102 {
        Some(c - 87)
    } else if 65 <= c && c <= 70 {
        Some(c - 55)
    } else {
        None
    }
}

fn pair_value(c1: u8, c2: u8) -> (r: Option<u8>)
    ensures
        r == hex_pair_value(c1, c2),
{
    if c1 == 43 {
        digit_value(c2)
    } else {
        match (digit_value(c1), digit_value(c2)) {
            (Some(h), Some(l)) => Some(16 * h + l),
            _ => None,
        }
    }
}

/// Whether byte index `k` of a UTF-8 encoding starts a character (or is its end).
pub open spec fn char_boundary(b: Seq<u8>, k: int) -> bool {
    k == b.len() || (0 <= k < b.len() && !(0x80 <= b[k] <= 0xBF))
}

/// Every two-byte group of `b` is a hexadecimal pair.
pub open spec fn all_hex_pairs(b: Seq<u8>) -> bool {
    forall|k: int| 0 <= k < b.len() / 2 ==> (#[trigger] hex_pair_value(b[2 * k], b[2 * k + 1])) is Some
}

/// The bytes that the hexadecimal pairs of `b` denote.
pub open spec fn hex_pairs(b: Seq<u8>) -> Seq<u8> {
    Seq::new(b.len() / 2, |k: int| hex_pair_value(b[2 * k], b[2 * k + 1])->Some_0)
}

/// Hexadecimal decoding of the bytes of a text: `None` for an odd length or a
/// group that is not a hexadecimal pair.
pub open spec fn hex_decoded(b: Seq<u8>) -> Option<Seq<u8>> {
    if b.len() % 2 != 0 || !all_hex_pairs(b) {
        None
    } else {
        Some(hex_pairs(b))
    }
}

/// Decoding a text two bytes at a time cuts it only at character boundaries:
/// each cut is made after the groups before it decoded.
pub open spec fn hex_cuts_ok(b: Seq<u8>) -> bool {
    b.len() % 2 != 0 || forall|k: int|
        0 <= k < b.len() / 2 && (forall|j: int|
            0 <= j < k ==> (#[trigger] hex_pair_value(b[2 * j], b[2 * j + 1])) is Some) ==> char_boundary(
            b,
            #[trigger] (2 * k + 2),
        )
}

/// Decodes hexadecimal bytes, two per output byte; `None` for an odd length or
/// a group that is not a hexadecimal pair.
pub fn hex_decode(b: &[u8]) -> (r: Option<Vec<u8>>)
    ensures
        match r {
            Some(v) => hex_decoded(b@) == Some(v@),
            None => hex_decoded(b@) is None,
        },
{
    if b.len() % 2 != 0 {
        return None;
    }
    let half = b.len() / 2;
    let mut out: Vec<u8> = Vec::with_capacity(half);
    let mut k: usize = 0;
    while k < half
        invariant
            b@.len() % 2 == 0,
            half == b@.len() / 2,
            2 * half == b@.len(),
            b@.len() <= usize::MAX,
            k <= half,
            out@.len() == k,
            forall|j: int|
                0 <= j < k ==> (#[trigger] hex_pair_value(b@[2 * j], b@[2 * j + 1])) is Some,
            forall|j: int|
                0 <= j < k ==> out@[j] == hex_pair_value(b@[2 * j], b@[2 * j + 1])->Some_0,
        decreases half - k,
    {
        let i: usize = k + k;
        match pair_value(b[i], b[i + 1]) {
            Some(v) => {
                out.push(v);
            },
            None => {
                proof {
                    assert(!all_hex_pairs(b@)) by {
                        assert(hex_pair_value(b@[2 * k as int], b@[2 * k as int + 1]) is None);
                    }
                }
                return None;
            },
        }
        k = k + 1;
    }
    proof {
        assert(all_hex_pairs(b@));
        assert(out@ =~= hex_pairs(b@));
    }
    Some(out)
}

/// Whether `hex_cuts_ok` holds: decoding `b` two bytes at a time never cuts
/// inside a character.
pub fn hex_cuts_check(b: &[u8]) -> (ok: bool)
    ensures
        ok == hex_cuts_ok(b@),
{
    if b.len() % 2 != 0 {
        return true;
    }
    let half = b.len() / 2;
    let mut k: usize = 0;
    while k < half
        invariant
            b@.len() % 2 == 0,
            half == b@.len() / 2,
            2 * half == b@.len(),
            b@.len() <= usize::MAX,
            k <= half,
            forall|j: int|
                0 <= j < k ==> (#[trigger] hex_pair_value(b@[2 * j], b@[2 * j + 1])) is Some,
            forall|j: int| 0 <= j < k ==> char_boundary(b@, #[trigger] (2 * j + 2)),
        decreases half - k,
    {
        let i: usize = k + k;
        let end = i + 2;
        let boundary = end == b.len() || !(0x80 <= b[end] && b[end] <= 0xBF);
        if !boundary {
            proof {
                assert(!char_boundary(b@, 2 * k as int + 2));
            }
            return false;
        }
        if pair_value(b[i], b[i + 1]).is_none() {
            proof {
                assert forall|m: int|
                    0 <= m < b@.len() / 2 && (forall|j: int|
                        0 <= j < m ==> (#[trigger] hex_pair_value(b@[2 * j], b@[2 * j + 1])) is Some)
                    implies char_boundary(b@, #[trigger] (2 * m + 2)) by {
                    if m > k {
                        assert(hex_pair_value(b@[2 * k as int], b@[2 * k as int + 1]) is Some);
                    }
                }
            }
            return true;
        }
        k = k + 1;
    }
    true
}

/// Decodes a hexadecimal text (either case) into bytes; `None` for an odd
/// length or a group that is not hexadecimal. Each group is read as
/// `u8::from_str_radix` reads it, so a group `+d` stands for the digit `d`.
/// The text is cut at every second byte, which must be a character boundary
/// wherever the cut is made.
pub fn from_hex(s: &str) -> (r: Option<Vec<u8>>)
    requires
        hex_cuts_ok(encode_utf8(s@)),
    ensures
        match r {
            Some(v) => hex_decoded(encode_utf8(s@)) == Some(v@),
            None => hex_decoded(encode_utf8(s@)) is None,
        },
{
    hex_decode(s.as_bytes())
}

/// The byte of a lower-case hexadecimal digit.
pub open spec fn hex_digit_byte(d: nat) -> u8 {
    if d < 10 {
        (48 + d) as u8
    } else {
        (87 + d) as u8
    }
}

/// Lower-case hexadecimal rendering of a byte string, as ASCII bytes.
pub open spec fn hex_bytes_of(b: Seq<u8>) -> Seq<u8>
    decreases b.len(),
{
    if b.len() == 0 {
        Seq::empty()
    } else {
        hex_bytes_of(b.drop_last()) + seq![
            hex_digit_byte(b.last() as nat / 16),
            hex_digit_byte(b.last() as nat % 16),
        ]
    }
}

/// Appends the lower-case hexadecimal rendering of `bytes` to `out`.
pub fn push_hex_bytes(out: &mut Vec<u8>, bytes: &[u8])
    ensures
        final(out)@ == old(out)@ + hex_bytes_of(bytes@),
{
    let mut i: usize = 0;
    while i < bytes.len()
        invariant
            i <= bytes@.len(),
            out@ == old(out)@ + hex_bytes_of(bytes@.subrange(0, i as int)),
        decreases bytes@.len() - i,
    {
        let b = bytes[i];
        proof {
            let p = bytes@.subrange(0, i as int + 1);
            assert(p.drop_last() =~= bytes@.subrange(0, i as int));
            assert(p.last() == b);
        }
        let hi: u8 = b / 16;
        let lo: u8 = b % 16;
        out.push(if hi < 10 { 48 + hi } else { 87 + hi });
        out.push(if lo < 10 { 48 + lo } else { 87 + lo });
        i = i + 1;
        proof {
            assert(out@ =~= old(out)@ + hex_bytes_of(bytes@.subrange(0, i as int)));
        }
    }
    proof {
        assert(bytes@.subrange(0, bytes@.len() as int) =~= bytes@);
    }
}

/// The hexadecimal bytes of `b`: two per byte, high digit first, all ASCII.
pub proof fn lemma_hex_bytes_of(b: Seq<u8>)
    ensures
        hex_bytes_of(b).len() == 2 * b.len(),
        forall|k: int|
            0 <= k < b.len() ==> hex_bytes_of(b)[2 * k] == hex_digit_byte(b[k] as nat / 16)
                && hex_bytes_of(b)[2 * k + 1] == hex_digit_byte(b[k] as nat % 16),
        forall|j: int|
            0 <= j < hex_bytes_of(b).len() ==> (48 <= #[trigger] hex_bytes_of(b)[j] <= 57 || 97
                <= hex_bytes_of(b)[j] <= 102),
    decreases b.len(),
{
    if b.len() > 0 {
        lemma_hex_bytes_of(b.drop_last());
        let h = hex_bytes_of(b);
        let p = hex_bytes_of(b.drop_last());
        assert forall|k: int| 0 <= k < b.len() implies h[2 * k] == hex_digit_byte(b[k] as nat / 16)
            && h[2 * k + 1] == hex_digit_byte(b[k] as nat % 16) by {
            if k < b.len() - 1 {
                assert(h[2 * k] == p[2 * k]);
                assert(h[2 * k + 1] == p[2 * k + 1]);
                assert(b.drop_last()[k] == b[k]);
            }
        }
    }
}

proof fn lemma_hex_digit_pair(x: u8)
    ensures
        hex_pair_value(hex_digit_byte(x as nat / 16), hex_digit_byte(x as nat % 16)) == Some(x),
{
    let h = x as nat / 16;
    let l = x as nat % 16;
    assert(16 * h + l == x);
}

/// Hexadecimal decoding undoes hexadecimal encoding, and the encoding can be
/// cut anywhere (it is ASCII).
pub proof fn lemma_hex_roundtrip(b: Seq<u8>)
    ensures
        hex_decoded(hex_bytes_of(b)) == Some(b),
        hex_cuts_ok(hex_bytes_of(b)),
{
    lemma_hex_bytes_of(b);
    let h = hex_bytes_of(b);
    assert forall|k: int| 0 <= k < h.len() / 2 implies (#[trigger] hex_pair_value(
        h[2 * k],
        h[2 * k + 1],
    )) == Some(b[k]) by {
        lemma_hex_digit_pair(b[k]);
    }
    assert(all_hex_pairs(h));
    assert(hex_pairs(h) =~= b);
}

proof fn lemma_hex_char_injective(x: nat, y: nat)
    requires
        x < 16,
        y < 16,
        hex_char(x) == hex_char(y),
    ensures
        x == y,
{
}

/// Lower-case hexadecimal rendering is injective.
pub proof fn lemma_hex_of_injective(a: Seq<u8>, b: Seq<u8>)
    requires
        hex_of(a) == hex_of(b),
    ensures
        a == b,
    decreases a.len(),
{
    lemma_hex_of_len(a);
    lemma_hex_of_len(b);
    if a.len() > 0 {
        let ha = hex_of(a);
        let n = ha.len() as int;
        assert(hex_of(a.drop_last()) =~= ha.subrange(0, n - 2));
        assert(hex_of(b.drop_last()) =~= hex_of(b).subrange(0, n - 2));
        lemma_hex_of_injective(a.drop_last(), b.drop_last());
        assert(ha[n - 2] == hex_char(a.last() as nat / 16));
        assert(ha[n - 1] == hex_char(a.last() as nat % 16));
        lemma_hex_char_injective(a.last() as nat / 16, b.last() as nat / 16);
        lemma_hex_char_injective(a.last() as nat % 16, b.last() as nat % 16);
        assert(a.last() == b.last());
        assert(a =~= a.drop_last().push(a.last()));
        assert(b =~= b.drop_last().push(b.last()));
    } else {
        assert(a =~= b);
    }
}

proof fn lemma_hex_of_len(a: Seq<u8>)
    ensures
        hex_of(a).len() == 2 * a.len(),
    decreases a.len(),
{
    if a.len() > 0 {
        lemma_hex_of_len(a.drop_last());
    }
}

/// Percent-decoding as a byte string: from index `i` on, `%XY` (with at least
/// two bytes after the `%`) whose `XY` reads as a hexadecimal pair becomes that
/// byte; every other byte is kept.
pub open spec fn percent_decoded_from(b: Seq<u8>, i: int) -> Seq<u8>
    decreases b.len() - i,
{
    if i < 0 || i >= b.len() {
        Seq::empty()
    } else if b[i] == 37 && i + 2 < b.len() && hex_pair_value(b[i + 1], b[i + 2]) is Some {
        seq![hex_pair_value(b[i + 1], b[i + 2])->Some_0] + percent_decoded_from(b, i + 3)
    } else {
        seq![b[i]] + percent_decoded_from(b, i + 1)
    }
}

/// Percent-decoding of a whole byte string.
pub open spec fn percent_decoded(b: Seq<u8>) -> Seq<u8> {
    percent_decoded_from(b, 0)
}

/// Decoding from index `i` on only cuts the text at character boundaries: the
/// two bytes after a `%` are taken as a text of their own, which must end at a
/// boundary.
pub open spec fn percent_cuts_ok_from(b: Seq<u8>, i: int) -> bool
    decreases b.len() - i,
{
    if i < 0 || i >= b.len() {
        true
    } else if b[i] == 37 && b.len() - i > 2 {
        char_boundary(b, i + 3) && if hex_pair_value(b[i + 1], b[i + 2]) is Some {
            percent_cuts_ok_from(b, i + 3)
        } else {
            percent_cuts_ok_from(b, i + 1)
        }
    } else {
        percent_cuts_ok_from(b, i + 1)
    }
}

/// Whether `url_decode` can take `s`: every `%` group it reads ends at a
/// character boundary.
pub open spec fn percent_cuts_ok(b: Seq<u8>) -> bool {
    percent_cuts_ok_from(b, 0)
}

/// Minimal URL decoder (percent-decoding only): `%XY` becomes the byte `XY`
/// (hexadecimal, read as `u8::from_str_radix` reads it); a `%` that is not
/// followed by two more bytes forming a hexadecimal pair is kept as it is. The
/// decoded bytes are turned into text (lossily only where they are not UTF-8).
pub fn url_decode(s: &str) -> (r: String)
    requires
        percent_cuts_ok(encode_utf8(s@)),
    ensures
        r@ == text_of_bytes(percent_decoded(encode_utf8(s@))),
        valid_utf8(percent_decoded(encode_utf8(s@))) ==> encode_utf8(r@) == percent_decoded(
            encode_utf8(s@),
        ),
{
    let b = s.as_bytes();
    let mut out: Vec<u8> = Vec::with_capacity(b.len());
    let mut i: usize = 0;
    while i < b.len()
        invariant
            b@ == encode_utf8(s@),
            i <= b@.len(),
            out@ + percent_decoded_from(b@, i as int) == percent_decoded(b@),
        decreases b@.len() - i,
    {
        if b[i] == 37 && b.len() - i > 2 {
            if let Some(v) = pair_value(b[i + 1], b[i + 2]) {
                proof {
                    assert(percent_decoded_from(b@, i as int) == seq![v] + percent_decoded_from(
                        b@,
                        i + 3,
                    ));
                    assert(out@.push(v) + percent_decoded_from(b@, i + 3) =~= out@ + (seq![v]
                        + percent_decoded_from(b@, i + 3)));
                }
                out.push(v);
                i = i + 3;
                continue ;
            }
        }
        proof {
            assert(percent_decoded_from(b@, i as int) == seq![b@[i as int]] + percent_decoded_from(
                b@,
                i + 1,
            ));
            assert(out@.push(b@[i as int]) + percent_decoded_from(b@, i + 1) =~= out@ + (seq![
                b@[i as int],
            ] + percent_decoded_from(b@, i + 1)));
        }
        out.push(b[i]);
        i = i + 1;
    }
    proof {
        assert(percent_decoded_from(b@, i as int) =~= Seq::empty());
        assert(out@ =~= percent_decoded(b@));
    }
    bytes_to_text(out.as_slice())
}

/// Whether `url_decode` may be called on `s` (see `percent_cuts_ok`).
pub fn url_decodable(s: &str) -> (ok: bool)
    ensures
        ok == percent_cuts_ok(encode_utf8(s@)),
{
    let b = s.as_bytes();
    let mut i: usize = 0;
    while i < b.len()
        invariant
            b@ == encode_utf8(s@),
            i <= b@.len(),
            percent_cuts_ok(b@) == percent_cuts_ok_from(b@, i as int),
        decreases b@.len() - i,
    {
        if b[i] == 37 && b.len() - i > 2 {
            let end = i + 3;
            let boundary = end == b.len() || !(0x80 <= b[end] && b[end] <= 0xBF);
            if !boundary {
                return false;
            }
            if pair_value(b[i + 1], b[i + 2]).is_some() {
                i = i + 3;
            } else {
                i = i + 1;
            }
        } else {
            i = i + 1;
        }
    }
    true
}

} // verus!
