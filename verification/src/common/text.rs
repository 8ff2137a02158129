//! Text helpers: UTF-8 conversions, string comparison and decimal rendering.

use vstd::prelude::*;
use vstd::utf8::*;
use vstd::string::*;

verus! {

broadcast use vstd::utf8::encode_utf8_decode_utf8;

/// The character `'0'..='9'` for a digit value below ten.
pub open spec fn digit_char(d: nat) -> char {
    (48 + d) as char
}

/// Decimal rendering of a natural number, without leading zeros.
pub open spec fn decimal(n: nat) -> Seq<char>
    decreases n,
{
    if n < 10 {
        seq![digit_char(n)]
    } else {
        decimal(n / 10).push(digit_char(n % 10))
    }
}

/// Appends one character to a string (`String::push`).
#[verifier::external_body]
pub(crate) fn push_char(s: &mut String, c: char)
    ensures
        final(s)@ == old(s)@.push(c),
{
    s.push(c);
}

fn digit_to_char(d: u64) -> (c: char)
    requires
        d < 10,
    ensures
        c == digit_char(d as nat),
{
    let b: u8 = 48u8 + (d as u8);
    b as char
}

/// Appends the decimal rendering of `n`.
pub fn push_decimal(s: &mut String, n: u64)
    ensures
        final(s)@ == old(s)@ + decimal(n as nat),
    decreases n,
{
    if n >= 10 {
        push_decimal(s, n / 10);
    }
    push_char(s, digit_to_char(n % 10));
    proof {
        assert(decimal(n as nat) =~= if n < 10 { seq![digit_char(n as nat)] } else {
            decimal((n / 10) as nat).push(digit_char((n % 10) as nat))
        });
    }
}

/// Equality of two string slices, compared byte by byte.
pub fn str_eq(a: &str, b: &str) -> (r: bool)
    ensures
        r == (a@ == b@),
{
    let x = a.as_bytes();
    let y = b.as_bytes();
    if x.len() != y.len() {
        proof {
            assert(a@ != b@);
        }
        return false;
    }
    let mut i: usize = 0;
    while i < x.len()
        invariant
            x@ == a.spec_bytes(),
            y@ == b.spec_bytes(),
            x@.len() == y@.len(),
            i <= x@.len(),
            forall|j: int| 0 <= j < i ==> x@[j] == y@[j],
        decreases x@.len() - i,
    {
        if x[i] != y[i] {
            proof {
                assert(x@ != y@);
                assert(a@ != b@);
            }
            return false;
        }
        i = i + 1;
    }
    proof {
        assert(x@ =~= y@);
        assert(decode_utf8(encode_utf8(a@)) == a@);
        assert(decode_utf8(encode_utf8(b@)) == b@);
    }
    true
}

} // verus!

verus! {

/// Calls `String::from_utf8(bytes)`, which succeeds exactly when the bytes are
/// valid UTF-8 and then holds exactly those bytes; on failure the text of the
/// `FromUtf8Error` is returned (nothing is claimed of that text).
#[verifier::external_body]
pub(crate) fn utf8_to_string(bytes: Vec<u8>) -> (r: Result<String, String>)
    ensures
        r is Ok <==> valid_utf8(bytes@),
        r matches Ok(s) ==> encode_utf8(s@) == bytes@,
{
    String::from_utf8(bytes).map_err(|e| e.to_string())
}

/// The characters that lossy UTF-8 decoding (`String::from_utf8_lossy`) gives for
/// a byte string: invalid sequences become U+FFFD.
pub uninterp spec fn utf8_lossy_of(bytes: Seq<u8>) -> Seq<char>;

/// Calls `String::from_utf8_lossy(bytes).into_owned()`. The result is the lossy
/// decoding of the bytes (a function of them alone); for valid UTF-8 its bytes are
/// the input bytes, as the documentation of `from_utf8_lossy` states.
#[verifier::external_body]
pub(crate) fn utf8_lossy_to_string(bytes: &[u8]) -> (s: String)
    ensures
        s@ == utf8_lossy_of(bytes@),
        valid_utf8(bytes@) ==> encode_utf8(s@) == bytes@,
{
    String::from_utf8_lossy(bytes).into_owned()
}

/// The text of a byte string: its UTF-8 decoding when the bytes are valid
/// UTF-8, and otherwise its lossy decoding (invalid sequences become U+FFFD).
pub open spec fn text_of_bytes(bytes: Seq<u8>) -> Seq<char> {
    if valid_utf8(bytes) {
        decode_utf8(bytes)
    } else {
        utf8_lossy_of(bytes)
    }
}

/// The text of a byte string (see `text_of_bytes`).
pub fn bytes_to_text(bytes: &[u8]) -> (s: String)
    ensures
        s@ == text_of_bytes(bytes@),
        valid_utf8(bytes@) ==> encode_utf8(s@) == bytes@,
{
    let s = utf8_lossy_to_string(bytes);
    proof {
        if valid_utf8(bytes@) {
            lemma_utf8_roundtrip(s@);
        }
    }
    s
}

/// Copies the UTF-8 bytes of a string slice into a vector.
pub fn str_bytes(s: &str) -> (v: Vec<u8>)
    ensures
        v@ == encode_utf8(s@),
{
    let b = s.as_bytes();
    crate::common::wire::copy_range(b, 0, b.len())
}

} // verus!

verus! {

/// The UTF-8 encoding of a character sequence is valid UTF-8 and decodes back to it.
pub proof fn lemma_utf8_roundtrip(s: Seq<char>)
    ensures
        valid_utf8(encode_utf8(s)),
        decode_utf8(encode_utf8(s)) == s,
{
    vstd::utf8::encode_utf8_decode_utf8(s);
    vstd::utf8::encode_utf8_valid_utf8(s);
}

} // verus!

verus! {

/// The first index at or after `from` where `s` holds `c`, or the length.
pub open spec fn char_index(s: Seq<char>, c: char, from: int) -> int
    decreases s.len() - from,
{
    if from < 0 || from >= s.len() {
        s.len() as int
    } else if s[from] == c {
        from
    } else {
        char_index(s, c, from + 1)
    }
}

/// `char_index` lies between `from` and the length, and points at `c` when
/// below the length.
pub proof fn lemma_char_index_bounds(s: Seq<char>, c: char, from: int)
    requires
        0 <= from <= s.len(),
    ensures
        from <= char_index(s, c, from) <= s.len(),
        char_index(s, c, from) < s.len() ==> s[char_index(s, c, from)] == c,
    decreases s.len() - from,
{
    if from < s.len() && s[from] != c {
        lemma_char_index_bounds(s, c, from + 1);
    }
}

/// The first character index of `c` in `s` at or after `from`, or the length.
pub fn find_char(s: &str, c: char, from: usize) -> (k: usize)
    requires
        from <= s@.len(),
    ensures
        k == char_index(s@, c, from as int),
        from <= k <= s@.len(),
{
    let n = s.unicode_len();
    let mut i: usize = from;
    while i < n
        invariant
            n == s@.len(),
            from <= i <= n,
            char_index(s@, c, from as int) == char_index(s@, c, i as int),
        decreases n - i,
    {
        if s.get_char(i) == c {
            return i;
        }
        i = i + 1;
    }
    i
}

/// The characters `from..to` of `s` as a new string.
pub fn char_slice(s: &str, from: usize, to: usize) -> (r: String)
    requires
        from <= to <= s@.len(),
    ensures
        r@ == s@.subrange(from as int, to as int),
{
    let mut out = String::new();
    let mut i: usize = from;
    while i < to
        invariant
            from <= i <= to <= s@.len(),
            out@ == s@.subrange(from as int, i as int),
        decreases to - i,
    {
        push_char(&mut out, s.get_char(i));
        i = i + 1;
        proof {
            assert(out@ =~= s@.subrange(from as int, i as int));
        }
    }
    out
}

/// Whether `s` begins with `prefix`.
pub open spec fn has_prefix(s: Seq<char>, prefix: Seq<char>) -> bool {
    s.len() >= prefix.len() && s.subrange(0, prefix.len() as int) == prefix
}

/// Whether `s` begins with `prefix` (`str::starts_with`).
pub fn starts_with(s: &str, prefix: &str) -> (r: bool)
    ensures
        r == has_prefix(s@, prefix@),
{
    let n = prefix.unicode_len();
    if s.unicode_len() < n {
        return false;
    }
    let mut i: usize = 0;
    while i < n
        invariant
            n == prefix@.len(),
            n <= s@.len(),
            i <= n,
            forall|j: int| 0 <= j < i ==> s@[j] == prefix@[j],
        decreases n - i,
    {
        if s.get_char(i) != prefix.get_char(i) {
            proof {
                assert(s@.subrange(0, n as int)[i as int] != prefix@[i as int]);
            }
            return false;
        }
        i = i + 1;
    }
    proof {
        assert(s@.subrange(0, n as int) =~= prefix@);
    }
    true
}

} // verus!

