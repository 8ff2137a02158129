//! Admin password storage: PBKDF2-HMAC-SHA256 records and their verification.
//!
//! A record reads `$pbkdf2-sha256$<iterations>$<salt_hex>$<hash_hex>`. A stored
//! password without the `$pbkdf2-sha256$` prefix is plaintext and is compared
//! as it is.

use vstd::prelude::*;
use vstd::utf8::*;
use crate::common::crypto::{hmac_sha256, hmac_sha256_of};
use crate::common::random::random_bytes;
use crate::common::text::utf8_to_string;
use crate::common::wire::copy_range;
use crate::server::admin::escape::{
    constant_time_eq, hex_bytes_of, hex_cuts_check, hex_cuts_ok, hex_decode, hex_decoded, hex_of, lemma_hex_bytes_of,
    lemma_hex_of_injective, lemma_hex_roundtrip, push_hex_bytes, to_hex,
};

verus! {

broadcast use vstd::utf8::encode_utf8_decode_utf8;

/// PBKDF2-HMAC-SHA256 iteration count of new records.
pub const PBKDF2_ITERATIONS: u32 = 100000;

/// The PBKDF2 chain `U_k` of the first output block: `U_1` is the MAC of the
/// salt followed by the big-endian block index 1, `U_k` the MAC of `U_(k-1)`.
pub open spec fn pbkdf2_u(password: Seq<u8>, salt: Seq<u8>, k: nat) -> Seq<u8>
    decreases k,
{
    if k <= 1 {
        hmac_sha256_of(password, salt + seq![0u8, 0u8, 0u8, 1u8])
    } else {
        hmac_sha256_of(password, pbkdf2_u(password, salt, (k - 1) as nat))
    }
}

/// Byte-wise exclusive or of two byte strings of the length of `a`.
pub open spec fn xor_bytes(a: Seq<u8>, b: Seq<u8>) -> Seq<u8> {
    Seq::new(a.len(), |i: int| a[i] ^ b[i])
}

/// The first PBKDF2-HMAC-SHA256 output block after `k` iterations:
/// `U_1 ^ U_2 ^ ... ^ U_k` (with at least one term).
pub open spec fn pbkdf2_block(password: Seq<u8>, salt: Seq<u8>, k: nat) -> Seq<u8>
    decreases k,
{
    if k <= 1 {
        pbkdf2_u(password, salt, 1)
    } else {
        xor_bytes(pbkdf2_block(password, salt, (k - 1) as nat), pbkdf2_u(password, salt, k))
    }
}

/// PBKDF2-HMAC-SHA256 (RFC 8018) with a 32-byte output; zero iterations count
/// as one.
pub fn pbkdf2_sha256(password: &[u8], salt: &[u8], iterations: u32) -> (dk: Vec<u8>)
    ensures
        dk@ == pbkdf2_block(password@, salt@, iterations as nat),
        dk@.len() == 32,
{
    let mut msg = copy_range(salt, 0, salt.len());
    msg.push(0);
    msg.push(0);
    msg.push(0);
    msg.push(1);
    proof {
        assert(msg@ =~= salt@ + seq![0u8, 0u8, 0u8, 1u8]);
    }
    let mut u = hmac_sha256(password, msg.as_slice());
    let mut out = copy_range(u.as_slice(), 0, u.len());
    proof {
        assert(out@ =~= u@);
    }
    let mut k: u32 = 1;
    while k < iterations
        invariant
            1 <= k,
            iterations >= 1 ==> k <= iterations,
            iterations == 0 ==> k == 1,
            u@ == pbkdf2_u(password@, salt@, k as nat),
            out@ == pbkdf2_block(password@, salt@, k as nat),
            u@.len() == 32,
            out@.len() == 32,
        decreases iterations - k,
    {
        u = hmac_sha256(password, u.as_slice());
        let ghost prev = out@;
        let mut i: usize = 0;
        while i < 32
            invariant
                i <= 32,
                u@.len() == 32,
                out@.len() == 32,
                prev.len() == 32,
                forall|j: int| 0 <= j < i ==> out@[j] == prev[j] ^ u@[j],
                forall|j: int| i <= j < 32 ==> out@[j] == prev[j],
            decreases 32 - i,
        {
            let x = out[i] ^ u[i];
            out.set(i, x);
            i = i + 1;
        }
        proof {
            assert(out@ =~= xor_bytes(prev, u@));
        }
        k = k + 1;
    }
    proof {
        if iterations == 0 {
            assert(pbkdf2_block(password@, salt@, 0) == pbkdf2_block(password@, salt@, 1));
        }
    }
    out
}

/// The bytes of `$pbkdf2-sha256$`.
pub open spec fn record_prefix() -> Seq<u8> {
    seq![36u8, 112u8, 98u8, 107u8, 100u8, 102u8, 50u8, 45u8, 115u8, 104u8, 97u8, 50u8, 53u8, 54u8, 36u8]
}

/// Decimal rendering of a natural number as ASCII digit bytes.
pub open spec fn decimal_bytes(n: nat) -> Seq<u8>
    decreases n,
{
    if n < 10 {
        seq![(48 + n) as u8]
    } else {
        decimal_bytes(n / 10).push((48 + n % 10) as u8)
    }
}

/// The stored record of a password: prefix, iteration count, salt and derived
/// key, separated by `$`.
pub open spec fn password_record(password: Seq<u8>, salt: Seq<u8>, iterations: u32) -> Seq<u8> {
    record_prefix() + decimal_bytes(iterations as nat) + seq![36u8] + hex_bytes_of(salt) + seq![36u8]
        + hex_bytes_of(pbkdf2_block(password, salt, iterations as nat))
}

/// Whether every byte is an ASCII decimal digit.
pub open spec fn all_digits(s: Seq<u8>) -> bool {
    forall|i: int| 0 <= i < s.len() ==> 48 <= #[trigger] s[i] <= 57
}

/// The value of a string of decimal digits.
pub open spec fn digits_value(s: Seq<u8>) -> nat
    decreases s.len(),
{
    if s.len() == 0 {
        0
    } else {
        10 * digits_value(s.drop_last()) + (s.last() - 48) as nat
    }
}

/// What `str::parse::<u32>` gives for a text: an optional `+`, then at least
/// one decimal digit, with a value that fits in `u32`.
pub open spec fn parse_u32_bytes(s: Seq<u8>) -> Option<u32> {
    let d = if s.len() > 0 && s[0] == 43 {
        s.subrange(1, s.len() as int)
    } else {
        s
    };
    if d.len() > 0 && all_digits(d) && digits_value(d) <= u32::MAX {
        Some(digits_value(d) as u32)
    } else {
        None
    }
}

proof fn lemma_digits_value_prefix(s: Seq<u8>, j: int)
    requires
        all_digits(s),
        0 <= j <= s.len(),
    ensures
        digits_value(s.subrange(0, j)) <= digits_value(s),
    decreases s.len(),
{
    if j < s.len() {
        let t = s.drop_last();
        assert(all_digits(t)) by {
            assert forall|i: int| 0 <= i < t.len() implies 48 <= #[trigger] t[i] <= 57 by {
                assert(t[i] == s[i]);
            }
        }
        lemma_digits_value_prefix(t, j);
        assert(t.subrange(0, j) =~= s.subrange(0, j));
    } else {
        assert(s.subrange(0, j) =~= s);
    }
}

/// Parses a decimal `u32` as `str::parse::<u32>` does.
pub fn parse_u32(s: &[u8]) -> (r: Option<u32>)
    ensures
        r == parse_u32_bytes(s@),
{
    let start: usize = if s.len() > 0 && s[0] == 43 {
        1
    } else {
        0
    };
    let ghost d = if s@.len() > 0 && s@[0] == 43 {
        s@.subrange(1, s@.len() as int)
    } else {
        s@
    };
    assert(d =~= s@.subrange(start as int, s@.len() as int));
    if start == s.len() {
        return None;
    }
    let mut v: u64 = 0;
    let mut i: usize = start;
    while i < s.len()
        invariant
            start <= i <= s@.len(),
            d == s@.subrange(start as int, s@.len() as int),
            d == (if s@.len() > 0 && s@[0] == 43 {
                s@.subrange(1, s@.len() as int)
            } else {
                s@
            }),
            d.len() > 0,
            all_digits(d.subrange(0, i - start)),
            v == digits_value(d.subrange(0, i - start)),
            v <= u32::MAX,
        decreases s@.len() - i,
    {
        let c = s[i];
        let ghost p = d.subrange(0, i - start + 1);
        proof {
            assert(p.drop_last() =~= d.subrange(0, i - start));
            assert(p.last() == c);
        }
        if c < 48 || c > 57 {
            proof {
                assert(d[i - start] == c);
                assert(!all_digits(d));
            }
            return None;
        }
        let next: u64 = v * 10 + (c - 48) as u64;
        proof {
            assert(all_digits(p)) by {
                assert forall|j: int| 0 <= j < p.len() implies 48 <= #[trigger] p[j] <= 57 by {
                    if j < p.len() - 1 {
                        assert(p[j] == d.subrange(0, i - start)[j]);
                    }
                }
            }
            assert(next == digits_value(p));
        }
        if next > 4294967295 {
            proof {
                if all_digits(d) {
                    lemma_digits_value_prefix(d, i - start + 1);
                }
            }
            return None;
        }
        v = next;
        i = i + 1;
    }
    proof {
        assert(d.subrange(0, i - start) =~= d);
    }
    Some(v as u32)
}

/// The first index at or after `from` holding `c`, or the length when none does.
pub open spec fn find_byte(b: Seq<u8>, c: u8, from: int) -> int
    decreases b.len() - from,
{
    if from < 0 || from >= b.len() {
        b.len() as int
    } else if b[from] == c {
        from
    } else {
        find_byte(b, c, from + 1)
    }
}

fn find_byte_from(b: &[u8], c: u8, from: usize) -> (k: usize)
    requires
        from <= b@.len(),
    ensures
        k == find_byte(b@, c, from as int),
        from <= k <= b@.len(),
{
    let mut i: usize = from;
    while i < b.len()
        invariant
            from <= i <= b@.len(),
            find_byte(b@, c, from as int) == find_byte(b@, c, i as int),
        decreases b@.len() - i,
    {
        if b[i] == c {
            return i;
        }
        i = i + 1;
    }
    i
}

/// The three `$`-separated fields after the prefix (iterations, salt, hash),
/// when there are at least three; extra fields are ignored.
pub open spec fn record_fields(stored: Seq<u8>) -> Option<(Seq<u8>, Seq<u8>, Seq<u8>)> {
    let p = record_prefix();
    let rest = stored.subrange(p.len() as int, stored.len() as int);
    let k1 = find_byte(rest, 36, 0);
    let k2 = find_byte(rest, 36, k1 + 1);
    let k3 = find_byte(rest, 36, k2 + 1);
    if k1 >= rest.len() || k2 >= rest.len() {
        None
    } else {
        Some((rest.subrange(0, k1), rest.subrange(k1 + 1, k2), rest.subrange(k2 + 1, k3)))
    }
}

/// Whether the stored bytes begin with `$pbkdf2-sha256$`.
pub open spec fn has_record_prefix(stored: Seq<u8>) -> bool {
    stored.len() >= record_prefix().len() && stored.subrange(0, record_prefix().len() as int)
        == record_prefix()
}

/// Whether `input` is accepted against the stored password: for a PBKDF2
/// record, the key derived from `input` with the recorded salt and iteration
/// count equals the recorded hash (a record that does not parse accepts
/// nothing); otherwise the two texts are equal.
pub open spec fn password_matches(input: Seq<char>, stored: Seq<char>) -> bool {
    let s = encode_utf8(stored);
    if has_record_prefix(s) {
        match record_fields(s) {
            Some((it, salt, hash)) => match (
                parse_u32_bytes(it),
                hex_decoded(salt),
                hex_decoded(hash),
            ) {
                (Some(n), Some(sv), Some(hv)) => pbkdf2_block(encode_utf8(input), sv, n as nat)
                    == hv,
                _ => false,
            },
            None => false,
        }
    } else {
        input == stored
    }
}

/// The salt and hash fields of a record are cut into hexadecimal pairs only at
/// character boundaries.
pub open spec fn record_cuts_ok(stored: Seq<char>) -> bool {
    let s = encode_utf8(stored);
    has_record_prefix(s) ==> match record_fields(s) {
        Some((it, salt, hash)) => hex_cuts_ok(salt) && hex_cuts_ok(hash),
        None => true,
    }
}

fn starts_with_record_prefix(s: &[u8]) -> (r: bool)
    ensures
        r == has_record_prefix(s@),
{
    let p: [u8; 15] = [36, 112, 98, 107, 100, 102, 50, 45, 115, 104, 97, 50, 53, 54, 36];
    assert(p@ =~= record_prefix());
    if s.len() < 15 {
        return false;
    }
    let mut i: usize = 0;
    while i < 15
        invariant
            i <= 15,
            s@.len() >= 15,
            p@ == record_prefix(),
            forall|j: int| 0 <= j < i ==> s@[j] == p@[j],
        decreases 15 - i,
    {
        if s[i] != p[i] {
            proof {
                assert(s@.subrange(0, 15)[i as int] != record_prefix()[i as int]);
            }
            return false;
        }
        i = i + 1;
    }
    proof {
        assert(s@.subrange(0, 15) =~= record_prefix());
    }
    true
}

/// Whether a stored password can be checked by `verify_password` (see
/// `record_cuts_ok`).
pub fn record_checkable(stored: &str) -> (ok: bool)
    ensures
        ok == record_cuts_ok(stored@),
{
    let s = stored.as_bytes();
    if !starts_with_record_prefix(s) {
        return true;
    }
    let rest = copy_range(s, 15, s.len());
    let k1 = find_byte_from(rest.as_slice(), 36, 0);
    if k1 >= rest.len() {
        return true;
    }
    let k2 = find_byte_from(rest.as_slice(), 36, k1 + 1);
    if k2 >= rest.len() {
        return true;
    }
    let k3 = find_byte_from(rest.as_slice(), 36, k2 + 1);
    let f1 = copy_range(rest.as_slice(), 0, k1);
    let f2 = copy_range(rest.as_slice(), k1 + 1, k2);
    let f3 = copy_range(rest.as_slice(), k2 + 1, k3);
    proof {
        assert(record_fields(s@) == Some((f1@, f2@, f3@)));
    }
    hex_cuts_check(f2.as_slice()) && hex_cuts_check(f3.as_slice())
}

/// Verifies the admin password: a stored `$pbkdf2-sha256$...` record is checked
/// by deriving the key from `input` with the recorded salt and iteration count
/// and comparing hexadecimal renderings in constant time; any other stored text
/// is plaintext and compared in constant time.
pub fn verify_password(input: &str, stored: &str) -> (ok: bool)
    requires
        record_cuts_ok(stored@),
    ensures
        ok == password_matches(input@, stored@),
{
    let s = stored.as_bytes();
    if !starts_with_record_prefix(s) {
        return constant_time_eq(input, stored);
    }
    let rest = copy_range(s, 15, s.len());
    let k1 = find_byte_from(rest.as_slice(), 36, 0);
    if k1 >= rest.len() {
        return false;
    }
    let k2 = find_byte_from(rest.as_slice(), 36, k1 + 1);
    if k2 >= rest.len() {
        return false;
    }
    let k3 = find_byte_from(rest.as_slice(), 36, k2 + 1);
    let f1 = copy_range(rest.as_slice(), 0, k1);
    let f2 = copy_range(rest.as_slice(), k1 + 1, k2);
    let f3 = copy_range(rest.as_slice(), k2 + 1, k3);
    proof {
        assert(record_fields(s@) == Some((f1@, f2@, f3@)));
    }
    let iters = parse_u32(f1.as_slice());
    let salt = hex_decode(f2.as_slice());
    let hash = hex_decode(f3.as_slice());
    match (iters, salt, hash) {
        (Some(n), Some(sv), Some(hv)) => {
            let dk = pbkdf2_sha256(input.as_bytes(), sv.as_slice(), n);
            if dk.len() != hv.len() {
                return false;
            }
            let a = to_hex(dk.as_slice());
            let b = to_hex(hv.as_slice());
            let same = constant_time_eq(a.as_str(), b.as_str());
            proof {
                if same {
                    lemma_hex_of_injective(dk@, hv@);
                }
            }
            same
        },
        _ => false,
    }
}

fn push_decimal_bytes(out: &mut Vec<u8>, n: u64)
    ensures
        final(out)@ == old(out)@ + decimal_bytes(n as nat),
    decreases n,
{
    if n >= 10 {
        push_decimal_bytes(out, n / 10);
    }
    let d: u8 = (n % 10) as u8;
    out.push(48 + d);
    proof {
        assert(decimal_bytes(n as nat) =~= if n < 10 {
            seq![(48 + n) as u8]
        } else {
            decimal_bytes((n / 10) as nat).push((48 + n % 10) as u8)
        });
        assert(final(out)@ =~= old(out)@ + decimal_bytes(n as nat));
    }
}

proof fn lemma_decimal_bytes(n: nat)
    ensures
        decimal_bytes(n).len() >= 1,
        all_digits(decimal_bytes(n)),
        digits_value(decimal_bytes(n)) == n,
    decreases n,
{
    let d = decimal_bytes(n);
    if n < 10 {
        assert(d.drop_last() =~= Seq::<u8>::empty());
        assert(digits_value(d.drop_last()) == 0);
        assert(d.last() == 48 + n);
    } else {
        lemma_decimal_bytes(n / 10);
        let p = decimal_bytes(n / 10);
        assert(d.drop_last() =~= p);
        assert(d.last() == 48 + n % 10);
        assert(digits_value(d) == 10 * digits_value(p) + n % 10);
        assert(10 * (n / 10) + n % 10 == n);
        assert forall|i: int| 0 <= i < d.len() implies 48 <= #[trigger] d[i] <= 57 by {
            if i < p.len() {
                assert(d[i] == p[i]);
            }
        }
    }
}

proof fn lemma_find_byte_hit(b: Seq<u8>, c: u8, from: int, k: int)
    requires
        0 <= from <= k < b.len(),
        b[k] == c,
        forall|j: int| from <= j < k ==> b[j] != c,
    ensures
        find_byte(b, c, from) == k,
    decreases k - from,
{
    if from < k {
        lemma_find_byte_hit(b, c, from + 1, k);
    }
}

proof fn lemma_find_byte_miss(b: Seq<u8>, c: u8, from: int)
    requires
        0 <= from <= b.len(),
        forall|j: int| from <= j < b.len() ==> b[j] != c,
    ensures
        find_byte(b, c, from) == b.len(),
    decreases b.len() - from,
{
    if from < b.len() {
        lemma_find_byte_miss(b, c, from + 1);
    }
}

proof fn lemma_ascii_valid_utf8(s: Seq<u8>)
    requires
        forall|i: int| 0 <= i < s.len() ==> s[i] < 0x80,
    ensures
        valid_utf8(s),
{
    assert(valid_utf8(s.subrange(0, 0))) by {
        assert(s.subrange(0, 0).len() == 0);
    }
    assert(forall|i: int| 0 <= 0 <= i < s.len() <= s.len() ==> #[trigger] is_leading_byte_width_1(s[i]));
    partial_valid_utf8_extend_ascii_block(s, 0, s.len() as int);
    assert(s.subrange(0, s.len() as int) =~= s);
}

/// A record made from a password, a salt and an iteration count verifies
/// that password, and it can be checked without a cut inside a character.
pub proof fn lemma_record_verifies(password: Seq<char>, stored: Seq<char>, salt: Seq<u8>, iterations: u32)
    requires
        encode_utf8(stored) == password_record(encode_utf8(password), salt, iterations),
    ensures
        password_matches(password, stored),
        record_cuts_ok(stored),
{
    let s = encode_utf8(stored);
    let pre = record_prefix();
    let d = decimal_bytes(iterations as nat);
    let dk = pbkdf2_block(encode_utf8(password), salt, iterations as nat);
    let h1 = hex_bytes_of(salt);
    let h2 = hex_bytes_of(dk);
    lemma_decimal_bytes(iterations as nat);
    lemma_hex_bytes_of(salt);
    lemma_hex_bytes_of(dk);
    lemma_hex_roundtrip(salt);
    lemma_hex_roundtrip(dk);
    assert(s.subrange(0, 15) =~= pre);
    assert(has_record_prefix(s));
    let rest = s.subrange(15, s.len() as int);
    assert(rest =~= d + seq![36u8] + h1 + seq![36u8] + h2);
    let k1 = d.len() as int;
    let k2 = k1 + 1 + h1.len();
    assert(rest[k1] == 36u8);
    assert forall|j: int| 0 <= j < k1 implies rest[j] != 36u8 by {
        assert(rest[j] == d[j]);
    }
    lemma_find_byte_hit(rest, 36, 0, k1);
    assert(rest[k2] == 36u8);
    assert forall|j: int| k1 + 1 <= j < k2 implies rest[j] != 36u8 by {
        assert(rest[j] == h1[j - k1 - 1]);
    }
    lemma_find_byte_hit(rest, 36, k1 + 1, k2);
    assert forall|j: int| k2 + 1 <= j < rest.len() implies rest[j] != 36u8 by {
        assert(rest[j] == h2[j - k2 - 1]);
    }
    lemma_find_byte_miss(rest, 36, k2 + 1);
    assert(rest.subrange(0, k1) =~= d);
    assert(rest.subrange(k1 + 1, k2) =~= h1);
    assert(rest.subrange(k2 + 1, rest.len() as int) =~= h2);
    assert(record_fields(s) == Some((d, h1, h2)));
    assert(d[0] != 43u8);
    assert(parse_u32_bytes(d) == Some(iterations));
}

/// Hashes a password into a PBKDF2-HMAC-SHA256 record with a random 16-byte
/// salt: `$pbkdf2-sha256$<iterations>$<salt_hex>$<hash_hex>`.
pub fn hash_password(password: &str) -> (r: String)
    ensures
        exists|salt: Seq<u8>|
            salt.len() == 16 && encode_utf8(r@) == password_record(
                encode_utf8(password@),
                salt,
                PBKDF2_ITERATIONS,
            ),
        password_matches(password@, r@),
        record_cuts_ok(r@),
{
    let salt = random_bytes(16);
    let dk = pbkdf2_sha256(password.as_bytes(), salt.as_slice(), PBKDF2_ITERATIONS);
    let mut out: Vec<u8> = Vec::new();
    out.push(36);
    out.push(112);
    out.push(98);
    out.push(107);
    out.push(100);
    out.push(102);
    out.push(50);
    out.push(45);
    out.push(115);
    out.push(104);
    out.push(97);
    out.push(50);
    out.push(53);
    out.push(54);
    out.push(36);
    proof {
        assert(out@ =~= record_prefix());
    }
    push_decimal_bytes(&mut out, PBKDF2_ITERATIONS as u64);
    out.push(36);
    push_hex_bytes(&mut out, salt.as_slice());
    out.push(36);
    push_hex_bytes(&mut out, dk.as_slice());
    let ghost record = password_record(encode_utf8(password@), salt@, PBKDF2_ITERATIONS);
    proof {
        assert(out@ =~= record);
        lemma_decimal_bytes(PBKDF2_ITERATIONS as nat);
        lemma_hex_bytes_of(salt@);
        lemma_hex_bytes_of(dk@);
        let d = decimal_bytes(PBKDF2_ITERATIONS as nat);
        let h1 = hex_bytes_of(salt@);
        let h2 = hex_bytes_of(dk@);
        assert forall|i: int| 0 <= i < out@.len() implies out@[i] < 0x80 by {
            let a = 15 + d.len();
            let b = a + 1 + h1.len();
            if i < 15 {
            } else if i < a {
                assert(out@[i] == d[i - 15]);
            } else if i == a {
            } else if i < b {
                assert(out@[i] == h1[i - a - 1]);
            } else if i == b {
            } else {
                assert(out@[i] == h2[i - b - 1]);
            }
        }
        lemma_ascii_valid_utf8(out@);
    }
    match utf8_to_string(out) {
        Ok(text) => {
            proof {
                lemma_record_verifies(password@, text@, salt@, PBKDF2_ITERATIONS);
            }
            text
        },
        Err(_) => {
            proof {
                assert(false);
            }
            String::new()
        },
    }
}

} // verus!
