//! Server-side authentication: handshake verification, client id validation and
//! the client IP allowlist.

use vstd::prelude::*;
use vstd::utf8::encode_utf8;
use crate::common::error::ZorvError;
use crate::common::text::{char_index, char_slice, find_char, str_eq};
use crate::server::admin::request::{all_digit_chars, digit_chars_value, parse_usize, parse_usize_chars};
use crate::protocol::handshake::{auth_result, handshake_verdict, verify_handshake, HandshakeReq};

verus! {

/// Validates the handshake request: checks HMAC-SHA256 and the timestamp window
/// at the current time (see `verify_handshake_at`).
pub fn authenticate(req: &HandshakeReq, expected_token: &str) -> (r: Result<(), ZorvError>)
    ensures
        exists|now: u64|
            auth_result(r, handshake_verdict(req.timestamp, req.hmac@, expected_token@, now)),
{
    verify_handshake(req, expected_token)
}

/// Whether a byte may appear in a client id: ASCII letter, digit, `-` or `_`.
pub open spec fn client_id_byte(b: u8) -> bool {
    (48 <= b <= 57) || (65 <= b <= 90) || (97 <= b <= 122) || b == 45 || b == 95
}

/// Client id naming rule: 1 to 64 bytes, each an ASCII letter, digit, `-` or `_`.
/// (A non-ASCII character is encoded with bytes above 0x7F, so it is refused.)
pub open spec fn valid_client_id(id: Seq<char>) -> bool {
    let b = encode_utf8(id);
    &&& 1 <= b.len() <= 64
    &&& forall|i: int| 0 <= i < b.len() ==> client_id_byte(#[trigger] b[i])
}

/// Validates the `client_id` reported by the client: length 1..=64, and only
/// ASCII letters, digits, `-` and `_`. Special characters, whitespace and
/// non-ASCII characters are rejected, which also keeps the id safe for the
/// admin UI.
pub fn validate_client_id(id: &str) -> (ok: bool)
    ensures
        ok == valid_client_id(id@),
{
    let b = id.as_bytes();
    if b.len() == 0 || b.len() > 64 {
        return false;
    }
    let mut i: usize = 0;
    while i < b.len()
        invariant
            b@ == encode_utf8(id@),
            i <= b@.len(),
            forall|j: int| 0 <= j < i ==> client_id_byte(#[trigger] b@[j]),
        decreases b@.len() - i,
    {
        let c = b[i];
        let allowed = (48 <= c && c <= 57) || (65 <= c && c <= 90) || (97 <= c && c <= 122) || c
            == 45 || c == 95;
        if !allowed {
            proof {
                assert(!client_id_byte(b@[i as int]));
            }
            return false;
        }
        i = i + 1;
    }
    true
}

} // verus!

verus! {

/// A connecting peer's address as the allowlist reads it: its text form and,
/// for an IPv4 address, its 32-bit value (big-endian octets).
#[derive(Debug)]
pub struct PeerIp {
    pub text: String,
    pub v4: Option<u32>,
}

/// An IPv4 octet as the standard parser reads it: one to three ASCII digits,
/// no leading zero unless the octet is `0`, value at most 255.
pub open spec fn octet_of(s: Seq<char>) -> Option<u32> {
    if 1 <= s.len() <= 3 && all_digit_chars(s) && !(s.len() > 1 && s[0] == '0')
        && digit_chars_value(s) <= 255 {
        Some(digit_chars_value(s) as u32)
    } else {
        None
    }
}

/// A dotted-quad IPv4 address (`a.b.c.d`) as a 32-bit value, `a` highest.
pub open spec fn ipv4_of(s: Seq<char>) -> Option<u32> {
    let d1 = char_index(s, '.', 0);
    let d2 = char_index(s, '.', d1 + 1);
    let d3 = char_index(s, '.', d2 + 1);
    let d4 = char_index(s, '.', d3 + 1);
    if d1 >= s.len() || d2 >= s.len() || d3 >= s.len() || d4 < s.len() {
        None
    } else {
        match (
            octet_of(s.subrange(0, d1)),
            octet_of(s.subrange(d1 + 1, d2)),
            octet_of(s.subrange(d2 + 1, d3)),
            octet_of(s.subrange(d3 + 1, s.len() as int)),
        ) {
            (Some(a), Some(b), Some(c), Some(d)) => Some(
                (a * 16777216 + b * 65536 + c * 256 + d) as u32,
            ),
            _ => None,
        }
    }
}

/// The network mask of a prefix length (at most 32).
pub open spec fn prefix_mask(prefix: u32) -> u32 {
    if prefix == 0 {
        0
    } else {
        (0xffff_ffffu32 << ((32 - prefix) as u32)) as u32
    }
}

/// Whether one allowlist rule admits the peer: `base/prefix` admits IPv4
/// peers in that network (a base or prefix that does not parse, or a prefix
/// above 32, admits nobody); any other rule admits the peer whose text it is.
pub open spec fn rule_admits(rule: Seq<char>, peer_text: Seq<char>, peer_v4: Option<u32>) -> bool {
    let k = char_index(rule, '/', 0);
    if k < rule.len() {
        match (
            ipv4_of(rule.subrange(0, k)),
            parse_usize_chars(rule.subrange(k + 1, rule.len() as int)),
        ) {
            (Some(base), Some(p)) => p <= 32 && match peer_v4 {
                Some(v) => (v & prefix_mask(p as u32)) == (base & prefix_mask(p as u32)),
                None => false,
            },
            _ => false,
        }
    } else {
        rule == peer_text
    }
}

proof fn lemma_mask_compares_top_bits(v: u32, b: u32, s: u32)
    requires
        s < 32,
    ensures
        ((v & (0xffff_ffffu32 << s)) == (b & (0xffff_ffffu32 << s))) == ((v >> s) == (b >> s)),
{
    assert(s < 32 ==> ((v & (0xffff_ffffu32 << s)) == (b & (0xffff_ffffu32 << s))) == ((v >> s) == (b
        >> s))) by (bit_vector);
}

/// A CIDR rule `base/p` (a parsed base and a prefix length `p` of at most 32)
/// admits an IPv4 peer exactly when the peer's top `p` bits are the base's top
/// `p` bits; `/0` admits every IPv4 peer, and no rule of this form admits a peer
/// without an IPv4 address.
pub proof fn lemma_cidr_rule_admits(rule: Seq<char>, peer_text: Seq<char>, v: u32, base: u32, p: usize)
    requires
        char_index(rule, '/', 0) < rule.len(),
        ipv4_of(rule.subrange(0, char_index(rule, '/', 0))) == Some(base),
        parse_usize_chars(rule.subrange(char_index(rule, '/', 0) + 1, rule.len() as int)) == Some(p),
        p <= 32,
    ensures
        rule_admits(rule, peer_text, Some(v)) <==> (p == 0 || v >> ((32 - p) as u32) == base >> ((32
            - p) as u32)),
        !rule_admits(rule, peer_text, None),
{
    if p > 0 {
        lemma_mask_compares_top_bits(v, base, (32 - p) as u32);
    } else {
        assert(v & 0u32 == 0u32 && base & 0u32 == 0u32) by (bit_vector);
    }
}

fn parse_octet(s: &str, from: usize, to: usize) -> (r: Option<u32>)
    requires
        from <= to <= s@.len(),
    ensures
        r == octet_of(s@.subrange(from as int, to as int)),
{
    let part = char_slice(s, from, to);
    let n = part.as_str().unicode_len();
    if n < 1 || n > 3 {
        return None;
    }
    if n > 1 && part.as_str().get_char(0) == '0' {
        proof {
            assert(part@[0] == '0');
        }
        return None;
    }
    match parse_usize(part.as_str()) {
        Some(v) => {
            if part.as_str().get_char(0) == '+' {
                proof {
                    assert(!all_digit_chars(part@)) by {
                        assert(part@[0] == '+');
                    }
                }
                return None;
            }
            proof {
                assert(part@.subrange(0, part@.len() as int) =~= part@);
            }
            if v > 255 {
                None
            } else {
                Some(v as u32)
            }
        },
        None => {
            proof {
                if all_digit_chars(part@) {
                    assert(part@[0] != '+');
                }
            }
            None
        },
    }
}

/// Parses a dotted-quad IPv4 address (see `ipv4_of`).
pub fn parse_ipv4(s: &str) -> (r: Option<u32>)
    ensures
        r == ipv4_of(s@),
{
    let n = s.unicode_len();
    let d1 = find_char(s, '.', 0);
    if d1 >= n {
        return None;
    }
    let d2 = find_char(s, '.', d1 + 1);
    if d2 >= n {
        return None;
    }
    let d3 = find_char(s, '.', d2 + 1);
    if d3 >= n {
        return None;
    }
    let d4 = find_char(s, '.', d3 + 1);
    if d4 < n {
        return None;
    }
    match (
        parse_octet(s, 0, d1),
        parse_octet(s, d1 + 1, d2),
        parse_octet(s, d2 + 1, d3),
        parse_octet(s, d3 + 1, n),
    ) {
        (Some(a), Some(b), Some(c), Some(d)) => Some(a * 16777216 + b * 65536 + c * 256 + d),
        _ => None,
    }
}

/// Whether one allowlist rule admits the peer (see `rule_admits`).
pub fn rule_allows(rule: &str, peer: &PeerIp) -> (r: bool)
    ensures
        r == rule_admits(rule@, peer.text@, peer.v4),
{
    let n = rule.unicode_len();
    let k = find_char(rule, '/', 0);
    if k < n {
        let base_text = char_slice(rule, 0, k);
        let prefix_text = char_slice(rule, k + 1, n);
        let base = match parse_ipv4(base_text.as_str()) {
            Some(b) => b,
            None => return false,
        };
        let prefix = match parse_usize(prefix_text.as_str()) {
            Some(p) => p,
            None => return false,
        };
        if prefix > 32 {
            return false;
        }
        let p = prefix as u32;
        let mask: u32 = if p == 0 {
            0
        } else {
            0xffff_ffffu32 << (32 - p)
        };
        match peer.v4 {
            Some(v) => (v & mask) == (base & mask),
            None => false,
        }
    } else {
        str_eq(rule, peer.text.as_str())
    }
}

/// Checks whether the peer is in the allowlist: some rule is its exact text or
/// an IPv4 network (`a.b.c.d/prefix`) that holds it.
pub fn ip_allowed(peer: &PeerIp, allowed: &[String]) -> (r: bool)
    ensures
        r == exists|i: int| 0 <= i < allowed@.len() && rule_admits(#[trigger] allowed@[i]@, peer.text@, peer.v4),
{
    let mut i: usize = 0;
    while i < allowed.len()
        invariant
            i <= allowed@.len(),
            forall|j: int| 0 <= j < i ==> !rule_admits(#[trigger] allowed@[j]@, peer.text@, peer.v4),
        decreases allowed@.len() - i,
    {
        if rule_allows(allowed[i].as_str(), peer) {
            return true;
        }
        i = i + 1;
    }
    false
}

} // verus!
