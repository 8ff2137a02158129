//! The head of an HTTP request to the admin console: where it ends in the
//! received bytes, and what the console reads from it (method, target,
//! `Content-Length` and the `session` and `captcha` cookies).
//!
//! The head is decoded lossily as UTF-8, split into lines at `\r\n`; the
//! request line is split at whitespace, and header values are trimmed of
//! whitespace, where whitespace is the Unicode `White_Space` set that
//! `char::is_whitespace` documents.

use vstd::prelude::*;
use crate::common::text::{
    char_slice, has_prefix, push_char, starts_with, bytes_to_text, text_of_bytes,
};

verus! {

/// Upper bound on the bytes read while looking for the end of the head.
pub const MAX_HEAD_BYTES: usize = 16384;

/// Unicode `White_Space` (what `char::is_whitespace` tests).
pub open spec fn is_ws(c: char) -> bool {
    ||| '\u{9}' <= c <= '\u{d}'
    ||| c == ' '
    ||| c == '\u{85}'
    ||| c == '\u{a0}'
    ||| c == '\u{1680}'
    ||| '\u{2000}' <= c <= '\u{200a}'
    ||| c == '\u{2028}'
    ||| c == '\u{2029}'
    ||| c == '\u{202f}'
    ||| c == '\u{205f}'
    ||| c == '\u{3000}'
}

fn is_whitespace(c: char) -> (r: bool)
    ensures
        r == is_ws(c),
{
    ('\u{9}' <= c && c <= '\u{d}') || c == ' ' || c == '\u{85}' || c == '\u{a0}' || c == '\u{1680}'
        || ('\u{2000}' <= c && c <= '\u{200a}') || c == '\u{2028}' || c == '\u{2029}' || c
        == '\u{202f}' || c == '\u{205f}' || c == '\u{3000}'
}

/// The first index at or after `from` whose character is not whitespace (or the length).
pub open spec fn skip_ws(s: Seq<char>, from: int) -> int
    decreases s.len() - from,
{
    if from < 0 || from >= s.len() {
        s.len() as int
    } else if !is_ws(s[from]) {
        from
    } else {
        skip_ws(s, from + 1)
    }
}

/// The first index at or after `from` whose character is whitespace (or the length).
pub open spec fn token_end(s: Seq<char>, from: int) -> int
    decreases s.len() - from,
{
    if from < 0 || from >= s.len() {
        s.len() as int
    } else if is_ws(s[from]) {
        from
    } else {
        token_end(s, from + 1)
    }
}

/// The end of `s[..to]` once trailing whitespace is removed.
pub open spec fn trim_end_at(s: Seq<char>, to: int) -> int
    decreases to,
{
    if to <= 0 || to > s.len() {
        0
    } else if !is_ws(s[to - 1]) {
        to
    } else {
        trim_end_at(s, to - 1)
    }
}

/// `s` without leading and trailing whitespace (`str::trim`).
pub open spec fn trimmed(s: Seq<char>) -> Seq<char> {
    let a = skip_ws(s, 0);
    let b = trim_end_at(s, s.len() as int);
    if a >= b {
        Seq::empty()
    } else {
        s.subrange(a, b)
    }
}

fn skip_whitespace(s: &str, from: usize) -> (k: usize)
    requires
        from <= s@.len(),
    ensures
        k == skip_ws(s@, from as int),
        from <= k <= s@.len(),
{
    let n = s.unicode_len();
    let mut i = from;
    while i < n
        invariant
            n == s@.len(),
            from <= i <= n,
            skip_ws(s@, from as int) == skip_ws(s@, i as int),
        decreases n - i,
    {
        if !is_whitespace(s.get_char(i)) {
            return i;
        }
        i = i + 1;
    }
    i
}

fn find_token_end(s: &str, from: usize) -> (k: usize)
    requires
        from <= s@.len(),
    ensures
        k == token_end(s@, from as int),
        from <= k <= s@.len(),
{
    let n = s.unicode_len();
    let mut i = from;
    while i < n
        invariant
            n == s@.len(),
            from <= i <= n,
            token_end(s@, from as int) == token_end(s@, i as int),
        decreases n - i,
    {
        if is_whitespace(s.get_char(i)) {
            return i;
        }
        i = i + 1;
    }
    i
}

proof fn lemma_trim_end_bounds(s: Seq<char>, to: int)
    requires
        0 <= to <= s.len(),
    ensures
        0 <= trim_end_at(s, to) <= to,
    decreases to,
{
    if to > 0 && is_ws(s[to - 1]) {
        lemma_trim_end_bounds(s, to - 1);
    }
}

proof fn lemma_skip_ws_bounds(s: Seq<char>, from: int)
    requires
        0 <= from <= s.len(),
    ensures
        from <= skip_ws(s, from) <= s.len(),
    decreases s.len() - from,
{
    if from < s.len() && is_ws(s[from]) {
        lemma_skip_ws_bounds(s, from + 1);
    }
}

/// Removes leading and trailing whitespace (`str::trim`).
pub fn trim(s: &str) -> (r: String)
    ensures
        r@ == trimmed(s@),
{
    let n = s.unicode_len();
    let a = skip_whitespace(s, 0);
    let mut b = n;
    while b > 0 && is_whitespace(s.get_char(b - 1))
        invariant
            n == s@.len(),
            b <= n,
            trim_end_at(s@, n as int) == trim_end_at(s@, b as int),
        decreases b,
    {
        b = b - 1;
    }
    proof {
        lemma_trim_end_bounds(s@, n as int);
    }
    if a >= b {
        String::new()
    } else {
        char_slice(s, a, b)
    }
}

/// The fields of a request head that the console reads, as values.
pub struct HeadFields {
    pub content_length: usize,
    pub session: Option<Seq<char>>,
    pub captcha: Option<Seq<char>>,
}

/// The value of a string of ASCII decimal digits.
pub open spec fn digit_chars_value(s: Seq<char>) -> nat
    decreases s.len(),
{
    if s.len() == 0 {
        0
    } else {
        10 * digit_chars_value(s.drop_last()) + (s.last() as nat - 48) as nat
    }
}

/// Whether every character is an ASCII decimal digit.
pub open spec fn all_digit_chars(s: Seq<char>) -> bool {
    forall|i: int| 0 <= i < s.len() ==> '0' <= #[trigger] s[i] <= '9'
}

/// What `str::parse::<usize>` gives: an optional `+`, then at least one ASCII
/// digit, with a value that fits in `usize`.
pub open spec fn parse_usize_chars(s: Seq<char>) -> Option<usize> {
    let d = if s.len() > 0 && s[0] == '+' {
        s.subrange(1, s.len() as int)
    } else {
        s
    };
    if d.len() > 0 && all_digit_chars(d) && digit_chars_value(d) <= usize::MAX {
        Some(digit_chars_value(d) as usize)
    } else {
        None
    }
}

proof fn lemma_digit_chars_prefix(s: Seq<char>, j: int)
    requires
        all_digit_chars(s),
        0 <= j <= s.len(),
    ensures
        digit_chars_value(s.subrange(0, j)) <= digit_chars_value(s),
    decreases s.len(),
{
    if j < s.len() {
        let t = s.drop_last();
        assert(all_digit_chars(t)) by {
            assert forall|i: int| 0 <= i < t.len() implies '0' <= #[trigger] t[i] <= '9' by {
                assert(t[i] == s[i]);
            }
        }
        lemma_digit_chars_prefix(t, j);
        assert(t.subrange(0, j) =~= s.subrange(0, j));
    } else {
        assert(s.subrange(0, j) =~= s);
    }
}

/// Parses a `usize` as `str::parse::<usize>` does.
pub fn parse_usize(s: &str) -> (r: Option<usize>)
    ensures
        r == parse_usize_chars(s@),
{
    let n = s.unicode_len();
    let start: usize = if n > 0 && s.get_char(0) == '+' {
        1
    } else {
        0
    };
    let ghost d = if s@.len() > 0 && s@[0] == '+' {
        s@.subrange(1, s@.len() as int)
    } else {
        s@
    };
    assert(d =~= s@.subrange(start as int, n as int));
    if start == n {
        return None;
    }
    let mut v: usize = 0;
    let mut i: usize = start;
    while i < n
        invariant
            n == s@.len(),
            start <= i <= n,
            start < n,
            d == s@.subrange(start as int, n as int),
            d == (if s@.len() > 0 && s@[0] == '+' {
                s@.subrange(1, s@.len() as int)
            } else {
                s@
            }),
            all_digit_chars(d.subrange(0, i - start)),
            v == digit_chars_value(d.subrange(0, i - start)),
        decreases n - i,
    {
        let c = s.get_char(i);
        let ghost p = d.subrange(0, i - start + 1);
        proof {
            assert(p.drop_last() =~= d.subrange(0, i - start));
            assert(p.last() == c);
        }
        if c < '0' || c > '9' {
            proof {
                assert(d[i - start] == c);
                assert(!all_digit_chars(d));
            }
            return None;
        }
        let digit: usize = ((c as u32) - 48) as usize;
        proof {
            assert(all_digit_chars(p)) by {
                assert forall|j: int| 0 <= j < p.len() implies '0' <= #[trigger] p[j] <= '9' by {
                    if j < p.len() - 1 {
                        assert(p[j] == d.subrange(0, i - start)[j]);
                    }
                }
            }
            assert(digit_chars_value(p) == 10 * v + digit);
        }
        if v > (usize::MAX - digit) / 10 {
            proof {
                assert(10 * v + digit > usize::MAX) by (nonlinear_arith)
                    requires
                        v > (usize::MAX - digit) / 10,
                        digit <= 9,
                ;
                if all_digit_chars(d) {
                    lemma_digit_chars_prefix(d, i - start + 1);
                }
            }
            return None;
        }
        proof {
            assert(10 * v + digit <= usize::MAX) by (nonlinear_arith)
                requires
                    v <= (usize::MAX - digit) / 10,
                    digit <= 9,
            ;
        }
        v = v * 10 + digit;
        i = i + 1;
    }
    proof {
        assert(d.subrange(0, i - start) =~= d);
    }
    Some(v)
}

/// A `Cookie:` value read from `from` on: each `;`-separated part, trimmed,
/// that starts with `session=` or `captcha=` sets that cookie to the trimmed
/// rest; a later part wins.
pub open spec fn cookies_from(v: Seq<char>, from: int, acc: HeadFields) -> HeadFields
    decreases v.len() - from,
{
    if from < 0 || from > v.len() {
        acc
    } else {
        let e = crate::common::text::char_index(v, ';', from);
        let part = trimmed(v.subrange(from, e));
        let next = if has_prefix(part, "session="@) {
            HeadFields {
                session: Some(trimmed(part.subrange(8, part.len() as int))),
                ..acc
            }
        } else if has_prefix(part, "captcha="@) {
            HeadFields {
                captcha: Some(trimmed(part.subrange(8, part.len() as int))),
                ..acc
            }
        } else {
            acc
        };
        if e >= v.len() {
            next
        } else {
            proof {
                crate::common::text::lemma_char_index_bounds(v, ';', from);
            }
            cookies_from(v, e + 1, next)
        }
    }
}

/// The session token of an `Authorization:` value: the trimmed rest after
/// `Bearer `, when the trimmed value starts with it.
pub open spec fn bearer_token(v: Seq<char>) -> Option<Seq<char>> {
    let t = trimmed(v);
    if has_prefix(t, "Bearer "@) {
        Some(trimmed(t.subrange(7, t.len() as int)))
    } else {
        None
    }
}

/// How one header line changes what has been read: `Content-Length:` (or
/// `content-length:`) sets the length (0 when it does not parse), `Cookie:`
/// reads the cookies, `Authorization: Bearer <token>` (or `authorization:`)
/// sets the session to the token, any other line changes nothing. A later line
/// wins.
pub open spec fn apply_line(acc: HeadFields, line: Seq<char>) -> HeadFields {
    if has_prefix(line, "Content-Length:"@) || has_prefix(line, "content-length:"@) {
        let v = trimmed(line.subrange(15, line.len() as int));
        HeadFields {
            content_length: match parse_usize_chars(v) {
                Some(n) => n,
                None => 0,
            },
            ..acc
        }
    } else if has_prefix(line, "Cookie:"@) {
        cookies_from(line.subrange(7, line.len() as int), 0, acc)
    } else if has_prefix(line, "Authorization:"@) || has_prefix(line, "authorization:"@) {
        match bearer_token(line.subrange(14, line.len() as int)) {
            Some(token) => HeadFields { session: Some(token), ..acc },
            None => acc,
        }
    } else {
        acc
    }
}

/// The first index at or after `from` where `\r\n` starts, or the length.
pub open spec fn crlf_index(t: Seq<char>, from: int) -> int
    decreases t.len() - from,
{
    if from < 0 || from + 1 >= t.len() {
        t.len() as int
    } else if t[from] == '\r' && t[from + 1] == '\n' {
        from
    } else {
        crlf_index(t, from + 1)
    }
}

/// `crlf_index` lies between `from` and the length, and a found `\r\n` fits.
pub proof fn lemma_crlf_bounds(t: Seq<char>, from: int)
    requires
        0 <= from <= t.len(),
    ensures
        from <= crlf_index(t, from) <= t.len(),
        crlf_index(t, from) < t.len() ==> crlf_index(t, from) + 2 <= t.len(),
    decreases t.len() - from,
{
    if from + 1 < t.len() && !(t[from] == '\r' && t[from + 1] == '\n') {
        lemma_crlf_bounds(t, from + 1);
    }
}

/// The header lines from index `from` on, applied in order to `acc`.
pub open spec fn headers_from(t: Seq<char>, from: int, acc: HeadFields) -> HeadFields
    decreases t.len() - from,
{
    if from < 0 || from > t.len() {
        acc
    } else {
        let e = crlf_index(t, from);
        let next = apply_line(acc, t.subrange(from, e));
        if e >= t.len() {
            next
        } else {
            proof {
                lemma_crlf_bounds(t, from);
            }
            headers_from(t, e + 2, next)
        }
    }
}

/// What a request head says, as values.
pub struct HeadView {
    pub method: Seq<char>,
    pub target: Seq<char>,
    pub fields: HeadFields,
}

/// The request head read from its text: the first line holds at least two
/// whitespace-separated words, the method and the target; the other lines are
/// headers. `None` when the first line has fewer than two words.
pub open spec fn head_of(t: Seq<char>) -> Option<HeadView> {
    let e = crlf_index(t, 0);
    let line = t.subrange(0, e);
    let a = skip_ws(line, 0);
    let b = token_end(line, a);
    let c = skip_ws(line, b);
    let d = token_end(line, c);
    if a >= line.len() || c >= line.len() {
        None
    } else {
        let start = HeadFields { content_length: 0, session: None, captcha: None };
        Some(
            HeadView {
                method: line.subrange(a, b),
                target: line.subrange(c, d),
                fields: if e >= t.len() {
                    start
                } else {
                    headers_from(t, e + 2, start)
                },
            },
        )
    }
}

/// A parsed request head.
#[derive(Debug)]
pub struct RequestHead {
    pub method: String,
    pub path: String,
    pub content_length: usize,
    /// The session: the `session` cookie or the `Authorization: Bearer` token,
    /// whichever comes last.
    pub session: Option<String>,
    /// The `captcha` cookie.
    pub captcha: Option<String>,
}

/// The text of an optional string.
pub open spec fn opt_text(o: Option<String>) -> Option<Seq<char>> {
    match o {
        Some(s) => Some(s@),
        None => None,
    }
}

impl RequestHead {
    /// The head as values.
    pub open spec fn head_view(&self) -> HeadView {
        HeadView {
            method: self.method@,
            target: self.path@,
            fields: HeadFields {
                content_length: self.content_length,
                session: opt_text(self.session),
                captcha: opt_text(self.captcha),
            },
        }
    }
}

/// The first index at or after `from` where `\r\n` starts, or the length.
fn find_crlf(t: &str, from: usize) -> (k: usize)
    requires
        from <= t@.len(),
    ensures
        k == crlf_index(t@, from as int),
        from <= k <= t@.len(),
        k < t@.len() ==> k + 2 <= t@.len(),
{
    proof {
        lemma_crlf_bounds(t@, from as int);
    }
    let n = t.unicode_len();
    let mut i = from;
    while i < n && n - i > 1
        invariant
            n == t@.len(),
            from <= i <= n,
            crlf_index(t@, from as int) == crlf_index(t@, i as int),
        decreases n - i,
    {
        if t.get_char(i) == '\r' && t.get_char(i + 1) == '\n' {
            return i;
        }
        i = i + 1;
    }
    n
}

/// Reads the cookies of a `Cookie:` value into `session` and `captcha`.
fn read_cookies(v: &str, length: usize, session: &mut Option<String>, captcha: &mut Option<String>)
    ensures
        ({
            let acc = HeadFields {
                content_length: length,
                session: opt_text(*old(session)),
                captcha: opt_text(*old(captcha)),
            };
            let r = cookies_from(v@, 0, acc);
            &&& opt_text(*final(session)) == r.session
            &&& opt_text(*final(captcha)) == r.captcha
            &&& r.content_length == length
        }),
{
    let ghost acc0 = HeadFields {
        content_length: length,
        session: opt_text(*session),
        captcha: opt_text(*captcha),
    };
    let n = v.unicode_len();
    let mut from: usize = 0;
    loop
        invariant
            n == v@.len(),
            from <= n,
            acc0 == (HeadFields {
                content_length: length,
                session: opt_text(*old(session)),
                captcha: opt_text(*old(captcha)),
            }),
            cookies_from(v@, 0, acc0) == cookies_from(
                v@,
                from as int,
                HeadFields {
                    content_length: length,
                    session: opt_text(*session),
                    captcha: opt_text(*captcha),
                },
            ),
        decreases n - from,
    {
        let ghost cur = HeadFields {
            content_length: length,
            session: opt_text(*session),
            captcha: opt_text(*captcha),
        };
        let e = crate::common::text::find_char(v, ';', from);
        let raw = char_slice(v, from, e);
        let part = trim(raw.as_str());
        let plen = part.unicode_len();
        let ghost next = if has_prefix(part@, "session="@) {
            HeadFields { session: Some(trimmed(part@.subrange(8, part@.len() as int))), ..cur }
        } else if has_prefix(part@, "captcha="@) {
            HeadFields { captcha: Some(trimmed(part@.subrange(8, part@.len() as int))), ..cur }
        } else {
            cur
        };
        if starts_with(part.as_str(), "session=") {
            proof {
                reveal_strlit("session=");
            }
            let rest = char_slice(part.as_str(), 8, plen);
            *session = Some(trim(rest.as_str()));
        } else if starts_with(part.as_str(), "captcha=") {
            proof {
                reveal_strlit("captcha=");
            }
            let rest = char_slice(part.as_str(), 8, plen);
            *captcha = Some(trim(rest.as_str()));
        }
        proof {
            assert(next == (HeadFields {
                content_length: length,
                session: opt_text(*session),
                captcha: opt_text(*captcha),
            }));
            assert(cookies_from(v@, from as int, cur) == if e >= n {
                next
            } else {
                cookies_from(v@, e + 1, next)
            });
        }
        if e >= n {
            return ;
        }
        from = e + 1;
    }
}

/// The session token of an `Authorization:` value (see `bearer_token`).
fn read_bearer(v: &str) -> (r: Option<String>)
    ensures
        opt_text(r) == bearer_token(v@),
{
    let t = trim(v);
    if starts_with(t.as_str(), "Bearer ") {
        proof {
            reveal_strlit("Bearer ");
        }
        let rest = char_slice(t.as_str(), 7, t.unicode_len());
        Some(trim(rest.as_str()))
    } else {
        None
    }
}

/// Reads the fields of a request head from its text (see `head_of`).
pub fn parse_head_text(t: &str) -> (r: Option<RequestHead>)
    ensures
        match r {
            Some(h) => head_of(t@) == Some(h.head_view()),
            None => head_of(t@) is None,
        },
{
    let n = t.unicode_len();
    let e = find_crlf(t, 0);
    let line_string = char_slice(t, 0, e);
    let line = line_string.as_str();
    let ln = line.unicode_len();
    let a = skip_whitespace(line, 0);
    let b = find_token_end(line, a);
    let c = skip_whitespace(line, b);
    let d = find_token_end(line, c);
    if a >= ln || c >= ln {
        return None;
    }
    let method = char_slice(line, a, b);
    let path = char_slice(line, c, d);
    let mut content_length: usize = 0;
    let mut session: Option<String> = None;
    let mut captcha: Option<String> = None;
    let ghost start = HeadFields { content_length: 0, session: None, captcha: None };
    let ghost fields = if e >= n {
        start
    } else {
        headers_from(t@, e + 2, start)
    };
    if e < n {
        let mut from: usize = e + 2;
        loop
            invariant_except_break
                n == t@.len(),
                from <= n,
                fields == headers_from(
                    t@,
                    from as int,
                    HeadFields {
                        content_length,
                        session: opt_text(session),
                        captcha: opt_text(captcha),
                    },
                ),
            ensures
                fields == (HeadFields {
                    content_length,
                    session: opt_text(session),
                    captcha: opt_text(captcha),
                }),
            decreases n - from,
        {
            let le = find_crlf(t, from);
            let line_text = char_slice(t, from, le);
            let l = line_text.as_str();
            let lsize = l.unicode_len();
            if starts_with(l, "Content-Length:") || starts_with(l, "content-length:") {
                proof {
                    reveal_strlit("Content-Length:");
                    reveal_strlit("content-length:");
                }
                let raw = char_slice(l, 15, lsize);
                let value = trim(raw.as_str());
                content_length = match parse_usize(value.as_str()) {
                    Some(v) => v,
                    None => 0,
                };
            } else if starts_with(l, "Cookie:") {
                proof {
                    reveal_strlit("Cookie:");
                }
                let raw = char_slice(l, 7, lsize);
                read_cookies(raw.as_str(), content_length, &mut session, &mut captcha);
            } else if starts_with(l, "Authorization:") || starts_with(l, "authorization:") {
                proof {
                    reveal_strlit("Authorization:");
                    reveal_strlit("authorization:");
                }
                let raw = char_slice(l, 14, lsize);
                if let Some(token) = read_bearer(raw.as_str()) {
                    session = Some(token);
                }
            }
            if le >= n {
                proof {
                    assert(line_text@ == t@.subrange(from as int, le as int));
                }
                break;
            }
            from = le + 2;
        }
    }
    Some(RequestHead { method, path, content_length, session, captcha })
}

/// Reads the fields of a request head from the text of its bytes (decoded
/// lossily only where they are not UTF-8).
pub fn parse_request_head(head: &[u8]) -> (r: Option<RequestHead>)
    ensures
        match r {
            Some(h) => head_of(text_of_bytes(head@)) == Some(h.head_view()),
            None => head_of(text_of_bytes(head@)) is None,
        },
{
    let text = bytes_to_text(head);
    parse_head_text(text.as_str())
}

/// The first index at or after `from` where `\r\n\r\n` starts, or the length.
pub open spec fn blank_line_index(b: Seq<u8>, from: int) -> int
    decreases b.len() - from,
{
    if from < 0 || from + 3 >= b.len() {
        b.len() as int
    } else if b[from] == 13 && b[from + 1] == 10 && b[from + 2] == 13 && b[from + 3] == 10 {
        from
    } else {
        blank_line_index(b, from + 1)
    }
}

/// The length of the head within the received bytes: up to and including the
/// first `\r\n\r\n`; `None` while there is none.
pub fn find_head_end(buf: &[u8]) -> (r: Option<usize>)
    ensures
        match r {
            Some(k) => blank_line_index(buf@, 0) < buf@.len() && k == blank_line_index(buf@, 0) + 4,
            None => blank_line_index(buf@, 0) == buf@.len(),
        },
{
    let n = buf.len();
    let mut i: usize = 0;
    while n >= 4 && i <= n - 4
        invariant
            n == buf@.len(),
            blank_line_index(buf@, 0) == blank_line_index(buf@, i as int),
        decreases n - i,
    {
        if buf[i] == 13 && buf[i + 1] == 10 && buf[i + 2] == 13 && buf[i + 3] == 10 {
            return Some(i + 4);
        }
        i = i + 1;
    }
    None
}

} // verus!
