//! Event notification: where a webhook URL points, the HTTP/1.1 request head
//! of a JSON `POST` to it, and the body of the client-offline event.
//!
//! Sending the request (TCP, optional TLS) is left to the binary.

use vstd::prelude::*;
use vstd::utf8::*;
use crate::common::error::{push_str, ZorvError};
use crate::common::text::{char_index, char_slice, decimal, find_char, push_decimal, str_bytes};
use crate::common::wire::put_slice;
use crate::server::admin::request::{parse_usize, parse_usize_chars};
use crate::server::admin::response::{json_string, json_string_of};

verus! {

/// Where a webhook request goes.
#[derive(Debug)]
pub struct WebhookTarget {
    /// `https` (in any case) was asked for.
    pub tls: bool,
    pub host: String,
    pub port: u16,
    /// The request path, `/` at least.
    pub path: String,
}

/// The first index at or after `from` where `://` starts, or the length.
pub open spec fn scheme_sep_index(s: Seq<char>, from: int) -> int
    decreases s.len() - from,
{
    if from < 0 || from + 2 >= s.len() {
        s.len() as int
    } else if s[from] == ':' && s[from + 1] == '/' && s[from + 2] == '/' {
        from
    } else {
        scheme_sep_index(s, from + 1)
    }
}

/// The last index below `to` where `s` holds `c`, or -1.
pub open spec fn last_char_index(s: Seq<char>, c: char, to: int) -> int
    decreases to,
{
    if to <= 0 || to > s.len() {
        -1
    } else if s[to - 1] == c {
        to - 1
    } else {
        last_char_index(s, c, to - 1)
    }
}

/// ASCII lower-case of a character.
pub open spec fn ascii_lower(c: char) -> char {
    if 'A' <= c <= 'Z' {
        ((c as u32) + 32) as char
    } else {
        c
    }
}

/// Equality ignoring ASCII case (`str::eq_ignore_ascii_case`).
pub open spec fn eq_ignore_ascii_case(a: Seq<char>, b: Seq<char>) -> bool {
    a.len() == b.len() && forall|i: int| 0 <= i < a.len() ==> ascii_lower(#[trigger] a[i]) == ascii_lower(b[i])
}

/// The fields of a webhook URL, as values: TLS flag, host, port and path.
pub struct UrlView {
    pub tls: bool,
    pub host: Seq<char>,
    pub port: u16,
    pub path: Seq<char>,
}

/// How a webhook URL is read: `scheme://host[:port][/path]`; the port is the
/// text after the last `:` of the authority when it parses as a `u16`, else the
/// scheme's default (443 for https, 80 otherwise); an absent path is `/`.
/// `None` without `://` or with an empty host.
pub open spec fn webhook_url_of(url: Seq<char>) -> Option<UrlView> {
    let k = scheme_sep_index(url, 0);
    if k >= url.len() {
        None
    } else {
        let scheme = url.subrange(0, k);
        let rest = url.subrange(k + 3, url.len() as int);
        let tls = eq_ignore_ascii_case(scheme, "https"@);
        let slash = char_index(rest, '/', 0);
        let authority = rest.subrange(0, slash);
        let path = if slash < rest.len() {
            rest.subrange(slash, rest.len() as int)
        } else {
            "/"@
        };
        let default_port: u16 = if tls {
            443
        } else {
            80
        };
        let colon = last_char_index(authority, ':', authority.len() as int);
        let host = if colon >= 0 {
            authority.subrange(0, colon)
        } else {
            authority
        };
        let port: u16 = if colon >= 0 {
            match parse_usize_chars(authority.subrange(colon + 1, authority.len() as int)) {
                Some(p) => if p <= 65535 {
                    p as u16
                } else {
                    default_port
                },
                None => default_port,
            }
        } else {
            default_port
        };
        if host.len() == 0 {
            None
        } else {
            Some(UrlView { tls, host, port, path })
        }
    }
}

impl WebhookTarget {
    /// The target as values.
    pub open spec fn url_view(&self) -> UrlView {
        UrlView { tls: self.tls, host: self.host@, port: self.port, path: self.path@ }
    }
}

fn find_scheme_sep(s: &str) -> (k: usize)
    ensures
        k == scheme_sep_index(s@, 0),
        k <= s@.len(),
        k < s@.len() ==> k + 3 <= s@.len(),
{
    let n = s.unicode_len();
    let mut i: usize = 0;
    while i < n && n - i > 2
        invariant
            n == s@.len(),
            i <= n,
            scheme_sep_index(s@, 0) == scheme_sep_index(s@, i as int),
        decreases n - i,
    {
        if s.get_char(i) == ':' && s.get_char(i + 1) == '/' && s.get_char(i + 2) == '/' {
            return i;
        }
        i = i + 1;
    }
    n
}

fn find_last_char(s: &str, c: char) -> (k: Option<usize>)
    ensures
        match k {
            Some(i) => i == last_char_index(s@, c, s@.len() as int) && i < s@.len(),
            None => last_char_index(s@, c, s@.len() as int) == -1,
        },
{
    let n = s.unicode_len();
    let mut to = n;
    while to > 0
        invariant
            n == s@.len(),
            to <= n,
            last_char_index(s@, c, n as int) == last_char_index(s@, c, to as int),
        decreases to,
    {
        if s.get_char(to - 1) == c {
            return Some(to - 1);
        }
        to = to - 1;
    }
    None
}

fn is_https(scheme: &str) -> (r: bool)
    ensures
        r == eq_ignore_ascii_case(scheme@, "https"@),
{
    let expected = "https";
    proof {
        reveal_strlit("https");
    }
    let n = scheme.unicode_len();
    if n != 5 {
        return false;
    }
    let mut i: usize = 0;
    while i < 5
        invariant
            n == scheme@.len(),
            n == 5,
            expected@ == "https"@,
            expected@.len() == 5,
            i <= 5,
            forall|j: int| 0 <= j < i ==> ascii_lower(#[trigger] scheme@[j]) == ascii_lower(expected@[j]),
        decreases 5 - i,
    {
        let a = scheme.get_char(i);
        let b = expected.get_char(i);
        let la = if 'A' <= a && a <= 'Z' {
            ((a as u8) + 32) as char
        } else {
            a
        };
        let lb = if 'A' <= b && b <= 'Z' {
            ((b as u8) + 32) as char
        } else {
            b
        };
        proof {
            assert(la == ascii_lower(a));
            assert(lb == ascii_lower(b));
        }
        if la != lb {
            return false;
        }
        i = i + 1;
    }
    true
}

/// Reads a webhook URL (see `webhook_url_of`); an unusable URL gives
/// `Other("invalid webhook url: <url>")` or `Other("invalid webhook host")`.
pub fn parse_webhook_url(url: &str) -> (r: Result<WebhookTarget, ZorvError>)
    ensures
        match webhook_url_of(url@) {
            Some(v) => r matches Ok(t) && t.url_view() == v,
            None => r is Err,
        },
        scheme_sep_index(url@, 0) >= url@.len() ==> (r matches Err(ZorvError::Other(m)) && m@
            == "invalid webhook url: "@ + url@),
        scheme_sep_index(url@, 0) < url@.len() && webhook_url_of(url@) is None ==> (r matches Err(
            ZorvError::Other(m),
        ) && m@ == "invalid webhook host"@),
{
    let n = url.unicode_len();
    let k = find_scheme_sep(url);
    if k >= n {
        let mut m = String::new();
        push_str(&mut m, "invalid webhook url: ");
        push_str(&mut m, url);
        return Err(ZorvError::Other(m));
    }
    let scheme = char_slice(url, 0, k);
    let rest_string = char_slice(url, k + 3, n);
    let rest = rest_string.as_str();
    let tls = is_https(scheme.as_str());
    let rn = rest.unicode_len();
    let slash = find_char(rest, '/', 0);
    let authority_string = char_slice(rest, 0, slash);
    let authority = authority_string.as_str();
    let path = if slash < rn {
        char_slice(rest, slash, rn)
    } else {
        "/".to_string()
    };
    let default_port: u16 = if tls {
        443
    } else {
        80
    };
    let an = authority.unicode_len();
    let (host, port) = match find_last_char(authority, ':') {
        Some(colon) => {
            let p_text = char_slice(authority, colon + 1, an);
            let port: u16 = match parse_usize(p_text.as_str()) {
                Some(p) => if p <= 65535 {
                    p as u16
                } else {
                    default_port
                },
                None => default_port,
            };
            (char_slice(authority, 0, colon), port)
        },
        None => (char_slice(authority, 0, an), default_port),
    };
    proof {
        assert(authority@.subrange(0, an as int) =~= authority@);
    }
    if host.as_str().unicode_len() == 0 {
        return Err(ZorvError::Other("invalid webhook host".to_owned()));
    }
    Ok(WebhookTarget { tls, host, port, path })
}

/// The head of a JSON `POST` request.
pub open spec fn post_head(path: Seq<char>, host: Seq<char>, body_len: nat) -> Seq<char> {
    "POST "@ + path + " HTTP/1.1\r\nHost: "@ + host
        + "\r\nContent-Type: application/json\r\nContent-Length: "@ + decimal(body_len)
        + "\r\nConnection: close\r\n\r\n"@
}

/// The head of a JSON `POST` of `body_len` bytes to `path` on `host`.
pub fn post_request_head(path: &str, host: &str, body_len: usize) -> (h: String)
    ensures
        h@ == post_head(path@, host@, body_len as nat),
{
    let mut h = String::new();
    push_str(&mut h, "POST ");
    push_str(&mut h, path);
    push_str(&mut h, " HTTP/1.1\r\nHost: ");
    push_str(&mut h, host);
    push_str(&mut h, "\r\nContent-Type: application/json\r\nContent-Length: ");
    push_decimal(&mut h, body_len as u64);
    push_str(&mut h, "\r\nConnection: close\r\n\r\n");
    proof {
        assert(h@ =~= post_head(path@, host@, body_len as nat));
    }
    h
}

/// The bytes of `{"client_id":`.
pub open spec fn offline_open() -> Seq<u8> {
    seq![123u8, 34u8, 99u8, 108u8, 105u8, 101u8, 110u8, 116u8, 95u8, 105u8, 100u8, 34u8, 58u8]
}

/// The bytes of `,"event":"offline"}`.
pub open spec fn offline_close() -> Seq<u8> {
    seq![
        44u8, 34u8, 101u8, 118u8, 101u8, 110u8, 116u8, 34u8, 58u8, 34u8, 111u8, 102u8, 102u8,
        108u8, 105u8, 110u8, 101u8, 34u8, 125u8,
    ]
}

/// The JSON body of a client-offline event:
/// `{"client_id":<id as a JSON string>,"event":"offline"}`.
pub fn offline_event(client_id: &str) -> (b: Vec<u8>)
    ensures
        b@ == offline_open() + json_string_of(client_id@) + offline_close(),
{
    let mut b: Vec<u8> = vec![123u8, 34, 99, 108, 105, 101, 110, 116, 95, 105, 100, 34, 58];
    proof {
        assert(b@ =~= offline_open());
    }
    let s = json_string(client_id);
    put_slice(&mut b, s.as_slice());
    let tail: Vec<u8> = vec![44u8, 34, 101, 118, 101, 110, 116, 34, 58, 34, 111, 102, 102, 108, 105, 110, 101, 34, 125];
    proof {
        assert(tail@ =~= offline_close());
    }
    put_slice(&mut b, tail.as_slice());
    b
}

} // verus!
