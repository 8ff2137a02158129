//! HTTP responses of the admin console and their wire form, plus the JSON
//! bodies that the console answers with.

use vstd::prelude::*;
use vstd::utf8::*;
use crate::common::error::push_str;
use crate::common::text::{decimal, push_decimal, str_bytes};
use crate::common::wire::put_slice;

verus! {

/// An HTTP response: status line text, content type, extra header lines (each
/// ending with `\r\n`) and body.
#[derive(Debug)]
pub struct Response {
    pub status: &'static str,
    pub content_type: &'static str,
    pub extra_headers: String,
    pub body: Vec<u8>,
}

/// The head of a response as text: status line, content type, length,
/// `Connection: close` and the extra header lines.
pub open spec fn response_head(r: &Response) -> Seq<char> {
    "HTTP/1.1 "@ + r.status@ + "\r\nContent-Type: "@ + r.content_type@ + "\r\nContent-Length: "@
        + decimal(r.body@.len()) + "\r\nConnection: close\r\n"@ + r.extra_headers@
}

/// The bytes of a response on the wire: the head, a blank line, the body.
pub open spec fn response_bytes(r: &Response) -> Seq<u8> {
    encode_utf8(response_head(r)) + seq![13u8, 10u8] + r.body@
}

impl Response {
    /// Serializes the response as HTTP/1.1 with `Connection: close`.
    pub fn into_bytes(self) -> (b: Vec<u8>)
        ensures
            b@ == response_bytes(&self),
    {
        let mut head = String::new();
        push_str(&mut head, "HTTP/1.1 ");
        push_str(&mut head, self.status);
        push_str(&mut head, "\r\nContent-Type: ");
        push_str(&mut head, self.content_type);
        push_str(&mut head, "\r\nContent-Length: ");
        push_decimal(&mut head, self.body.len() as u64);
        push_str(&mut head, "\r\nConnection: close\r\n");
        push_str(&mut head, self.extra_headers.as_str());
        proof {
            assert(head@ =~= response_head(&self));
        }
        let mut out = str_bytes(head.as_str());
        out.push(13);
        out.push(10);
        put_slice(&mut out, self.body.as_slice());
        proof {
            assert(out@ =~= response_bytes(&self));
        }
        out
    }
}

/// A `200 OK` HTML page.
pub fn html_response(html: &str) -> (r: Response)
    ensures
        r.status@ == "200 OK"@,
        r.content_type@ == "text/html; charset=utf-8"@,
        r.extra_headers@ == Seq::<char>::empty(),
        r.body@ == encode_utf8(html@),
{
    Response {
        status: "200 OK",
        content_type: "text/html; charset=utf-8",
        extra_headers: String::new(),
        body: str_bytes(html),
    }
}

/// A JSON response with the given status.
pub fn json_response(status: &'static str, body: Vec<u8>) -> (r: Response)
    ensures
        r.status@ == status@,
        r.content_type@ == "application/json"@,
        r.extra_headers@ == Seq::<char>::empty(),
        r.body@ == body@,
{
    Response { status, content_type: "application/json", extra_headers: String::new(), body }
}

/// A `302 Found` redirect to `location`.
pub fn redirect_response(location: &str) -> (r: Response)
    ensures
        r.status@ == "302 Found"@,
        r.content_type@ == "text/html; charset=utf-8"@,
        r.extra_headers@ == "Location: "@ + location@ + "\r\n"@,
        r.body@ == Seq::<u8>::empty(),
{
    let mut extra = String::new();
    push_str(&mut extra, "Location: ");
    push_str(&mut extra, location);
    push_str(&mut extra, "\r\n");
    Response {
        status: "302 Found",
        content_type: "text/html; charset=utf-8",
        extra_headers: extra,
        body: Vec::new(),
    }
}

/// A lowercase hexadecimal digit.
pub open spec fn hex_digit_lower(d: int) -> u8 {
    if d < 10 {
        (48 + d) as u8
    } else {
        (87 + d) as u8
    }
}

/// How `serde_json` writes one character inside a string literal: `"` and `\`
/// behind a backslash, `\b \t \n \f \r` for those controls, `\u00xx`
/// (lowercase hex) for the other characters below U+0020, and any other
/// character as its UTF-8 bytes.
pub open spec fn json_char(c: char) -> Seq<u8> {
    let n = c as int;
    if c == '"' {
        seq![92u8, 34u8]
    } else if c == '\\' {
        seq![92u8, 92u8]
    } else if n == 8 {
        seq![92u8, 98u8]
    } else if n == 9 {
        seq![92u8, 116u8]
    } else if n == 10 {
        seq![92u8, 110u8]
    } else if n == 12 {
        seq![92u8, 102u8]
    } else if n == 13 {
        seq![92u8, 114u8]
    } else if n < 32 {
        seq![92u8, 117u8, 48u8, 48u8, hex_digit_lower(n / 16), hex_digit_lower(n % 16)]
    } else {
        encode_utf8(seq![c])
    }
}

/// The escaped characters of a text, in order.
pub open spec fn json_escaped(text: Seq<char>) -> Seq<u8>
    decreases text.len(),
{
    if text.len() == 0 {
        Seq::empty()
    } else {
        json_escaped(text.drop_last()) + json_char(text.last())
    }
}

/// The JSON string literal of a text as `serde_json` writes it: the escaped
/// characters between double quotes.
pub open spec fn json_string_of(text: Seq<char>) -> Seq<u8> {
    seq![34u8] + json_escaped(text) + seq![34u8]
}

/// Calls `serde_json::to_vec(text)` on a `str`. In the `serde_json` source the
/// result is the JSON string literal `json_string_of(text)`: a quote, each
/// byte copied except those its escape table marks (`"`, `\`, and bytes below
/// 0x20, written as the short escapes or `\u00xx` with lowercase hex digits),
/// and a quote. Serializing a `str` into a `Vec<u8>` writer does not fail there;
/// the error branch (an empty vector) is never taken.
#[verifier::external_body]
pub(crate) fn json_string(text: &str) -> (v: Vec<u8>)
    ensures
        v@ == json_string_of(text@),
{
    serde_json::to_vec(text).unwrap_or_default()
}

/// The bytes of `{"ok":true}`.
pub open spec fn json_ok_bytes() -> Seq<u8> {
    seq![123u8, 34u8, 111u8, 107u8, 34u8, 58u8, 116u8, 114u8, 117u8, 101u8, 125u8]
}

/// The bytes of `{"ok":false,"error":` that open an error body.
pub open spec fn json_error_open() -> Seq<u8> {
    seq![
        123u8, 34u8, 111u8, 107u8, 34u8, 58u8, 102u8, 97u8, 108u8, 115u8, 101u8, 44u8, 34u8, 101u8,
        114u8, 114u8, 111u8, 114u8, 34u8, 58u8,
    ]
}

/// The success body `{"ok":true}`.
pub fn json_ok() -> (b: Vec<u8>)
    ensures
        b@ == json_ok_bytes(),
{
    let b: Vec<u8> = vec![123u8, 34, 111, 107, 34, 58, 116, 114, 117, 101, 125];
    proof {
        assert(b@ =~= json_ok_bytes());
    }
    b
}

/// The error body `{"ok":false,"error":<msg as a JSON string>}`.
pub fn json_error(msg: &str) -> (b: Vec<u8>)
    ensures
        b@ == json_error_open() + json_string_of(msg@) + seq![125u8],
{
    let mut b: Vec<u8> = vec![
        123u8, 34, 111, 107, 34, 58, 102, 97, 108, 115, 101, 44, 34, 101, 114, 114, 111, 114, 34,
        58,
    ];
    proof {
        assert(b@ =~= json_error_open());
    }
    let s = json_string(msg);
    put_slice(&mut b, s.as_slice());
    b.push(125);
    proof {
        assert(b@ =~= json_error_open() + json_string_of(msg@) + seq![125u8]);
    }
    b
}

/// A JSON error response `{"ok":false,"error":msg}` with the given status.
pub fn json_err_response(status: &'static str, msg: &str) -> (r: Response)
    ensures
        r.status@ == status@,
        r.content_type@ == "application/json"@,
        r.extra_headers@ == Seq::<char>::empty(),
        r.body@ == json_error_open() + json_string_of(msg@) + seq![125u8],
{
    json_response(status, json_error(msg))
}

} // verus!
