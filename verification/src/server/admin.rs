//! Admin-console logic: string escaping and decoding, password hashing, the
//! HTTP request head and response framing, request routing, and the login
//! guard (failure counting, IP blocking, sessions and captchas).
//!
//! The HTTP server itself (sockets, TLS, the JSON bodies of the API) stays
//! with the binary; what it decides is computed here.

pub mod captcha;
pub mod escape;
pub mod guard;
pub mod password;
pub mod request;
pub mod response;
pub mod routing;

pub use captcha::{captcha_svg_with, gen_captcha_svg, GlyphJitter, NoiseLine};
pub use escape::{constant_time_eq, from_hex, prom_escape, to_hex, url_decodable, url_decode};
pub use guard::{gen_captcha_code, gen_session_token, gen_token, AdminAuth, LoginOutcome};
pub use password::{hash_password, pbkdf2_sha256, record_checkable, verify_password, PBKDF2_ITERATIONS};
pub use request::{find_head_end, parse_head_text, parse_request_head, RequestHead, MAX_HEAD_BYTES};
pub use response::{
    html_response, json_err_response, json_error, json_ok, json_response, redirect_response, Response,
};
pub use routing::{query_of, query_value, route, Page, Route};
