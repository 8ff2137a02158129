//! Cryptography and timestamp utilities: HMAC-SHA256 authentication codes,
//! millisecond timestamps with window checks, and one-time nonces.

use vstd::prelude::*;
use hmac::{Hmac, Mac};
use sha2::Sha256;

verus! {

/// Default timestamp verification window: 30 seconds.
pub const TIMESTAMP_WINDOW_SECS: u64 = 30;

/// `HMAC-SHA256(key, msg)` as computed by the `hmac` and `sha2` crates.
pub uninterp spec fn hmac_sha256_of(key: Seq<u8>, msg: Seq<u8>) -> Seq<u8>;

/// Calls `Hmac::<Sha256>::new_from_slice(key)`, `update(msg)` and `finalize()`.
///
/// The contract claims that the result is the HMAC-SHA256 of `msg` under `key`
/// (a function of the two byte strings alone) and that it is 32 bytes long, the
/// SHA-256 output size. `new_from_slice` accepts keys of any length, so the call
/// does not fail.
#[verifier::external_body]
fn hmac_sha256_digest(key: &[u8], msg: &[u8]) -> (mac: Vec<u8>)
    ensures
        mac@ == hmac_sha256_of(key@, msg@),
        mac@.len() == 32,
{
    let mut mac = <Hmac<Sha256> as Mac>::new_from_slice(key).expect("HMAC accepts any key length");
    mac.update(msg);
    mac.finalize().into_bytes().to_vec()
}

/// Calculates `HMAC-SHA256(key, msg)` and returns the 32-byte MAC.
pub fn hmac_sha256(key: &[u8], msg: &[u8]) -> (mac: Vec<u8>)
    ensures
        mac@ == hmac_sha256_of(key@, msg@),
        mac@.len() == 32,
{
    hmac_sha256_digest(key, msg)
}

/// Reads the system clock: `SystemTime::now().duration_since(UNIX_EPOCH)` in
/// milliseconds, or `None` when the clock is before the epoch. Nothing is claimed
/// of the value, which depends on the time of the call.
#[verifier::external_body]
fn system_clock_millis() -> Option<u64> {
    std::time::SystemTime::now().duration_since(std::time::UNIX_EPOCH).ok().map(
        |d| d.as_millis() as u64,
    )
}

/// Returns the current Unix millisecond timestamp (0 if the clock is before the epoch).
pub fn now_millis() -> u64 {
    match system_clock_millis() {
        Some(ms) => ms,
        None => 0,
    }
}

/// The distance between two timestamps.
pub open spec fn abs_diff(a: u64, b: u64) -> int {
    if a > b {
        a - b
    } else {
        b - a
    }
}

/// `window_secs * 1000`, saturated at `u64::MAX`.
pub open spec fn window_millis(window_secs: u64) -> int {
    if window_secs * 1000 > u64::MAX {
        u64::MAX as int
    } else {
        window_secs * 1000
    }
}

/// Whether `ts_millis` lies within `[now - window, now + window]`.
pub open spec fn within_window(ts_millis: u64, window_secs: u64, now: u64) -> bool {
    abs_diff(now, ts_millis) <= window_millis(window_secs)
}

/// Whether `ts_millis` is within `window_secs` seconds of `now` (both in milliseconds).
pub fn verify_timestamp_at(ts_millis: u64, window_secs: u64, now: u64) -> (ok: bool)
    ensures
        ok == within_window(ts_millis, window_secs, now),
{
    let diff = if now > ts_millis {
        now - ts_millis
    } else {
        ts_millis - now
    };
    let window: u64 = if window_secs > u64::MAX / 1000 {
        u64::MAX
    } else {
        window_secs * 1000
    };
    diff <= window
}

/// Verifies that a timestamp is within `[now - window_secs, now + window_secs]`,
/// where `now` is the current time.
pub fn verify_timestamp(ts_millis: u64, window_secs: u64) -> (ok: bool)
    ensures
        exists|now: u64| ok == within_window(ts_millis, window_secs, now),
{
    let now = now_millis();
    verify_timestamp_at(ts_millis, window_secs, now)
}

/// Whether `c` is a lowercase hexadecimal digit.
pub open spec fn is_lower_hex(c: char) -> bool {
    ('0' <= c <= '9') || ('a' <= c <= 'f')
}

/// The text of a version-4 UUID in hyphenated lowercase form: 36 characters,
/// `-` at positions 8, 13, 18 and 23, lowercase hex digits elsewhere, the
/// version digit `4` at position 14 and the variant digit (`8`, `9`, `a` or
/// `b`) at position 19.
pub open spec fn is_uuid_v4_text(s: Seq<char>) -> bool {
    &&& s.len() == 36
    &&& forall|i: int|
        0 <= i < 36 ==> if i == 8 || i == 13 || i == 18 || i == 23 {
            s[i] == '-'
        } else {
            is_lower_hex(#[trigger] s[i])
        }
    &&& s[14] == '4'
    &&& s[19] == '8' || s[19] == '9' || s[19] == 'a' || s[19] == 'b'
}

/// Calls `uuid::Uuid::new_v4().to_string()`: a random UUID. `new_v4` sets the
/// version bits to 4 and the variant bits to RFC 4122, and `to_string` writes
/// the hyphenated lowercase form (`Display` goes through `LowerHex` of the
/// hyphenated encoding). Which random bits were drawn is not claimed.
#[verifier::external_body]
pub fn gen_nonce() -> (s: String)
    ensures
        is_uuid_v4_text(s@),
{
    uuid::Uuid::new_v4().to_string()
}

} // verus!
