//! Login protection of the admin console: sessions, the login-failure count
//! per client IP, IP blocking and single-use captchas.
//!
//! Every table is a `dashmap::DashMap` keyed by text. A table is seen as a map
//! from the key's characters to the value; each method used on a table has a
//! wrapper below whose contract states that effect. The methods here take the
//! tables by `&mut`, so that each change is visible to the proofs; sharing
//! between tasks is left to the caller.
//!
//! Timestamps are Unix milliseconds. Deadlines are computed with wrapping
//! arithmetic, as the release build of the console computes them.

use vstd::prelude::*;
use vstd::wrapping::u64_specs::{wrapping_add, wrapping_sub};
use dashmap::DashMap;
use crate::common::tables::{time_get, time_insert, time_new, time_remove, time_table};
use crate::common::crypto::now_millis;
use crate::common::random::{random_bytes, random_usize_up_to};
use crate::common::text::{push_char, str_eq};
use crate::server::admin::escape::{constant_time_eq, hex_of, to_hex};
use crate::server::admin::password::{password_matches, record_cuts_ok, verify_password};
use crate::server::admin::request::{trim, trimmed};

verus! {

/// A table of failure counts and window starts by IP.
pub type FailureTable = DashMap<String, (u32, u64)>;
/// A table of captcha answers and deadlines by id.
pub type CaptchaTable = DashMap<String, (String, u64)>;

/// Session lifetime: 24 hours.
pub const SESSION_TTL_MS: u64 = 86400000;
/// Consecutive login failures within the window that block an IP.
pub const LOGIN_FAIL_LIMIT: u32 = 5;
/// How long an IP stays blocked: 30 minutes.
pub const BLOCK_DURATION_MS: u64 = 1800000;
/// Failures further apart than this window start a new count: 30 minutes.
pub const FAIL_WINDOW_MS: u64 = 1800000;
/// Captcha lifetime: 5 minutes.
pub const CAPTCHA_TTL_MS: u64 = 300000;

// ---------------------------------------------------------------------------
// The tables and their wrappers
// ---------------------------------------------------------------------------

/// What a `DashMap<String, (u32, u64)>` holds: failure count and window start by IP.
pub uninterp spec fn failure_table(m: DashMap<String, (u32, u64)>) -> Map<Seq<char>, (u32, u64)>;

/// What a `DashMap<String, (String, u64)>` holds: answer and deadline by captcha id.
pub uninterp spec fn captcha_table(m: DashMap<String, (String, u64)>) -> Map<
    Seq<char>,
    (Seq<char>, u64),
>;

/// Calls `DashMap::new()` for a failure table; the new map is empty.
#[verifier::external_body]
fn failure_new() -> (fresh: FailureTable)
    ensures
        failure_table(fresh).dom().is_empty(),
{
    DashMap::new()
}

/// Calls `DashMap::get(key)` on a failure table and copies the value out of the
/// returned guard.
#[verifier::external_body]
fn failure_get(m: &DashMap<String, (u32, u64)>, key: &str) -> (r: Option<(u32, u64)>)
    ensures
        r == failure_table(*m).get(key@),
{
    m.get(key).map(|v| *v)
}

/// Calls `DashMap::insert(key, value)` on a failure table.
#[verifier::external_body]
fn failure_insert(m: &mut DashMap<String, (u32, u64)>, key: String, value: (u32, u64))
    ensures
        failure_table(*final(m)) == failure_table(*old(m)).insert(key@, value),
{
    m.insert(key, value);
}

/// Calls `DashMap::remove(key)` on a failure table.
#[verifier::external_body]
fn failure_remove(m: &mut DashMap<String, (u32, u64)>, key: &str)
    ensures
        failure_table(*final(m)) == failure_table(*old(m)).remove(key@),
{
    m.remove(key);
}

/// Calls `DashMap::new()` for a captcha table; the new map is empty.
#[verifier::external_body]
fn captcha_new() -> (fresh: CaptchaTable)
    ensures
        captcha_table(fresh).dom().is_empty(),
{
    DashMap::new()
}

/// Calls `DashMap::get(key)` on a captcha table and clones the value out of the
/// returned guard.
#[verifier::external_body]
fn captcha_get(m: &DashMap<String, (String, u64)>, key: &str) -> (r: Option<(String, u64)>)
    ensures
        match r {
            Some(v) => captcha_table(*m).contains_key(key@) && captcha_table(*m)[key@] == (
                v.0@,
                v.1,
            ),
            None => !captcha_table(*m).contains_key(key@),
        },
{
    m.get(key).map(|v| (v.0.clone(), v.1))
}

/// Calls `DashMap::insert(key, value)` on a captcha table.
#[verifier::external_body]
fn captcha_insert(m: &mut DashMap<String, (String, u64)>, key: String, value: (String, u64))
    ensures
        captcha_table(*final(m)) == captcha_table(*old(m)).insert(key@, (value.0@, value.1)),
{
    m.insert(key, value);
}

/// Calls `DashMap::remove(key)` on a captcha table.
#[verifier::external_body]
fn captcha_remove(m: &mut DashMap<String, (String, u64)>, key: &str)
    ensures
        captcha_table(*final(m)) == captcha_table(*old(m)).remove(key@),
{
    m.remove(key);
}

/// Whether a captcha entry is still live at `now`.
pub open spec fn captcha_live(v: (Seq<char>, u64), now: u64) -> bool {
    now < v.1
}

fn captcha_entry_live(v: &(String, u64), now: u64) -> (r: bool)
    ensures
        r == captcha_live((v.0@, v.1), now),
{
    now < v.1
}

/// The keys of a captcha table whose entries are live at `now`.
pub open spec fn live_captcha_ids(t: Map<Seq<char>, (Seq<char>, u64)>, now: u64) -> Set<Seq<char>> {
    Set::new(|k: Seq<char>| t.contains_key(k) && captcha_live(t[k], now))
}

/// Calls `DashMap::retain` on a captcha table with a predicate that keeps the
/// entries live at `now` (see `captcha_entry_live`): exactly the live entries
/// remain.
#[verifier::external_body]
fn captcha_retain_live(m: &mut DashMap<String, (String, u64)>, now: u64)
    ensures
        captcha_table(*final(m)) == captcha_table(*old(m)).restrict(
            live_captcha_ids(captcha_table(*old(m)), now),
        ),
{
    m.retain(|_, v| captcha_entry_live(v, now));
}

/// The uppercase form of a text, as `str::to_uppercase` gives it (Unicode
/// case mapping).
pub uninterp spec fn uppercase_of(s: Seq<char>) -> Seq<char>;

/// Calls `str::to_uppercase`. The result is the Unicode uppercase mapping of
/// the text, a function of the text alone.
#[verifier::external_body]
fn to_uppercase(s: &str) -> (r: String)
    ensures
        r@ == uppercase_of(s@),
{
    s.to_uppercase()
}

// ---------------------------------------------------------------------------
// The state and what the operations do to it
// ---------------------------------------------------------------------------

/// The login state of the admin console.
pub struct AdminAuth {
    /// Admin login username.
    pub username: String,
    /// Admin password (a PBKDF2 record or plaintext); empty disables login.
    pub password: String,
    /// Session token -> expiry.
    pub sessions: DashMap<String, u64>,
    /// IP -> (failure count, window start).
    pub login_failures: DashMap<String, (u32, u64)>,
    /// IP -> end of the block.
    pub blocked_ips: DashMap<String, u64>,
    /// Captcha id -> (answer, expiry).
    pub captchas: DashMap<String, (String, u64)>,
}

/// The four tables as maps.
pub struct AuthTables {
    pub sessions: Map<Seq<char>, u64>,
    pub failures: Map<Seq<char>, (u32, u64)>,
    pub blocked: Map<Seq<char>, u64>,
    pub captchas: Map<Seq<char>, (Seq<char>, u64)>,
}

impl AdminAuth {
    /// The tables as maps.
    pub open spec fn tables(&self) -> AuthTables {
        AuthTables {
            sessions: time_table(self.sessions),
            failures: failure_table(self.login_failures),
            blocked: time_table(self.blocked_ips),
            captchas: captcha_table(self.captchas),
        }
    }

    /// The state is consistent: a counted IP has fewer failures than the limit
    /// (reaching it blocks the IP and clears its count).
    pub open spec fn wf(&self) -> bool {
        &&& forall|k: Seq<char>|
            #[trigger] failure_table(self.login_failures).contains_key(k) ==> failure_table(
                self.login_failures,
            )[k].0 < LOGIN_FAIL_LIMIT
    }
}

/// Whether a session token is accepted at `now`: always when login is
/// disabled (empty password), otherwise when the token is known and unexpired.
pub open spec fn session_valid(
    password: Seq<char>,
    sessions: Map<Seq<char>, u64>,
    session: Option<Seq<char>>,
    now: u64,
) -> bool {
    password.len() == 0 || match session {
        Some(s) => sessions.contains_key(s) && now < sessions[s],
        None => false,
    }
}

/// The failure entry of `ip` after one more failure at `now`: a failure
/// further than the window from the first counted one starts a new count.
pub open spec fn failure_entry_after(failures: Map<Seq<char>, (u32, u64)>, ip: Seq<char>, now: u64) -> (
    u32,
    u64,
) {
    let prev = if failures.contains_key(ip) {
        failures[ip]
    } else {
        (0u32, now)
    };
    if wrapping_sub(now, prev.1) > FAIL_WINDOW_MS {
        (1u32, now)
    } else {
        ((prev.0 + 1) as u32, prev.1)
    }
}

/// The tables after a login failure from `ip` at `now`: the count goes up, and
/// reaching the limit blocks the IP until `now + BLOCK_DURATION_MS` and clears
/// its count.
pub open spec fn after_failure(t: AuthTables, ip: Seq<char>, now: u64) -> AuthTables {
    let e = failure_entry_after(t.failures, ip, now);
    if e.0 >= LOGIN_FAIL_LIMIT {
        AuthTables {
            blocked: t.blocked.insert(ip, wrapping_add(now, BLOCK_DURATION_MS)),
            failures: t.failures.remove(ip),
            ..t
        }
    } else {
        AuthTables { failures: t.failures.insert(ip, e), ..t }
    }
}

/// Whether `ip` is blocked at `now`.
pub open spec fn blocked_at(t: AuthTables, ip: Seq<char>, now: u64) -> bool {
    t.blocked.contains_key(ip) && now < t.blocked[ip]
}

/// The tables after checking whether `ip` is blocked at `now`: an expired
/// block is removed.
pub open spec fn after_block_check(t: AuthTables, ip: Seq<char>, now: u64) -> AuthTables {
    if t.blocked.contains_key(ip) && !(now < t.blocked[ip]) {
        AuthTables { blocked: t.blocked.remove(ip), ..t }
    } else {
        t
    }
}

/// Whether a captcha answer is accepted: the id is known and unexpired, and the
/// trimmed answer matches the stored one ignoring case.
pub open spec fn captcha_ok(
    captchas: Map<Seq<char>, (Seq<char>, u64)>,
    id: Option<Seq<char>>,
    code: Seq<char>,
    now: u64,
) -> bool {
    match id {
        Some(i) => captchas.contains_key(i) && now < captchas[i].1 && uppercase_of(captchas[i].0)
            == uppercase_of(trimmed(code)),
        None => false,
    }
}

/// The tables after a captcha check: the captcha is used up, right or wrong.
pub open spec fn after_captcha_check(t: AuthTables, id: Option<Seq<char>>) -> AuthTables {
    match id {
        Some(i) => AuthTables { captchas: t.captchas.remove(i), ..t },
        None => t,
    }
}

/// The alphabet of captcha answers (no `0`, `O`, `1`, `I` or `L`).
pub open spec fn captcha_alphabet() -> Seq<char> {
    "ABCDEFGHJKMNPQRSTUVWXYZ23456789"@
}

/// A session or captcha token: lower-case hexadecimal of 32 bytes.
pub open spec fn is_token_of_len(t: Seq<char>, n: nat) -> bool {
    exists|b: Seq<u8>| b.len() == n && t == hex_of(b)
}

/// The text of an optional string slice.
pub open spec fn opt_str(o: Option<&str>) -> Option<Seq<char>> {
    match o {
        Some(s) => Some(s@),
        None => None,
    }
}

/// What a login attempt gives.
#[derive(Debug)]
pub enum LoginOutcome {
    /// The password is empty: login is disabled (`403`).
    Disabled,
    /// The captcha is unknown, expired or wrong (`401`).
    BadCaptcha,
    /// Logged in; the new session token.
    Success(String),
    /// Wrong username or password (`401`); the failure is counted.
    WrongCredentials,
}

/// What a login attempt does, given the stored password and username, the
/// tables before (`t0`) and after (`t`), the attempt and its outcome `r`.
pub open spec fn login_effect(
    stored_password: Seq<char>,
    stored_username: Seq<char>,
    t0: AuthTables,
    username: Seq<char>,
    password: Seq<char>,
    captcha_id: Option<Seq<char>>,
    captcha_code: Seq<char>,
    ip: Seq<char>,
    now: u64,
    r: LoginOutcome,
    t: AuthTables,
) -> bool {
    let t1 = after_captcha_check(t0, captcha_id);
    if stored_password.len() == 0 {
        r is Disabled && t == t0
    } else if !captcha_ok(t0.captchas, captcha_id, captcha_code, now) {
        r is BadCaptcha && t == t1
    } else if username == stored_username && password_matches(password, stored_password) {
        &&& r matches LoginOutcome::Success(tok)
        &&& is_token_of_len(tok@, 32)
        &&& t == AuthTables {
            failures: t1.failures.remove(ip),
            sessions: t1.sessions.insert(tok@, wrapping_add(now, SESSION_TTL_MS)),
            ..t1
        }
    } else {
        r is WrongCredentials && t == after_failure(t1, ip, now)
    }
}

impl AdminAuth {
    /// A fresh state with the given credentials and empty tables.
    pub fn new(username: String, password: String) -> (a: AdminAuth)
        ensures
            a.username@ == username@,
            a.password@ == password@,
            a.tables().sessions == Map::<Seq<char>, u64>::empty(),
            a.tables().failures == Map::<Seq<char>, (u32, u64)>::empty(),
            a.tables().blocked == Map::<Seq<char>, u64>::empty(),
            a.tables().captchas == Map::<Seq<char>, (Seq<char>, u64)>::empty(),
            a.wf(),
    {
        let a = AdminAuth {
            username,
            password,
            sessions: time_new(),
            login_failures: failure_new(),
            blocked_ips: time_new(),
            captchas: captcha_new(),
        };
        proof {
            assert(a.tables().sessions =~= Map::<Seq<char>, u64>::empty());
            assert(a.tables().failures =~= Map::<Seq<char>, (u32, u64)>::empty());
            assert(a.tables().blocked =~= Map::<Seq<char>, u64>::empty());
            assert(a.tables().captchas =~= Map::<Seq<char>, (Seq<char>, u64)>::empty());
        }
        a
    }

    /// Whether a request with this session cookie is authenticated at `now`
    /// (always, when the password is empty).
    pub fn is_authenticated_at(&self, session: Option<&str>, now: u64) -> (r: bool)
        ensures
            r == session_valid(
                self.password@,
                self.tables().sessions,
                opt_str(session),
                now,
            ),
    {
        if self.password.as_str().unicode_len() == 0 {
            return true;
        }
        match session {
            Some(s) => match time_get(&self.sessions, s) {
                Some(expire) => now < expire,
                None => false,
            },
            None => false,
        }
    }

    /// Counts a login failure from `ip` at `now`; the limit-th failure within
    /// the window blocks the IP for `BLOCK_DURATION_MS` and clears its count.
    pub fn record_login_failure_at(&mut self, ip: &str, now: u64)
        requires
            old(self).wf(),
        ensures
            final(self).wf(),
            final(self).tables() == after_failure(old(self).tables(), ip@, now),
            final(self).username == old(self).username,
            final(self).password == old(self).password,
    {
        let prev = match failure_get(&self.login_failures, ip) {
            Some(e) => e,
            None => (0u32, now),
        };
        let entry: (u32, u64) = if now.wrapping_sub(prev.1) > FAIL_WINDOW_MS {
            (1, now)
        } else {
            (prev.0 + 1, prev.1)
        };
        if entry.0 >= LOGIN_FAIL_LIMIT {
            time_insert(
                &mut self.blocked_ips,
                ip.to_string(),
                now.wrapping_add(BLOCK_DURATION_MS),
            );
            failure_remove(&mut self.login_failures, ip);
        } else {
            failure_insert(&mut self.login_failures, ip.to_string(), entry);
        }
        proof {
            assert(self.tables() =~= after_failure(old(self).tables(), ip@, now));
        }
    }

    /// Whether `ip` is blocked at `now`; an expired block is cleared.
    pub fn is_ip_blocked_at(&mut self, ip: &str, now: u64) -> (r: bool)
        ensures
            r == blocked_at(old(self).tables(), ip@, now),
            final(self).tables() == after_block_check(old(self).tables(), ip@, now),
            final(self).username == old(self).username,
            final(self).password == old(self).password,
            final(self).login_failures == old(self).login_failures,
    {
        match time_get(&self.blocked_ips, ip) {
            Some(until) => {
                if now < until {
                    true
                } else {
                    time_remove(&mut self.blocked_ips, ip);
                    proof {
                        assert(self.tables() =~= after_block_check(old(self).tables(), ip@, now));
                    }
                    false
                }
            },
            None => false,
        }
    }

    /// Checks a captcha answer at `now`: the id must be known and unexpired and
    /// the trimmed answer must match ignoring case. The captcha is used up
    /// whatever the outcome.
    pub fn check_captcha_at(&mut self, id: Option<&str>, code: &str, now: u64) -> (r: bool)
        ensures
            r == captcha_ok(old(self).tables().captchas, opt_str(id), code@, now),
            final(self).tables() == after_captcha_check(old(self).tables(), opt_str(id)),
            final(self).username == old(self).username,
            final(self).password == old(self).password,
            final(self).login_failures == old(self).login_failures,
    {
        let id = match id {
            Some(i) => i,
            None => return false,
        };
        let trimmed_code = trim(code);
        let code_upper = to_uppercase(trimmed_code.as_str());
        let valid = match captcha_get(&self.captchas, id) {
            Some(v) => {
                if now < v.1 {
                    let answer = to_uppercase(v.0.as_str());
                    constant_time_eq(answer.as_str(), code_upper.as_str())
                } else {
                    false
                }
            },
            None => false,
        };
        captcha_remove(&mut self.captchas, id);
        proof {
            assert(self.tables() =~= after_captcha_check(old(self).tables(), Some(id@)));
        }
        valid
    }

    /// Ends a session.
    pub fn logout(&mut self, session: Option<&str>)
        ensures
            final(self).tables() == (match session {
                Some(s) => AuthTables {
                    sessions: old(self).tables().sessions.remove(s@),
                    ..old(self).tables()
                },
                None => old(self).tables(),
            }),
            final(self).username == old(self).username,
            final(self).password == old(self).password,
            final(self).login_failures == old(self).login_failures,
    {
        if let Some(s) = session {
            time_remove(&mut self.sessions, s);
            proof {
                assert(self.tables() =~= (AuthTables {
                    sessions: old(self).tables().sessions.remove(s@),
                    ..old(self).tables()
                }));
            }
        }
    }

    /// A login attempt from `ip` at `now` (the stored password must be checkable,
    /// see `record_cuts_ok`). With an empty password login is
    /// disabled. Otherwise the captcha is checked (and used up); then the
    /// username and password are checked: on success the IP's failure count is
    /// cleared and a new session, valid for `SESSION_TTL_MS`, is returned; on
    /// failure the failure is counted (see `record_login_failure_at`).
    pub fn login_at(
        &mut self,
        username: &str,
        password: &str,
        captcha_id: Option<&str>,
        captcha_code: &str,
        ip: &str,
        now: u64,
    ) -> (r: LoginOutcome)
        requires
            old(self).wf(),
            record_cuts_ok(old(self).password@),
        ensures
            final(self).wf(),
            final(self).username == old(self).username,
            final(self).password == old(self).password,
            login_effect(
                old(self).password@,
                old(self).username@,
                old(self).tables(),
                username@,
                password@,
                opt_str(captcha_id),
                captcha_code@,
                ip@,
                now,
                r,
                final(self).tables(),
            ),
    {
        if self.password.as_str().unicode_len() == 0 {
            return LoginOutcome::Disabled;
        }
        if !self.check_captcha_at(captcha_id, captcha_code, now) {
            return LoginOutcome::BadCaptcha;
        }
        if str_eq(username, self.username.as_str()) && verify_password(
            password,
            self.password.as_str(),
        ) {
            failure_remove(&mut self.login_failures, ip);
            let token = gen_session_token();
            time_insert(&mut self.sessions, token.clone(), now.wrapping_add(SESSION_TTL_MS));
            proof {
                let t1 = after_captcha_check(old(self).tables(), opt_str(captcha_id));
                assert(self.tables() =~= (AuthTables {
                    failures: t1.failures.remove(ip@),
                    sessions: t1.sessions.insert(token@, wrapping_add(now, SESSION_TTL_MS)),
                    ..t1
                }));
            }
            return LoginOutcome::Success(token);
        }
        self.record_login_failure_at(ip, now);
        LoginOutcome::WrongCredentials
    }

    /// Issues a new captcha at `now`: expired captchas are dropped, and a
    /// random four-character answer is stored under a random id for
    /// `CAPTCHA_TTL_MS`. Returns the id and the answer.
    pub fn new_captcha_at(&mut self, now: u64) -> (r: (String, String))
        ensures
            final(self).tables() == (AuthTables {
                captchas: old(self).tables().captchas.restrict(
                    live_captcha_ids(old(self).tables().captchas, now),
                ).insert(r.0@, (r.1@, wrapping_add(now, CAPTCHA_TTL_MS))),
                ..old(self).tables()
            }),
            is_token_of_len(r.0@, 32),
            r.1@.len() == 4,
            forall|i: int| 0 <= i < 4 ==> captcha_alphabet().contains(#[trigger] r.1@[i]),
            final(self).username == old(self).username,
            final(self).password == old(self).password,
            final(self).login_failures == old(self).login_failures,
    {
        captcha_retain_live(&mut self.captchas, now);
        let code = gen_captcha_code();
        let id = gen_session_token();
        captcha_insert(
            &mut self.captchas,
            id.clone(),
            (code.clone(), now.wrapping_add(CAPTCHA_TTL_MS)),
        );
        proof {
            assert(self.tables() =~= (AuthTables {
                captchas: old(self).tables().captchas.restrict(
                    live_captcha_ids(old(self).tables().captchas, now),
                ).insert(id@, (code@, wrapping_add(now, CAPTCHA_TTL_MS))),
                ..old(self).tables()
            }));
        }
        (id, code)
    }
}

impl AdminAuth {
    /// Whether a request with this session cookie is authenticated now.
    pub fn is_authenticated(&self, session: Option<&str>) -> (r: bool)
        ensures
            exists|now: u64|
                r == session_valid(self.password@, self.tables().sessions, opt_str(session), now),
    {
        self.is_authenticated_at(session, now_millis())
    }

    /// Counts a login failure from `ip` now (see `record_login_failure_at`).
    pub fn record_login_failure(&mut self, ip: &str)
        requires
            old(self).wf(),
        ensures
            final(self).wf(),
            exists|now: u64| final(self).tables() == after_failure(old(self).tables(), ip@, now),
            final(self).username == old(self).username,
            final(self).password == old(self).password,
    {
        self.record_login_failure_at(ip, now_millis())
    }

    /// Whether `ip` is blocked now; an expired block is cleared.
    pub fn is_ip_blocked(&mut self, ip: &str) -> (r: bool)
        ensures
            exists|now: u64|
                r == blocked_at(old(self).tables(), ip@, now) && final(self).tables()
                    == after_block_check(old(self).tables(), ip@, now),
            final(self).username == old(self).username,
            final(self).password == old(self).password,
            final(self).login_failures == old(self).login_failures,
    {
        self.is_ip_blocked_at(ip, now_millis())
    }

    /// Checks (and uses up) a captcha now (see `check_captcha_at`).
    pub fn check_captcha(&mut self, id: Option<&str>, code: &str) -> (r: bool)
        ensures
            exists|now: u64| r == captcha_ok(old(self).tables().captchas, opt_str(id), code@, now),
            final(self).tables() == after_captcha_check(old(self).tables(), opt_str(id)),
            final(self).username == old(self).username,
            final(self).password == old(self).password,
            final(self).login_failures == old(self).login_failures,
    {
        self.check_captcha_at(id, code, now_millis())
    }

    /// A login attempt from `ip` now (see `login_at`).
    pub fn login(
        &mut self,
        username: &str,
        password: &str,
        captcha_id: Option<&str>,
        captcha_code: &str,
        ip: &str,
    ) -> (r: LoginOutcome)
        requires
            old(self).wf(),
            record_cuts_ok(old(self).password@),
        ensures
            final(self).wf(),
            final(self).username == old(self).username,
            final(self).password == old(self).password,
            exists|now: u64|
                login_effect(
                    old(self).password@,
                    old(self).username@,
                    old(self).tables(),
                    username@,
                    password@,
                    opt_str(captcha_id),
                    captcha_code@,
                    ip@,
                    now,
                    r,
                    final(self).tables(),
                ),
    {
        self.login_at(username, password, captcha_id, captcha_code, ip, now_millis())
    }

    /// Issues a new captcha now (see `new_captcha_at`).
    pub fn new_captcha(&mut self) -> (r: (String, String))
        ensures
            exists|now: u64|
                final(self).tables() == (AuthTables {
                    captchas: old(self).tables().captchas.restrict(
                        #[trigger] live_captcha_ids(old(self).tables().captchas, now),
                    ).insert(r.0@, (r.1@, wrapping_add(now, CAPTCHA_TTL_MS))),
                    ..old(self).tables()
                }),
            is_token_of_len(r.0@, 32),
            r.1@.len() == 4,
            forall|i: int| 0 <= i < 4 ==> captcha_alphabet().contains(#[trigger] r.1@[i]),
            final(self).username == old(self).username,
            final(self).password == old(self).password,
            final(self).login_failures == old(self).login_failures,
    {
        self.new_captcha_at(now_millis())
    }
}

/// A random token: lower-case hexadecimal of `n` random bytes.
fn random_hex_token(n: usize) -> (t: String)
    ensures
        is_token_of_len(t@, n as nat),
{
    let bytes = random_bytes(n);
    let t = to_hex(bytes.as_slice());
    proof {
        assert(bytes@.len() == n && t@ == hex_of(bytes@));
    }
    t
}

/// A new session token: 32 random bytes in lower-case hexadecimal.
pub fn gen_session_token() -> (t: String)
    ensures
        is_token_of_len(t@, 32),
{
    random_hex_token(32)
}

/// A new tunnel token: 16 random bytes (128 bits) in lower-case hexadecimal.
pub fn gen_token() -> (t: String)
    ensures
        is_token_of_len(t@, 16),
{
    random_hex_token(16)
}

/// A random four-character captcha answer over `captcha_alphabet()`.
pub fn gen_captcha_code() -> (code: String)
    ensures
        code@.len() == 4,
        forall|i: int| 0 <= i < 4 ==> captcha_alphabet().contains(#[trigger] code@[i]),
{
    let alphabet = "ABCDEFGHJKMNPQRSTUVWXYZ23456789";
    proof {
        reveal_strlit("ABCDEFGHJKMNPQRSTUVWXYZ23456789");
    }
    let n = alphabet.unicode_len();
    let mut code = String::new();
    let mut k: usize = 0;
    while k < 4
        invariant
            k <= 4,
            n == alphabet@.len(),
            n == 31,
            alphabet@ == captcha_alphabet(),
            code@.len() == k,
            forall|i: int| 0 <= i < k ==> captcha_alphabet().contains(#[trigger] code@[i]),
        decreases 4 - k,
    {
        let i = random_usize_up_to(n - 1);
        let c = alphabet.get_char(i);
        proof {
            assert(captcha_alphabet()[i as int] == c);
        }
        push_char(&mut code, c);
        k = k + 1;
    }
    code
}

} // verus!

verus! {

/// The tables after a run of login failures from `ip` at the given times.
pub open spec fn after_failures(t: AuthTables, ip: Seq<char>, times: Seq<u64>) -> AuthTables
    decreases times.len(),
{
    if times.len() == 0 {
        t
    } else {
        after_failure(after_failures(t, ip, times.drop_last()), ip, times.last())
    }
}

proof fn lemma_failures_count(t: AuthTables, ip: Seq<char>, times: Seq<u64>)
    requires
        !t.failures.contains_key(ip),
        1 <= times.len() < LOGIN_FAIL_LIMIT,
        forall|i: int, j: int| 0 <= i <= j < times.len() ==> times[i] <= times[j],
        times.last() - times[0] <= FAIL_WINDOW_MS,
    ensures
        after_failures(t, ip, times).failures.contains_key(ip),
        after_failures(t, ip, times).failures[ip] == (times.len() as u32, times[0]),
    decreases times.len(),
{
    let p = times.drop_last();
    if p.len() > 0 {
        assert(p.last() == times[p.len() - 1]);
        lemma_failures_count(t, ip, p);
        assert(p[0] == times[0]);
    } else {
        assert(after_failures(t, ip, p) == t);
    }
    let now = times.last();
    assert(wrapping_sub(now, times[0]) == now - times[0]);
}

/// Blocking: from a state where `ip` has no failure count, the limit number of
/// failures within the window blocks `ip` until the last failure plus the
/// block duration, and clears its count; the IP is then blocked at every
/// moment of that period.
pub proof fn lemma_failures_block(t: AuthTables, ip: Seq<char>, times: Seq<u64>)
    requires
        !t.failures.contains_key(ip),
        times.len() == LOGIN_FAIL_LIMIT,
        forall|i: int, j: int| 0 <= i <= j < times.len() ==> times[i] <= times[j],
        times.last() - times[0] <= FAIL_WINDOW_MS,
        times.last() + BLOCK_DURATION_MS <= u64::MAX,
    ensures
        after_failures(t, ip, times).blocked.contains_key(ip),
        after_failures(t, ip, times).blocked[ip] == times.last() + BLOCK_DURATION_MS,
        !after_failures(t, ip, times).failures.contains_key(ip),
        forall|now: u64|
            times.last() <= now < times.last() + BLOCK_DURATION_MS ==> #[trigger] blocked_at(
                after_failures(t, ip, times),
                ip,
                now,
            ),
{
    let p = times.drop_last();
    assert(p.last() == times[3]);
    assert(p[0] == times[0]);
    lemma_failures_count(t, ip, p);
    let now = times.last();
    assert(wrapping_sub(now, times[0]) == now - times[0]);
    assert(wrapping_add(now, BLOCK_DURATION_MS) == now + BLOCK_DURATION_MS);
}

/// A captcha is single-use: once checked, the same id is refused whatever the
/// answer and the time.
pub proof fn lemma_captcha_single_use(
    t: AuthTables,
    id: Seq<char>,
    code: Seq<char>,
    code2: Seq<char>,
    now2: u64,
)
    ensures
        !captcha_ok(after_captcha_check(t, Some(id)).captchas, Some(id), code2, now2),
{
}

/// A block ends: once its end is reached the IP is no longer blocked and the
/// entry is gone.
pub proof fn lemma_block_expires(t: AuthTables, ip: Seq<char>, now: u64)
    requires
        t.blocked.contains_key(ip),
        t.blocked[ip] <= now,
    ensures
        !blocked_at(t, ip, now),
        !after_block_check(t, ip, now).blocked.contains_key(ip),
{
}

/// A session issued by a successful login lasts 24 hours: the token it
/// returns is a valid session at every time before `now + SESSION_TTL_MS` and
/// at no time from then on (when that end does not pass `u64::MAX`).
pub proof fn lemma_session_lifetime(
    stored_password: Seq<char>,
    stored_username: Seq<char>,
    t0: AuthTables,
    username: Seq<char>,
    password: Seq<char>,
    captcha_id: Option<Seq<char>>,
    captcha_code: Seq<char>,
    ip: Seq<char>,
    now: u64,
    r: LoginOutcome,
    t: AuthTables,
    later: u64,
)
    requires
        login_effect(
            stored_password,
            stored_username,
            t0,
            username,
            password,
            captcha_id,
            captcha_code,
            ip,
            now,
            r,
            t,
        ),
        r is Success,
        now + SESSION_TTL_MS <= u64::MAX,
    ensures
        session_valid(stored_password, t.sessions, Some(r->Success_0@), later) <==> later < now
            + SESSION_TTL_MS,
{
    assert(wrapping_add(now, SESSION_TTL_MS) == now + SESSION_TTL_MS);
}

/// A captcha issued at `now` (the tables that `new_captcha_at(now)` leaves,
/// with id `id` and answer `code`) accepts its answer, in any case and with
/// surrounding spaces, at every time before `now` plus five minutes (300 000
/// ms), and is refused from then on.
pub proof fn lemma_captcha_lifetime(
    t0: AuthTables,
    t: AuthTables,
    id: Seq<char>,
    code: Seq<char>,
    answer: Seq<char>,
    now: u64,
    later: u64,
)
    requires
        t == (AuthTables {
            captchas: t0.captchas.restrict(live_captcha_ids(t0.captchas, now)).insert(
                id,
                (code, wrapping_add(now, CAPTCHA_TTL_MS)),
            ),
            ..t0
        }),
        uppercase_of(trimmed(answer)) == uppercase_of(code),
        now + 300_000 <= u64::MAX,
    ensures
        captcha_ok(t.captchas, Some(id), answer, later) <==> later < now + 300_000,
{
    assert(wrapping_add(now, CAPTCHA_TTL_MS) == now + 300_000);
}

} // verus!
