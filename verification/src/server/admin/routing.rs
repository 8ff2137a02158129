//! Request routing of the admin console: which handler answers a request,
//! given its method, its path and whether it carries a valid session.
//!
//! The captcha image, the login page, the login API and the Prometheus metrics
//! need no session; without one, a page request is redirected to the login page
//! and an API request is refused.

use vstd::prelude::*;
use crate::common::text::{
    char_index, char_slice, find_char, has_prefix, lemma_char_index_bounds, starts_with, str_eq,
};
use crate::server::admin::request::{opt_text, parse_usize, parse_usize_chars};

verus! {

/// An HTML page served to an authenticated user.
#[derive(Debug, Clone, Copy, PartialEq, Eq, Structural)]
pub enum Page {
    Index,
    Clients,
    Settings,
    Traffic,
}

/// The handler that answers a request.
#[derive(Debug, Clone, Copy, PartialEq, Eq, Structural)]
pub enum Route {
    /// `GET /api/captcha`: a new captcha image.
    Captcha,
    /// `GET /metrics`: Prometheus metrics.
    Metrics,
    /// `GET /login.html` or `GET /login`: the login page.
    LoginPage,
    /// `POST /api/login`.
    Login,
    /// No session, page request: `302` to `/login.html`.
    RedirectToLogin,
    /// No session, API request: `401` JSON error.
    Unauthorized,
    /// `POST /api/logout`.
    Logout,
    /// An HTML page.
    Page(Page),
    /// `GET /api/status`.
    Status,
    /// `GET /api/clients`.
    Clients,
    /// `GET /api/traffic`.
    Traffic,
    /// `GET /api/traffic/history`.
    TrafficHistory,
    /// `GET /api/proxies`.
    Proxies,
    /// `POST /api/proxies`: create or replace a proxy rule.
    CreateProxy,
    /// `PUT /api/token`.
    UpdateToken,
    /// `POST /api/kick`.
    Kick,
    /// `POST /api/reload`.
    Reload,
    /// `DELETE /api/proxies?name=...`.
    DeleteProxy,
    /// `GET /api/audit?page=..&page_size=..`: a page of the audit log.
    Audit { page: usize, page_size: usize },
    /// Anything else: `404` JSON error.
    NotFound,
}

/// The path of a request target without its query (everything before the
/// first `?`).
pub open spec fn path_part(target: Seq<char>) -> Seq<char> {
    target.subrange(0, char_index(target, '?', 0))
}

/// The query of a request target (everything after the first `?`), empty when
/// there is none.
pub open spec fn query_part(target: Seq<char>) -> Seq<char> {
    let k = char_index(target, '?', 0);
    if k < target.len() {
        target.subrange(k + 1, target.len() as int)
    } else {
        Seq::empty()
    }
}

/// The page that a `GET` of `path` serves, if any.
pub open spec fn page_of(path: Seq<char>) -> Option<Page> {
    if path == "/"@ || path == "/index.html"@ {
        Some(Page::Index)
    } else if path == "/clients.html"@ {
        Some(Page::Clients)
    } else if path == "/settings.html"@ {
        Some(Page::Settings)
    } else if path == "/traffic.html"@ {
        Some(Page::Traffic)
    } else {
        None
    }
}

/// The API endpoint for a method and path, for an authenticated request.
pub open spec fn api_route_of(method: Seq<char>, path: Seq<char>) -> Route {
    if method == "GET"@ && path == "/api/status"@ {
        Route::Status
    } else if method == "GET"@ && path == "/api/clients"@ {
        Route::Clients
    } else if method == "GET"@ && path == "/api/traffic"@ {
        Route::Traffic
    } else if method == "GET"@ && path == "/api/traffic/history"@ {
        Route::TrafficHistory
    } else if method == "GET"@ && path == "/api/proxies"@ {
        Route::Proxies
    } else if method == "POST"@ && path == "/api/proxies"@ {
        Route::CreateProxy
    } else if method == "PUT"@ && path == "/api/token"@ {
        Route::UpdateToken
    } else if method == "POST"@ && path == "/api/kick"@ {
        Route::Kick
    } else if method == "POST"@ && path == "/api/reload"@ {
        Route::Reload
    } else if method == "DELETE"@ && path == "/api/proxies"@ {
        Route::DeleteProxy
    } else {
        Route::NotFound
    }
}

/// The page size of the audit API when the query gives none.
pub const AUDIT_PAGE_SIZE: usize = 50;

/// A positive number given by the query parameter `name`, or `default` when it
/// is absent, does not parse as a number, or is 0.
pub open spec fn count_param(query: Seq<char>, name: Seq<char>, default: usize) -> usize {
    match query_value_from(query, name, 0) {
        Some(v) => match parse_usize_chars(v) {
            Some(n) => if n == 0 {
                default
            } else {
                n
            },
            None => default,
        },
        None => default,
    }
}

/// The routing table of the admin console.
pub open spec fn route_of(method: Seq<char>, target: Seq<char>, authenticated: bool) -> Route {
    let path = path_part(target);
    if method == "GET"@ && path == "/api/captcha"@ {
        Route::Captcha
    } else if method == "GET"@ && path == "/metrics"@ {
        Route::Metrics
    } else if method == "GET"@ && (path == "/login.html"@ || path == "/login"@) {
        Route::LoginPage
    } else if method == "POST"@ && path == "/api/login"@ {
        Route::Login
    } else if !authenticated {
        if method == "GET"@ && !has_prefix(path, "/api/"@) {
            Route::RedirectToLogin
        } else {
            Route::Unauthorized
        }
    } else if method == "POST"@ && path == "/api/logout"@ {
        Route::Logout
    } else if method == "GET"@ && page_of(path) is Some {
        Route::Page(page_of(path)->Some_0)
    } else if method == "GET"@ && path == "/api/audit"@ {
        Route::Audit {
            page: count_param(query_part(target), "page"@, 1),
            page_size: count_param(query_part(target), "page_size"@, AUDIT_PAGE_SIZE),
        }
    } else {
        api_route_of(method, path)
    }
}

/// The query of a request target (after the first `?`; empty without one).
pub fn query_of(target: &str) -> (q: String)
    ensures
        q@ == query_part(target@),
{
    let n = target.unicode_len();
    let k = find_char(target, '?', 0);
    if k < n {
        char_slice(target, k + 1, n)
    } else {
        String::new()
    }
}

/// The raw value of the first `&`-separated part of `q`, at or after `from`,
/// whose key (the text before its first `=`) is `name`; parts without `=` are
/// passed over.
pub open spec fn query_value_from(q: Seq<char>, name: Seq<char>, from: int) -> Option<Seq<char>>
    decreases q.len() - from,
{
    if from < 0 || from > q.len() {
        None
    } else {
        proof {
            lemma_char_index_bounds(q, '&', from);
        }
        let end = char_index(q, '&', from);
        let part = q.subrange(from, end);
        let eq = char_index(part, '=', 0);
        if eq < part.len() && part.subrange(0, eq) == name {
            Some(part.subrange(eq + 1, part.len() as int))
        } else if end < q.len() {
            query_value_from(q, name, end + 1)
        } else {
            None
        }
    }
}

/// The raw (still percent-encoded) value of the query parameter `name`: the
/// first `key=value` part of `query` whose key is `name`.
pub fn query_value(query: &str, name: &str) -> (r: Option<String>)
    ensures
        opt_text(r) == query_value_from(query@, name@, 0),
{
    let n = query.unicode_len();
    let mut from: usize = 0;
    loop
        invariant
            n == query@.len(),
            from <= n,
            query_value_from(query@, name@, 0) == query_value_from(query@, name@, from as int),
        decreases n - from,
    {
        let end = find_char(query, '&', from);
        let part = char_slice(query, from, end);
        let m = part.unicode_len();
        let eq = find_char(part.as_str(), '=', 0);
        if eq < m {
            let key = char_slice(part.as_str(), 0, eq);
            if str_eq(key.as_str(), name) {
                return Some(char_slice(part.as_str(), eq + 1, m));
            }
        }
        if end < n {
            from = end + 1;
        } else {
            return None;
        }
    }
}

fn page_for(path: &str) -> (p: Option<Page>)
    ensures
        p == page_of(path@),
{
    if str_eq(path, "/") || str_eq(path, "/index.html") {
        Some(Page::Index)
    } else if str_eq(path, "/clients.html") {
        Some(Page::Clients)
    } else if str_eq(path, "/settings.html") {
        Some(Page::Settings)
    } else if str_eq(path, "/traffic.html") {
        Some(Page::Traffic)
    } else {
        None
    }
}

fn api_route(method: &str, path: &str) -> (r: Route)
    ensures
        r == api_route_of(method@, path@),
{
    let get = str_eq(method, "GET");
    let post = str_eq(method, "POST");
    if get && str_eq(path, "/api/status") {
        Route::Status
    } else if get && str_eq(path, "/api/clients") {
        Route::Clients
    } else if get && str_eq(path, "/api/traffic") {
        Route::Traffic
    } else if get && str_eq(path, "/api/traffic/history") {
        Route::TrafficHistory
    } else if get && str_eq(path, "/api/proxies") {
        Route::Proxies
    } else if post && str_eq(path, "/api/proxies") {
        Route::CreateProxy
    } else if str_eq(method, "PUT") && str_eq(path, "/api/token") {
        Route::UpdateToken
    } else if post && str_eq(path, "/api/kick") {
        Route::Kick
    } else if post && str_eq(path, "/api/reload") {
        Route::Reload
    } else if str_eq(method, "DELETE") && str_eq(path, "/api/proxies") {
        Route::DeleteProxy
    } else {
        Route::NotFound
    }
}

/// Decides which handler answers a request with this method and target, given
/// whether the request carries a valid session (always the case when login is
/// disabled).
pub fn route(method: &str, target: &str, authenticated: bool) -> (r: Route)
    ensures
        r == route_of(method@, target@, authenticated),
{
    let k = find_char(target, '?', 0);
    let path_string = char_slice(target, 0, k);
    let path = path_string.as_str();
    let get = str_eq(method, "GET");
    let post = str_eq(method, "POST");
    if get && str_eq(path, "/api/captcha") {
        return Route::Captcha;
    }
    if get && str_eq(path, "/metrics") {
        return Route::Metrics;
    }
    if get && (str_eq(path, "/login.html") || str_eq(path, "/login")) {
        return Route::LoginPage;
    }
    if post && str_eq(path, "/api/login") {
        return Route::Login;
    }
    if !authenticated {
        if get && !starts_with(path, "/api/") {
            return Route::RedirectToLogin;
        }
        return Route::Unauthorized;
    }
    if post && str_eq(path, "/api/logout") {
        return Route::Logout;
    }
    if get {
        if let Some(p) = page_for(path) {
            return Route::Page(p);
        }
        if str_eq(path, "/api/audit") {
            let query = query_of(target);
            let page = count_value(query.as_str(), "page", 1);
            let page_size = count_value(query.as_str(), "page_size", AUDIT_PAGE_SIZE);
            return Route::Audit { page, page_size };
        }
    }
    api_route(method, path)
}

/// A positive number given by the query parameter `name` (see `count_param`).
fn count_value(query: &str, name: &str, default: usize) -> (n: usize)
    ensures
        n == count_param(query@, name@, default),
{
    match query_value(query, name) {
        Some(v) => match parse_usize(v.as_str()) {
            Some(n) => if n == 0 {
                default
            } else {
                n
            },
            None => default,
        },
        None => default,
    }
}

/// Whether a route is open to requests without a session.
pub open spec fn is_public_route(r: Route) -> bool {
    r == Route::Captcha || r == Route::Metrics || r == Route::LoginPage || r == Route::Login
}

/// A request without a valid session reaches only the captcha, the metrics,
/// the login page and the login API; any other request is redirected to the
/// login page or refused, and never reaches a page or an API handler.
pub proof fn lemma_no_session_no_access(method: Seq<char>, target: Seq<char>)
    ensures
        is_public_route(route_of(method, target, false)) || route_of(method, target, false)
            == Route::RedirectToLogin || route_of(method, target, false) == Route::Unauthorized,
{
}

/// With a valid session every request is answered as without one when it is
/// public, and otherwise by a page, an API handler or `NotFound`.
pub proof fn lemma_session_routes(method: Seq<char>, target: Seq<char>)
    ensures
        is_public_route(route_of(method, target, false)) ==> route_of(method, target, true) == route_of(
            method,
            target,
            false,
        ),
        route_of(method, target, true) != Route::RedirectToLogin,
        route_of(method, target, true) != Route::Unauthorized,
{
}

/// The methods and paths of the routing table are distinct texts.
proof fn lemma_route_texts_distinct()
    ensures
        "GET"@ != "POST"@,
        "GET"@ != "PUT"@,
        "GET"@ != "DELETE"@,
        "POST"@ != "PUT"@,
        "POST"@ != "DELETE"@,
        "PUT"@ != "DELETE"@,
        "/api/captcha"@ != "/metrics"@,
        "/api/captcha"@ != "/login.html"@,
        "/api/captcha"@ != "/login"@,
        "/api/captcha"@ != "/api/login"@,
        "/api/captcha"@ != "/api/logout"@,
        "/api/captcha"@ != "/"@,
        "/api/captcha"@ != "/index.html"@,
        "/api/captcha"@ != "/clients.html"@,
        "/api/captcha"@ != "/settings.html"@,
        "/api/captcha"@ != "/traffic.html"@,
        "/api/captcha"@ != "/api/status"@,
        "/api/captcha"@ != "/api/clients"@,
        "/api/captcha"@ != "/api/traffic"@,
        "/api/captcha"@ != "/api/traffic/history"@,
        "/api/captcha"@ != "/api/proxies"@,
        "/api/captcha"@ != "/api/token"@,
        "/api/captcha"@ != "/api/kick"@,
        "/api/captcha"@ != "/api/reload"@,
        "/api/captcha"@ != "/api/audit"@,
        "/metrics"@ != "/login.html"@,
        "/metrics"@ != "/login"@,
        "/metrics"@ != "/api/login"@,
        "/metrics"@ != "/api/logout"@,
        "/metrics"@ != "/"@,
        "/metrics"@ != "/index.html"@,
        "/metrics"@ != "/clients.html"@,
        "/metrics"@ != "/settings.html"@,
        "/metrics"@ != "/traffic.html"@,
        "/metrics"@ != "/api/status"@,
        "/metrics"@ != "/api/clients"@,
        "/metrics"@ != "/api/traffic"@,
        "/metrics"@ != "/api/traffic/history"@,
        "/metrics"@ != "/api/proxies"@,
        "/metrics"@ != "/api/token"@,
        "/metrics"@ != "/api/kick"@,
        "/metrics"@ != "/api/reload"@,
        "/metrics"@ != "/api/audit"@,
        "/login.html"@ != "/login"@,
        "/login.html"@ != "/api/login"@,
        "/login.html"@ != "/api/logout"@,
        "/login.html"@ != "/"@,
        "/login.html"@ != "/index.html"@,
        "/login.html"@ != "/clients.html"@,
        "/login.html"@ != "/settings.html"@,
        "/login.html"@ != "/traffic.html"@,
        "/login.html"@ != "/api/status"@,
        "/login.html"@ != "/api/clients"@,
        "/login.html"@ != "/api/traffic"@,
        "/login.html"@ != "/api/traffic/history"@,
        "/login.html"@ != "/api/proxies"@,
        "/login.html"@ != "/api/token"@,
        "/login.html"@ != "/api/kick"@,
        "/login.html"@ != "/api/reload"@,
        "/login.html"@ != "/api/audit"@,
        "/login"@ != "/api/login"@,
        "/login"@ != "/api/logout"@,
        "/login"@ != "/"@,
        "/login"@ != "/index.html"@,
        "/login"@ != "/clients.html"@,
        "/login"@ != "/settings.html"@,
        "/login"@ != "/traffic.html"@,
        "/login"@ != "/api/status"@,
        "/login"@ != "/api/clients"@,
        "/login"@ != "/api/traffic"@,
        "/login"@ != "/api/traffic/history"@,
        "/login"@ != "/api/proxies"@,
        "/login"@ != "/api/token"@,
        "/login"@ != "/api/kick"@,
        "/login"@ != "/api/reload"@,
        "/login"@ != "/api/audit"@,
        "/api/login"@ != "/api/logout"@,
        "/api/login"@ != "/"@,
        "/api/login"@ != "/index.html"@,
        "/api/login"@ != "/clients.html"@,
        "/api/login"@ != "/settings.html"@,
        "/api/login"@ != "/traffic.html"@,
        "/api/login"@ != "/api/status"@,
        "/api/login"@ != "/api/clients"@,
        "/api/login"@ != "/api/traffic"@,
        "/api/login"@ != "/api/traffic/history"@,
        "/api/login"@ != "/api/proxies"@,
        "/api/login"@ != "/api/token"@,
        "/api/login"@ != "/api/kick"@,
        "/api/login"@ != "/api/reload"@,
        "/api/login"@ != "/api/audit"@,
        "/api/logout"@ != "/"@,
        "/api/logout"@ != "/index.html"@,
        "/api/logout"@ != "/clients.html"@,
        "/api/logout"@ != "/settings.html"@,
        "/api/logout"@ != "/traffic.html"@,
        "/api/logout"@ != "/api/status"@,
        "/api/logout"@ != "/api/clients"@,
        "/api/logout"@ != "/api/traffic"@,
        "/api/logout"@ != "/api/traffic/history"@,
        "/api/logout"@ != "/api/proxies"@,
        "/api/logout"@ != "/api/token"@,
        "/api/logout"@ != "/api/kick"@,
        "/api/logout"@ != "/api/reload"@,
        "/api/logout"@ != "/api/audit"@,
        "/"@ != "/index.html"@,
        "/"@ != "/clients.html"@,
        "/"@ != "/settings.html"@,
        "/"@ != "/traffic.html"@,
        "/"@ != "/api/status"@,
        "/"@ != "/api/clients"@,
        "/"@ != "/api/traffic"@,
        "/"@ != "/api/traffic/history"@,
        "/"@ != "/api/proxies"@,
        "/"@ != "/api/token"@,
        "/"@ != "/api/kick"@,
        "/"@ != "/api/reload"@,
        "/"@ != "/api/audit"@,
        "/index.html"@ != "/clients.html"@,
        "/index.html"@ != "/settings.html"@,
        "/index.html"@ != "/traffic.html"@,
        "/index.html"@ != "/api/status"@,
        "/index.html"@ != "/api/clients"@,
        "/index.html"@ != "/api/traffic"@,
        "/index.html"@ != "/api/traffic/history"@,
        "/index.html"@ != "/api/proxies"@,
        "/index.html"@ != "/api/token"@,
        "/index.html"@ != "/api/kick"@,
        "/index.html"@ != "/api/reload"@,
        "/index.html"@ != "/api/audit"@,
        "/clients.html"@ != "/settings.html"@,
        "/clients.html"@ != "/traffic.html"@,
        "/clients.html"@ != "/api/status"@,
        "/clients.html"@ != "/api/clients"@,
        "/clients.html"@ != "/api/traffic"@,
        "/clients.html"@ != "/api/traffic/history"@,
        "/clients.html"@ != "/api/proxies"@,
        "/clients.html"@ != "/api/token"@,
        "/clients.html"@ != "/api/kick"@,
        "/clients.html"@ != "/api/reload"@,
        "/clients.html"@ != "/api/audit"@,
        "/settings.html"@ != "/traffic.html"@,
        "/settings.html"@ != "/api/status"@,
        "/settings.html"@ != "/api/clients"@,
        "/settings.html"@ != "/api/traffic"@,
        "/settings.html"@ != "/api/traffic/history"@,
        "/settings.html"@ != "/api/proxies"@,
        "/settings.html"@ != "/api/token"@,
        "/settings.html"@ != "/api/kick"@,
        "/settings.html"@ != "/api/reload"@,
        "/settings.html"@ != "/api/audit"@,
        "/traffic.html"@ != "/api/status"@,
        "/traffic.html"@ != "/api/clients"@,
        "/traffic.html"@ != "/api/traffic"@,
        "/traffic.html"@ != "/api/traffic/history"@,
        "/traffic.html"@ != "/api/proxies"@,
        "/traffic.html"@ != "/api/token"@,
        "/traffic.html"@ != "/api/kick"@,
        "/traffic.html"@ != "/api/reload"@,
        "/traffic.html"@ != "/api/audit"@,
        "/api/status"@ != "/api/clients"@,
        "/api/status"@ != "/api/traffic"@,
        "/api/status"@ != "/api/traffic/history"@,
        "/api/status"@ != "/api/proxies"@,
        "/api/status"@ != "/api/token"@,
        "/api/status"@ != "/api/kick"@,
        "/api/status"@ != "/api/reload"@,
        "/api/status"@ != "/api/audit"@,
        "/api/clients"@ != "/api/traffic"@,
        "/api/clients"@ != "/api/traffic/history"@,
        "/api/clients"@ != "/api/proxies"@,
        "/api/clients"@ != "/api/token"@,
        "/api/clients"@ != "/api/kick"@,
        "/api/clients"@ != "/api/reload"@,
        "/api/clients"@ != "/api/audit"@,
        "/api/traffic"@ != "/api/traffic/history"@,
        "/api/traffic"@ != "/api/proxies"@,
        "/api/traffic"@ != "/api/token"@,
        "/api/traffic"@ != "/api/kick"@,
        "/api/traffic"@ != "/api/reload"@,
        "/api/traffic"@ != "/api/audit"@,
        "/api/traffic/history"@ != "/api/proxies"@,
        "/api/traffic/history"@ != "/api/token"@,
        "/api/traffic/history"@ != "/api/kick"@,
        "/api/traffic/history"@ != "/api/reload"@,
        "/api/traffic/history"@ != "/api/audit"@,
        "/api/proxies"@ != "/api/token"@,
        "/api/proxies"@ != "/api/kick"@,
        "/api/proxies"@ != "/api/reload"@,
        "/api/proxies"@ != "/api/audit"@,
        "/api/token"@ != "/api/kick"@,
        "/api/token"@ != "/api/reload"@,
        "/api/token"@ != "/api/audit"@,
        "/api/kick"@ != "/api/reload"@,
        "/api/kick"@ != "/api/audit"@,
        "/api/reload"@ != "/api/audit"@,
{
    reveal_strlit("GET");
    reveal_strlit("POST");
    reveal_strlit("PUT");
    reveal_strlit("DELETE");
    reveal_strlit("/api/captcha");
    reveal_strlit("/metrics");
    reveal_strlit("/login.html");
    reveal_strlit("/login");
    reveal_strlit("/api/login");
    reveal_strlit("/api/logout");
    reveal_strlit("/");
    reveal_strlit("/index.html");
    reveal_strlit("/clients.html");
    reveal_strlit("/settings.html");
    reveal_strlit("/traffic.html");
    reveal_strlit("/api/status");
    reveal_strlit("/api/clients");
    reveal_strlit("/api/traffic");
    reveal_strlit("/api/traffic/history");
    reveal_strlit("/api/proxies");
    reveal_strlit("/api/token");
    reveal_strlit("/api/kick");
    reveal_strlit("/api/reload");
    reveal_strlit("/api/audit");
    assert("GET"@.len() != "POST"@.len());
    assert("GET"@[0] != "PUT"@[0]);
    assert("GET"@.len() != "DELETE"@.len());
    assert("POST"@.len() != "PUT"@.len());
    assert("POST"@.len() != "DELETE"@.len());
    assert("PUT"@.len() != "DELETE"@.len());
    assert("/api/captcha"@.len() != "/metrics"@.len());
    assert("/api/captcha"@.len() != "/login.html"@.len());
    assert("/api/captcha"@.len() != "/login"@.len());
    assert("/api/captcha"@.len() != "/api/login"@.len());
    assert("/api/captcha"@.len() != "/api/logout"@.len());
    assert("/api/captcha"@.len() != "/"@.len());
    assert("/api/captcha"@.len() != "/index.html"@.len());
    assert("/api/captcha"@.len() != "/clients.html"@.len());
    assert("/api/captcha"@.len() != "/settings.html"@.len());
    assert("/api/captcha"@.len() != "/traffic.html"@.len());
    assert("/api/captcha"@.len() != "/api/status"@.len());
    assert("/api/captcha"@[6] != "/api/clients"@[6]);
    assert("/api/captcha"@[5] != "/api/traffic"@[5]);
    assert("/api/captcha"@.len() != "/api/traffic/history"@.len());
    assert("/api/captcha"@[5] != "/api/proxies"@[5]);
    assert("/api/captcha"@.len() != "/api/token"@.len());
    assert("/api/captcha"@.len() != "/api/kick"@.len());
    assert("/api/captcha"@.len() != "/api/reload"@.len());
    assert("/api/captcha"@.len() != "/api/audit"@.len());
    assert("/metrics"@.len() != "/login.html"@.len());
    assert("/metrics"@.len() != "/login"@.len());
    assert("/metrics"@.len() != "/api/login"@.len());
    assert("/metrics"@.len() != "/api/logout"@.len());
    assert("/metrics"@.len() != "/"@.len());
    assert("/metrics"@.len() != "/index.html"@.len());
    assert("/metrics"@.len() != "/clients.html"@.len());
    assert("/metrics"@.len() != "/settings.html"@.len());
    assert("/metrics"@.len() != "/traffic.html"@.len());
    assert("/metrics"@.len() != "/api/status"@.len());
    assert("/metrics"@.len() != "/api/clients"@.len());
    assert("/metrics"@.len() != "/api/traffic"@.len());
    assert("/metrics"@.len() != "/api/traffic/history"@.len());
    assert("/metrics"@.len() != "/api/proxies"@.len());
    assert("/metrics"@.len() != "/api/token"@.len());
    assert("/metrics"@.len() != "/api/kick"@.len());
    assert("/metrics"@.len() != "/api/reload"@.len());
    assert("/metrics"@.len() != "/api/audit"@.len());
    assert("/login.html"@.len() != "/login"@.len());
    assert("/login.html"@.len() != "/api/login"@.len());
    assert("/login.html"@[1] != "/api/logout"@[1]);
    assert("/login.html"@.len() != "/"@.len());
    assert("/login.html"@[1] != "/index.html"@[1]);
    assert("/login.html"@.len() != "/clients.html"@.len());
    assert("/login.html"@.len() != "/settings.html"@.len());
    assert("/login.html"@.len() != "/traffic.html"@.len());
    assert("/login.html"@[1] != "/api/status"@[1]);
    assert("/login.html"@.len() != "/api/clients"@.len());
    assert("/login.html"@.len() != "/api/traffic"@.len());
    assert("/login.html"@.len() != "/api/traffic/history"@.len());
    assert("/login.html"@.len() != "/api/proxies"@.len());
    assert("/login.html"@.len() != "/api/token"@.len());
    assert("/login.html"@.len() != "/api/kick"@.len());
    assert("/login.html"@[1] != "/api/reload"@[1]);
    assert("/login.html"@.len() != "/api/audit"@.len());
    assert("/login"@.len() != "/api/login"@.len());
    assert("/login"@.len() != "/api/logout"@.len());
    assert("/login"@.len() != "/"@.len());
    assert("/login"@.len() != "/index.html"@.len());
    assert("/login"@.len() != "/clients.html"@.len());
    assert("/login"@.len() != "/settings.html"@.len());
    assert("/login"@.len() != "/traffic.html"@.len());
    assert("/login"@.len() != "/api/status"@.len());
    assert("/login"@.len() != "/api/clients"@.len());
    assert("/login"@.len() != "/api/traffic"@.len());
    assert("/login"@.len() != "/api/traffic/history"@.len());
    assert("/login"@.len() != "/api/proxies"@.len());
    assert("/login"@.len() != "/api/token"@.len());
    assert("/login"@.len() != "/api/kick"@.len());
    assert("/login"@.len() != "/api/reload"@.len());
    assert("/login"@.len() != "/api/audit"@.len());
    assert("/api/login"@.len() != "/api/logout"@.len());
    assert("/api/login"@.len() != "/"@.len());
    assert("/api/login"@.len() != "/index.html"@.len());
    assert("/api/login"@.len() != "/clients.html"@.len());
    assert("/api/login"@.len() != "/settings.html"@.len());
    assert("/api/login"@.len() != "/traffic.html"@.len());
    assert("/api/login"@.len() != "/api/status"@.len());
    assert("/api/login"@.len() != "/api/clients"@.len());
    assert("/api/login"@.len() != "/api/traffic"@.len());
    assert("/api/login"@.len() != "/api/traffic/history"@.len());
    assert("/api/login"@.len() != "/api/proxies"@.len());
    assert("/api/login"@[5] != "/api/token"@[5]);
    assert("/api/login"@.len() != "/api/kick"@.len());
    assert("/api/login"@.len() != "/api/reload"@.len());
    assert("/api/login"@[5] != "/api/audit"@[5]);
    assert("/api/logout"@.len() != "/"@.len());
    assert("/api/logout"@[1] != "/index.html"@[1]);
    assert("/api/logout"@.len() != "/clients.html"@.len());
    assert("/api/logout"@.len() != "/settings.html"@.len());
    assert("/api/logout"@.len() != "/traffic.html"@.len());
    assert("/api/logout"@[5] != "/api/status"@[5]);
    assert("/api/logout"@.len() != "/api/clients"@.len());
    assert("/api/logout"@.len() != "/api/traffic"@.len());
    assert("/api/logout"@.len() != "/api/traffic/history"@.len());
    assert("/api/logout"@.len() != "/api/proxies"@.len());
    assert("/api/logout"@.len() != "/api/token"@.len());
    assert("/api/logout"@.len() != "/api/kick"@.len());
    assert("/api/logout"@[5] != "/api/reload"@[5]);
    assert("/api/logout"@.len() != "/api/audit"@.len());
    assert("/"@.len() != "/index.html"@.len());
    assert("/"@.len() != "/clients.html"@.len());
    assert("/"@.len() != "/settings.html"@.len());
    assert("/"@.len() != "/traffic.html"@.len());
    assert("/"@.len() != "/api/status"@.len());
    assert("/"@.len() != "/api/clients"@.len());
    assert("/"@.len() != "/api/traffic"@.len());
    assert("/"@.len() != "/api/traffic/history"@.len());
    assert("/"@.len() != "/api/proxies"@.len());
    assert("/"@.len() != "/api/token"@.len());
    assert("/"@.len() != "/api/kick"@.len());
    assert("/"@.len() != "/api/reload"@.len());
    assert("/"@.len() != "/api/audit"@.len());
    assert("/index.html"@.len() != "/clients.html"@.len());
    assert("/index.html"@.len() != "/settings.html"@.len());
    assert("/index.html"@.len() != "/traffic.html"@.len());
    assert("/index.html"@[1] != "/api/status"@[1]);
    assert("/index.html"@.len() != "/api/clients"@.len());
    assert("/index.html"@.len() != "/api/traffic"@.len());
    assert("/index.html"@.len() != "/api/traffic/history"@.len());
    assert("/index.html"@.len() != "/api/proxies"@.len());
    assert("/index.html"@.len() != "/api/token"@.len());
    assert("/index.html"@.len() != "/api/kick"@.len());
    assert("/index.html"@[1] != "/api/reload"@[1]);
    assert("/index.html"@.len() != "/api/audit"@.len());
    assert("/clients.html"@.len() != "/settings.html"@.len());
    assert("/clients.html"@[1] != "/traffic.html"@[1]);
    assert("/clients.html"@.len() != "/api/status"@.len());
    assert("/clients.html"@.len() != "/api/clients"@.len());
    assert("/clients.html"@.len() != "/api/traffic"@.len());
    assert("/clients.html"@.len() != "/api/traffic/history"@.len());
    assert("/clients.html"@.len() != "/api/proxies"@.len());
    assert("/clients.html"@.len() != "/api/token"@.len());
    assert("/clients.html"@.len() != "/api/kick"@.len());
    assert("/clients.html"@.len() != "/api/reload"@.len());
    assert("/clients.html"@.len() != "/api/audit"@.len());
    assert("/settings.html"@.len() != "/traffic.html"@.len());
    assert("/settings.html"@.len() != "/api/status"@.len());
    assert("/settings.html"@.len() != "/api/clients"@.len());
    assert("/settings.html"@.len() != "/api/traffic"@.len());
    assert("/settings.html"@.len() != "/api/traffic/history"@.len());
    assert("/settings.html"@.len() != "/api/proxies"@.len());
    assert("/settings.html"@.len() != "/api/token"@.len());
    assert("/settings.html"@.len() != "/api/kick"@.len());
    assert("/settings.html"@.len() != "/api/reload"@.len());
    assert("/settings.html"@.len() != "/api/audit"@.len());
    assert("/traffic.html"@.len() != "/api/status"@.len());
    assert("/traffic.html"@.len() != "/api/clients"@.len());
    assert("/traffic.html"@.len() != "/api/traffic"@.len());
    assert("/traffic.html"@.len() != "/api/traffic/history"@.len());
    assert("/traffic.html"@.len() != "/api/proxies"@.len());
    assert("/traffic.html"@.len() != "/api/token"@.len());
    assert("/traffic.html"@.len() != "/api/kick"@.len());
    assert("/traffic.html"@.len() != "/api/reload"@.len());
    assert("/traffic.html"@.len() != "/api/audit"@.len());
    assert("/api/status"@.len() != "/api/clients"@.len());
    assert("/api/status"@.len() != "/api/traffic"@.len());
    assert("/api/status"@.len() != "/api/traffic/history"@.len());
    assert("/api/status"@.len() != "/api/proxies"@.len());
    assert("/api/status"@.len() != "/api/token"@.len());
    assert("/api/status"@.len() != "/api/kick"@.len());
    assert("/api/status"@[5] != "/api/reload"@[5]);
    assert("/api/status"@.len() != "/api/audit"@.len());
    assert("/api/clients"@[5] != "/api/traffic"@[5]);
    assert("/api/clients"@.len() != "/api/traffic/history"@.len());
    assert("/api/clients"@[5] != "/api/proxies"@[5]);
    assert("/api/clients"@.len() != "/api/token"@.len());
    assert("/api/clients"@.len() != "/api/kick"@.len());
    assert("/api/clients"@.len() != "/api/reload"@.len());
    assert("/api/clients"@.len() != "/api/audit"@.len());
    assert("/api/traffic"@.len() != "/api/traffic/history"@.len());
    assert("/api/traffic"@[5] != "/api/proxies"@[5]);
    assert("/api/traffic"@.len() != "/api/token"@.len());
    assert("/api/traffic"@.len() != "/api/kick"@.len());
    assert("/api/traffic"@.len() != "/api/reload"@.len());
    assert("/api/traffic"@.len() != "/api/audit"@.len());
    assert("/api/traffic/history"@.len() != "/api/proxies"@.len());
    assert("/api/traffic/history"@.len() != "/api/token"@.len());
    assert("/api/traffic/history"@.len() != "/api/kick"@.len());
    assert("/api/traffic/history"@.len() != "/api/reload"@.len());
    assert("/api/traffic/history"@.len() != "/api/audit"@.len());
    assert("/api/proxies"@.len() != "/api/token"@.len());
    assert("/api/proxies"@.len() != "/api/kick"@.len());
    assert("/api/proxies"@.len() != "/api/reload"@.len());
    assert("/api/proxies"@.len() != "/api/audit"@.len());
    assert("/api/token"@.len() != "/api/kick"@.len());
    assert("/api/token"@.len() != "/api/reload"@.len());
    assert("/api/token"@[5] != "/api/audit"@[5]);
    assert("/api/kick"@.len() != "/api/reload"@.len());
    assert("/api/kick"@.len() != "/api/audit"@.len());
    assert("/api/reload"@.len() != "/api/audit"@.len());
}

/// With a session, `GET /api/status` (any query) is the one request that reaches
/// `Status`: no other method and no other path, not even one that merely starts
/// with `/api/status`, does.
pub proof fn lemma_route_status_exact(method: Seq<char>, target: Seq<char>)
    ensures
        route_of(method, target, true) == Route::Status <==> (method == "GET"@ && path_part(target)
            == "/api/status"@),
{
    lemma_route_texts_distinct();
}

/// With a session, `GET /api/clients` (any query) is the one request that reaches
/// `Clients`: no other method and no other path, not even one that merely starts
/// with `/api/clients`, does.
pub proof fn lemma_route_clients_exact(method: Seq<char>, target: Seq<char>)
    ensures
        route_of(method, target, true) == Route::Clients <==> (method == "GET"@ && path_part(target)
            == "/api/clients"@),
{
    lemma_route_texts_distinct();
}

/// With a session, `GET /api/traffic` (any query) is the one request that reaches
/// `Traffic`: no other method and no other path, not even one that merely starts
/// with `/api/traffic`, does.
pub proof fn lemma_route_traffic_exact(method: Seq<char>, target: Seq<char>)
    ensures
        route_of(method, target, true) == Route::Traffic <==> (method == "GET"@ && path_part(target)
            == "/api/traffic"@),
{
    lemma_route_texts_distinct();
}

/// With a session, `GET /api/traffic/history` (any query) is the one request that reaches
/// `TrafficHistory`: no other method and no other path, not even one that merely starts
/// with `/api/traffic/history`, does.
pub proof fn lemma_route_traffichistory_exact(method: Seq<char>, target: Seq<char>)
    ensures
        route_of(method, target, true) == Route::TrafficHistory <==> (method == "GET"@ && path_part(target)
            == "/api/traffic/history"@),
{
    lemma_route_texts_distinct();
}

/// With a session, `GET /api/proxies` (any query) is the one request that reaches
/// `Proxies`: no other method and no other path, not even one that merely starts
/// with `/api/proxies`, does.
pub proof fn lemma_route_proxies_exact(method: Seq<char>, target: Seq<char>)
    ensures
        route_of(method, target, true) == Route::Proxies <==> (method == "GET"@ && path_part(target)
            == "/api/proxies"@),
{
    lemma_route_texts_distinct();
}

/// With a session, `POST /api/proxies` (any query) is the one request that reaches
/// `CreateProxy`: no other method and no other path, not even one that merely starts
/// with `/api/proxies`, does.
pub proof fn lemma_route_createproxy_exact(method: Seq<char>, target: Seq<char>)
    ensures
        route_of(method, target, true) == Route::CreateProxy <==> (method == "POST"@ && path_part(target)
            == "/api/proxies"@),
{
    lemma_route_texts_distinct();
}

/// With a session, `DELETE /api/proxies` (any query) is the one request that reaches
/// `DeleteProxy`: no other method and no other path, not even one that merely starts
/// with `/api/proxies`, does.
pub proof fn lemma_route_deleteproxy_exact(method: Seq<char>, target: Seq<char>)
    ensures
        route_of(method, target, true) == Route::DeleteProxy <==> (method == "DELETE"@ && path_part(target)
            == "/api/proxies"@),
{
    lemma_route_texts_distinct();
}

/// With a session, `PUT /api/token` (any query) is the one request that reaches
/// `UpdateToken`: no other method and no other path, not even one that merely starts
/// with `/api/token`, does.
pub proof fn lemma_route_updatetoken_exact(method: Seq<char>, target: Seq<char>)
    ensures
        route_of(method, target, true) == Route::UpdateToken <==> (method == "PUT"@ && path_part(target)
            == "/api/token"@),
{
    lemma_route_texts_distinct();
}

/// With a session, `POST /api/kick` (any query) is the one request that reaches
/// `Kick`: no other method and no other path, not even one that merely starts
/// with `/api/kick`, does.
pub proof fn lemma_route_kick_exact(method: Seq<char>, target: Seq<char>)
    ensures
        route_of(method, target, true) == Route::Kick <==> (method == "POST"@ && path_part(target)
            == "/api/kick"@),
{
    lemma_route_texts_distinct();
}

/// With a session, `POST /api/reload` (any query) is the one request that reaches
/// `Reload`: no other method and no other path, not even one that merely starts
/// with `/api/reload`, does.
pub proof fn lemma_route_reload_exact(method: Seq<char>, target: Seq<char>)
    ensures
        route_of(method, target, true) == Route::Reload <==> (method == "POST"@ && path_part(target)
            == "/api/reload"@),
{
    lemma_route_texts_distinct();
}

/// With a session, `POST /api/logout` (any query) is the one request that reaches
/// `Logout`: no other method and no other path, not even one that merely starts
/// with `/api/logout`, does.
pub proof fn lemma_route_logout_exact(method: Seq<char>, target: Seq<char>)
    ensures
        route_of(method, target, true) == Route::Logout <==> (method == "POST"@ && path_part(target)
            == "/api/logout"@),
{
    lemma_route_texts_distinct();
}

/// With a session, the audit page is reached exactly by `GET /api/audit`
/// (with any query).
pub proof fn lemma_route_audit_exact(method: Seq<char>, target: Seq<char>)
    ensures
        route_of(method, target, true) is Audit <==> (method == "GET"@ && path_part(target)
            == "/api/audit"@),
{
    lemma_route_texts_distinct();
}

} // verus!
