//! Server-side logic: authentication, traffic accounting, audit log, session
//! bookkeeping and the admin-console helpers.

pub mod auth;
pub mod traffic;
pub mod audit;
pub mod admin;
pub mod manager;
pub mod tunnel;
pub mod notify;
pub mod report;
pub mod proxies;
