//! Server-side tunnel session bookkeeping: which session is current for each
//! client id, and the kick blacklist.
//!
//! A session is known here by its session id; whatever else belongs to it is
//! kept by its owner under that id. Registering a client id replaces its
//! current session. The cleanup of a session removes it only while it is still
//! the current one, so that an old connection ending after a reconnect never
//! removes the new session.

use vstd::prelude::*;
use crate::common::crypto::{now_millis, window_millis};
use crate::common::tables::{
    opt_view, text_entries, text_get, text_insert, text_len, text_new, text_remove, text_table,
    time_get, time_insert, time_new, time_table, TextTable, TimeTable,
};

verus! {

/// Online client snapshot (for the admin console).
#[derive(Debug, Clone)]
pub struct SessionInfo {
    pub client_id: String,
    pub session_id: String,
    pub last_activity_ms: u64,
    pub active_streams: usize,
}

/// Tunnel session manager: `client_id -> session_id`, plus the kick
/// blacklist `client_id -> kicked_at` (milliseconds).
pub struct TunnelManager {
    sessions: TextTable,
    kicked: TimeTable,
}

/// Whether a client kicked at `kicked_at` is still refused at `now`: at most
/// `window_secs` seconds have passed (saturating arithmetic).
pub open spec fn kicked_within(kicked: Map<Seq<char>, u64>, client_id: Seq<char>, window_secs: u64, now: u64) -> bool {
    kicked.contains_key(client_id) && (if now >= kicked[client_id] {
        now - kicked[client_id]
    } else {
        0
    }) <= window_millis(window_secs)
}

/// The current sessions after cleaning up session `session_id` of
/// `client_id`: removed only when it is the current one.
pub open spec fn after_cleanup(
    sessions: Map<Seq<char>, Seq<char>>,
    client_id: Seq<char>,
    session_id: Seq<char>,
) -> Map<Seq<char>, Seq<char>> {
    if sessions.contains_key(client_id) && sessions[client_id] == session_id {
        sessions.remove(client_id)
    } else {
        sessions
    }
}

impl TunnelManager {
    /// The current session id of each online client.
    pub closed spec fn sessions(&self) -> Map<Seq<char>, Seq<char>> {
        text_table(self.sessions)
    }

    /// When each kicked client was kicked.
    pub closed spec fn kicked(&self) -> Map<Seq<char>, u64> {
        time_table(self.kicked)
    }

    /// An empty manager.
    pub fn new() -> (m: TunnelManager)
        ensures
            m.sessions() == Map::<Seq<char>, Seq<char>>::empty(),
            m.kicked() == Map::<Seq<char>, u64>::empty(),
    {
        let m = TunnelManager { sessions: text_new(), kicked: time_new() };
        proof {
            assert(m.sessions() =~= Map::<Seq<char>, Seq<char>>::empty());
            assert(m.kicked() =~= Map::<Seq<char>, u64>::empty());
        }
        m
    }

    /// Records a kick of `client_id` at `now`.
    pub fn mark_kicked_at(&mut self, client_id: &str, now: u64)
        ensures
            final(self).kicked() == old(self).kicked().insert(client_id@, now),
            final(self).sessions() == old(self).sessions(),
    {
        time_insert(&mut self.kicked, client_id.to_string(), now);
    }

    /// Records a kick of `client_id` at the current time.
    pub fn mark_kicked(&mut self, client_id: &str)
        ensures
            exists|now: u64| final(self).kicked() == old(self).kicked().insert(client_id@, now),
            final(self).sessions() == old(self).sessions(),
    {
        self.mark_kicked_at(client_id, now_millis());
    }

    /// Whether `client_id` was kicked within `window_secs` seconds before `now`.
    pub fn is_kicked_at(&self, client_id: &str, window_secs: u64, now: u64) -> (r: bool)
        ensures
            r == kicked_within(self.kicked(), client_id@, window_secs, now),
    {
        match time_get(&self.kicked, client_id) {
            Some(ts) => {
                let window: u64 = if window_secs > u64::MAX / 1000 {
                    u64::MAX
                } else {
                    window_secs * 1000
                };
                now.saturating_sub(ts) <= window
            },
            None => false,
        }
    }

    /// Whether `client_id` was kicked within the last `window_secs` seconds;
    /// used to refuse a kicked client's immediate reconnect.
    pub fn is_kicked(&self, client_id: &str, window_secs: u64) -> (r: bool)
        ensures
            exists|now: u64| r == kicked_within(self.kicked(), client_id@, window_secs, now),
    {
        self.is_kicked_at(client_id, window_secs, now_millis())
    }

    /// Registers session `session_id` as the current one of `client_id`,
    /// replacing any other; returns the replaced session id.
    pub fn register(&mut self, client_id: String, session_id: String) -> (r: Option<String>)
        ensures
            final(self).sessions() == old(self).sessions().insert(client_id@, session_id@),
            opt_view(r) == old(self).sessions().get(client_id@),
            final(self).kicked() == old(self).kicked(),
    {
        text_insert(&mut self.sessions, client_id, session_id)
    }

    /// Unregisters the current session of `client_id`, returning its id.
    pub fn unregister(&mut self, client_id: &str) -> (r: Option<String>)
        ensures
            final(self).sessions() == old(self).sessions().remove(client_id@),
            opt_view(r) == old(self).sessions().get(client_id@),
            final(self).kicked() == old(self).kicked(),
    {
        text_remove(&mut self.sessions, client_id)
    }

    /// Unregisters session `session_id` of `client_id` only while it is the
    /// current one; returns its id when it was removed.
    pub fn unregister_if_current(&mut self, client_id: &str, session_id: &str) -> (r: Option<String>)
        ensures
            final(self).sessions() == after_cleanup(old(self).sessions(), client_id@, session_id@),
            opt_view(r) == (if old(self).sessions().contains_key(client_id@) && old(
                self,
            ).sessions()[client_id@] == session_id@ {
                Some(session_id@)
            } else {
                None
            }),
            final(self).kicked() == old(self).kicked(),
    {
        let current = match text_get(&self.sessions, client_id) {
            Some(c) => c,
            None => return None,
        };
        if crate::common::text::str_eq(current.as_str(), session_id) {
            return text_remove(&mut self.sessions, client_id);
        }
        None
    }

    /// The current session id of `client_id`.
    pub fn get(&self, client_id: &str) -> (r: Option<String>)
        ensures
            opt_view(r) == self.sessions().get(client_id@),
    {
        text_get(&self.sessions, client_id)
    }

    /// The number of online clients.
    pub fn len(&self) -> (r: usize)
        ensures
            r == self.sessions().len(),
    {
        text_len(&self.sessions)
    }

    /// Every online client with its current session id, in no fixed order.
    pub fn list(&self) -> (r: Vec<(String, String)>)
        ensures
            r@.len() == self.sessions().len(),
            forall|i: int|
                0 <= i < r@.len() ==> self.sessions().contains_key(#[trigger] r@[i].0@)
                    && self.sessions()[r@[i].0@] == r@[i].1@,
            forall|i: int, j: int| 0 <= i < j < r@.len() ==> r@[i].0@ != r@[j].0@,
    {
        text_entries(&self.sessions)
    }
}

/// Reconnect race: when a client reconnects (a new session registered under
/// the same client id), cleaning up the old session leaves the new one in
/// place, and cleaning up the new one removes it.
pub proof fn lemma_reconnect_race(
    sessions: Map<Seq<char>, Seq<char>>,
    client_id: Seq<char>,
    old_session: Seq<char>,
    new_session: Seq<char>,
)
    requires
        old_session != new_session,
    ensures
        ({
            let s = sessions.insert(client_id, old_session).insert(client_id, new_session);
            &&& after_cleanup(s, client_id, old_session) == s
            &&& after_cleanup(s, client_id, old_session)[client_id] == new_session
            &&& !after_cleanup(after_cleanup(s, client_id, old_session), client_id, new_session).contains_key(client_id)
        }),
{
}

/// Registration replaces: after registering a session, it is the one found
/// for its client id, whatever was registered before.
pub proof fn lemma_register_replaces(
    sessions: Map<Seq<char>, Seq<char>>,
    client_id: Seq<char>,
    first: Seq<char>,
    second: Seq<char>,
)
    ensures
        sessions.insert(client_id, first).insert(client_id, second).get(client_id) == Some(second),
{
}

/// The kick blacklist refuses a kicked client during the window after the kick
/// and leaves other clients alone.
pub proof fn lemma_kick_window(
    kicked: Map<Seq<char>, u64>,
    client_id: Seq<char>,
    other: Seq<char>,
    at: u64,
    window_secs: u64,
    now: u64,
)
    requires
        at <= now,
        now - at <= window_millis(window_secs),
        other != client_id,
    ensures
        kicked_within(kicked.insert(client_id, at), client_id, window_secs, now),
        kicked_within(kicked.insert(client_id, at), other, window_secs, now) == kicked_within(
            kicked,
            other,
            window_secs,
            now,
        ),
{
}

/// A kick stops refusing the client once the window is over: at any time more
/// than `window_secs` seconds after the kick, the kicked client is no longer
/// refused.
pub proof fn lemma_kick_expires(kicked: Map<Seq<char>, u64>, client_id: Seq<char>, at: u64, window_secs: u64, now: u64)
    requires
        at <= now,
        window_secs * 1000 <= u64::MAX,
        now - at > window_secs * 1000,
    ensures
        !kicked_within(kicked.insert(client_id, at), client_id, window_secs, now),
{
}

} // verus!
