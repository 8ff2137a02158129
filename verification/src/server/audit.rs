//! In-memory audit log shared by the admin console and the proxy listeners.
//!
//! Records security-relevant events (admin logins, token/rule changes, kicks,
//! reloads) and tunnel connection events (which public IP reached which proxy
//! service) in a fixed-capacity ring buffer. Persistence of each entry is done by
//! the program that owns the log.

use vstd::prelude::*;
use std::collections::VecDeque;
use crate::common::crypto::now_millis;

verus! {

/// Maximum number of audit entries kept in memory (ring buffer).
pub const AUDIT_LOG_CAP: usize = 500;

/// A single audit entry.
#[derive(Debug)]
pub struct AuditEntry {
    /// Event time (ms since epoch).
    pub ts_ms: u64,
    /// Event type, e.g. `login`, `proxy_connect`, `kick`, `reload`.
    pub action: String,
    /// Human-readable detail.
    pub detail: String,
    /// Client IP that triggered the event.
    pub ip: String,
}

impl AuditEntry {
    /// A copy of the entry.
    pub fn copy_entry(&self) -> (e: AuditEntry)
        ensures
            e == *self,
    {
        AuditEntry {
            ts_ms: self.ts_ms,
            action: self.action.clone(),
            detail: self.detail.clone(),
            ip: self.ip.clone(),
        }
    }
}

/// The ring buffer after appending `e` to `s`: the oldest entry is dropped once
/// `AUDIT_LOG_CAP` entries are held.
pub open spec fn ring_push(s: Seq<AuditEntry>, e: AuditEntry) -> Seq<AuditEntry> {
    if s.len() >= AUDIT_LOG_CAP {
        s.drop_first().push(e)
    } else {
        s.push(e)
    }
}

/// The newest `AUDIT_LOG_CAP` entries of `s`, oldest first.
pub open spec fn tail_of(s: Seq<AuditEntry>) -> Seq<AuditEntry> {
    if s.len() <= AUDIT_LOG_CAP {
        s
    } else {
        s.subrange(s.len() - AUDIT_LOG_CAP, s.len() as int)
    }
}

/// One page of the audit log: the number of held entries, the page asked for,
/// its size, and the entries of that page, newest first.
#[derive(Debug)]
pub struct AuditPage {
    pub total: usize,
    pub page: usize,
    pub page_size: usize,
    pub items: Vec<AuditEntry>,
}

/// Where page `page` (counted from 1; 0 counts as 1) of `page_size` entries
/// starts in a list of `total` entries: at `(page - 1) * page_size`, or at the
/// end when that lies beyond it.
pub open spec fn page_start(total: nat, page: nat, page_size: nat) -> nat {
    if page == 0 {
        0
    } else if (page - 1) * page_size >= total {
        total
    } else {
        ((page - 1) * page_size) as nat
    }
}

/// Where that page ends: `page_size` entries on, or at the end of the list.
pub open spec fn page_end(total: nat, page: nat, page_size: nat) -> nat {
    let start = page_start(total, page, page_size);
    if start + page_size >= total {
        total
    } else {
        start + page_size
    }
}

/// Audit log: a ring buffer of the most recent entries, oldest first.
pub struct AuditLog {
    entries: VecDeque<AuditEntry>,
}

impl AuditLog {
    /// The held entries, oldest first.
    pub closed spec fn held(&self) -> Seq<AuditEntry> {
        self.entries@
    }

    /// An empty log.
    pub fn new() -> (log: AuditLog)
        ensures
            log.held().len() == 0,
    {
        AuditLog { entries: VecDeque::new() }
    }

    fn push_entry(&mut self, e: AuditEntry)
        ensures
            final(self).held() == ring_push(old(self).held(), e),
    {
        if self.entries.len() >= AUDIT_LOG_CAP {
            let _ = self.entries.pop_front();
        }
        self.entries.push_back(e);
    }

    /// A log holding the tail of previously persisted entries (oldest first):
    /// each is pushed in turn, so the newest `AUDIT_LOG_CAP` remain.
    pub fn from_entries(entries: Vec<AuditEntry>) -> (log: AuditLog)
        ensures
            log.held() == tail_of(entries@),
    {
        let mut log = AuditLog::new();
        let mut i: usize = 0;
        proof {
            assert(log.held() =~= tail_of(entries@.subrange(0, 0)));
        }
        while i < entries.len()
            invariant
                i <= entries@.len(),
                log.held() == tail_of(entries@.subrange(0, i as int)),
            decreases entries@.len() - i,
        {
            let ghost before = log.held();
            log.push_entry(entries[i].copy_entry());
            proof {
                let p = entries@.subrange(0, i as int);
                let q = entries@.subrange(0, i as int + 1);
                assert(q =~= p.push(entries@[i as int]));
                if p.len() >= AUDIT_LOG_CAP {
                    assert(before == p.subrange(p.len() - AUDIT_LOG_CAP, p.len() as int));
                    assert(log.held() =~= q.subrange(q.len() - AUDIT_LOG_CAP, q.len() as int));
                } else {
                    assert(log.held() =~= tail_of(q));
                }
            }
            i = i + 1;
        }
        proof {
            assert(entries@.subrange(0, entries@.len() as int) =~= entries@);
        }
        log
    }

    /// Appends an entry stamped with the current time, dropping the oldest once the
    /// cap is reached, and returns a copy of it (for persistence).
    pub fn record(&mut self, ip: &str, action: &str, detail: &str) -> (e: AuditEntry)
        ensures
            e.ip@ == ip@,
            e.action@ == action@,
            e.detail@ == detail@,
            final(self).held() == ring_push(old(self).held(), e),
    {
        let entry = AuditEntry {
            ts_ms: now_millis(),
            action: action.to_owned(),
            detail: detail.to_owned(),
            ip: ip.to_owned(),
        };
        let copy = entry.copy_entry();
        self.push_entry(entry);
        copy
    }

    /// Page `page` (from 1) of `page_size` held entries, newest first, with the
    /// number of held entries.
    pub fn page(&self, page: usize, page_size: usize) -> (r: AuditPage)
        ensures
            r.total == self.held().len(),
            r.page == page,
            r.page_size == page_size,
            r.items@ == self.held().reverse().subrange(
                page_start(self.held().len(), page as nat, page_size as nat) as int,
                page_end(self.held().len(), page as nat, page_size as nat) as int,
            ),
    {
        let all = self.snapshot();
        let total = all.len();
        let start: usize = if page == 0 {
            0
        } else {
            match (page - 1).checked_mul(page_size) {
                Some(x) => if x >= total {
                    total
                } else {
                    x
                },
                None => total,
            }
        };
        let end: usize = if page_size >= total - start {
            total
        } else {
            start + page_size
        };
        proof {
            assert(start == page_start(total as nat, page as nat, page_size as nat));
            assert(end == page_end(total as nat, page as nat, page_size as nat));
        }
        let mut items: Vec<AuditEntry> = Vec::new();
        let mut i: usize = start;
        while i < end
            invariant
                start <= i <= end <= total,
                total == all@.len(),
                items@ == all@.subrange(start as int, i as int),
            decreases end - i,
        {
            items.push(all[i].copy_entry());
            i = i + 1;
            proof {
                assert(items@ =~= all@.subrange(start as int, i as int));
            }
        }
        AuditPage { total, page, page_size, items }
    }

    /// All held entries, newest first.
    pub fn snapshot(&self) -> (v: Vec<AuditEntry>)
        ensures
            v@ == self.held().reverse(),
    {
        let n = self.entries.len();
        let mut v: Vec<AuditEntry> = Vec::new();
        let mut i: usize = 0;
        while i < n
            invariant
                n == self.entries@.len(),
                i <= n,
                v@ == self.entries@.reverse().subrange(0, i as int),
            decreases n - i,
        {
            v.push(self.entries[n - 1 - i].copy_entry());
            i = i + 1;
            proof {
                assert(v@ =~= self.entries@.reverse().subrange(0, i as int));
            }
        }
        proof {
            assert(self.entries@.reverse().subrange(0, n as int) =~= self.entries@.reverse());
        }
        v
    }
}

/// The ring buffer never holds more than `AUDIT_LOG_CAP` entries, and after a
/// push the newest entry is the one pushed and the rest keep their order.
pub proof fn lemma_ring_push(s: Seq<AuditEntry>, e: AuditEntry)
    requires
        s.len() <= AUDIT_LOG_CAP,
    ensures
        ring_push(s, e).len() <= AUDIT_LOG_CAP,
        ring_push(s, e).last() == e,
        ring_push(s, e).reverse()[0] == e,
        s.len() < AUDIT_LOG_CAP ==> ring_push(s, e).drop_last() == s,
        s.len() == AUDIT_LOG_CAP ==> ring_push(s, e).drop_last() == s.drop_first(),
{
    assert(ring_push(s, e).drop_last() =~= if s.len() >= AUDIT_LOG_CAP {
        s.drop_first()
    } else {
        s
    });
}

} // verus!
