//! Client traffic statistics.
//!
//! Each tunnel session accumulates TCP/UDP upstream/downstream bytes; when the
//! session closes, [`TrafficTracker::merge`] adds them to a per-`client_id`
//! cumulative table. A time series ([`TrafficTracker::sample`]) records, every
//! sampling interval, each client's cumulative traffic plus the live traffic of
//! online sessions, keeping the most recent [`HISTORY_POINTS`] samples.

use vstd::prelude::*;
use std::collections::VecDeque;
use crate::common::crypto::now_millis;
use crate::common::text::str_eq;

verus! {

/// Disk save interval, in seconds.
pub const SAVE_INTERVAL_SECS: u64 = 60;

/// Time-series sample interval, in seconds.
pub const SAMPLE_INTERVAL_SECS: u64 = 30;

/// Number of history sample points retained (about 100 minutes).
pub const HISTORY_POINTS: usize = 200;

/// Cumulative traffic of a single client (bytes).
#[derive(Debug, Clone, Copy, PartialEq, Eq, Structural)]
pub struct TrafficCounter {
    /// TCP upstream (client -> server -> public).
    pub tcp_up: u64,
    /// TCP downstream (public -> server -> client).
    pub tcp_down: u64,
    /// UDP upstream (client -> server -> public).
    pub udp_up: u64,
    /// UDP downstream (public -> server -> client).
    pub udp_down: u64,
}

/// The all-zero counter.
pub open spec fn zero_counter() -> TrafficCounter {
    TrafficCounter { tcp_up: 0, tcp_down: 0, udp_up: 0, udp_down: 0 }
}

/// Whether adding `b` to `a` overflows none of the four fields.
pub open spec fn fits_sum(a: TrafficCounter, b: TrafficCounter) -> bool {
    &&& a.tcp_up + b.tcp_up <= u64::MAX
    &&& a.tcp_down + b.tcp_down <= u64::MAX
    &&& a.udp_up + b.udp_up <= u64::MAX
    &&& a.udp_down + b.udp_down <= u64::MAX
}

/// Field-wise sum of two counters (meaningful when `fits_sum(a, b)`).
pub open spec fn sum_counter(a: TrafficCounter, b: TrafficCounter) -> TrafficCounter {
    TrafficCounter {
        tcp_up: (a.tcp_up + b.tcp_up) as u64,
        tcp_down: (a.tcp_down + b.tcp_down) as u64,
        udp_up: (a.udp_up + b.udp_up) as u64,
        udp_down: (a.udp_down + b.udp_down) as u64,
    }
}

/// Whether all four fields are zero.
pub open spec fn counter_is_zero(c: TrafficCounter) -> bool {
    c.tcp_up == 0 && c.tcp_down == 0 && c.udp_up == 0 && c.udp_down == 0
}

impl Default for TrafficCounter {
    fn default() -> (c: TrafficCounter)
        ensures
            c == zero_counter(),
    {
        TrafficCounter { tcp_up: 0, tcp_down: 0, udp_up: 0, udp_down: 0 }
    }
}

impl TrafficCounter {
    /// Whether all values are zero (zero deltas are not added to the cumulative table).
    pub fn is_zero(&self) -> (z: bool)
        ensures
            z == counter_is_zero(*self),
    {
        self.tcp_up == 0 && self.tcp_down == 0 && self.udp_up == 0 && self.udp_down == 0
    }

    /// Whether `other` can be added to this counter without overflow.
    pub fn fits_with(&self, other: &TrafficCounter) -> (b: bool)
        ensures
            b == fits_sum(*self, *other),
    {
        self.tcp_up <= u64::MAX - other.tcp_up && self.tcp_down <= u64::MAX - other.tcp_down && self.udp_up
            <= u64::MAX - other.udp_up && self.udp_down <= u64::MAX - other.udp_down
    }

    /// Field-wise sum.
    pub fn plus(&self, other: &TrafficCounter) -> (c: TrafficCounter)
        requires
            fits_sum(*self, *other),
        ensures
            c == sum_counter(*self, *other),
    {
        TrafficCounter {
            tcp_up: self.tcp_up + other.tcp_up,
            tcp_down: self.tcp_down + other.tcp_down,
            udp_up: self.udp_up + other.udp_up,
            udp_down: self.udp_down + other.udp_down,
        }
    }
}

/// The counter of `k` in `m`, or zero when absent.
pub open spec fn counter_or_zero(m: Map<Seq<char>, TrafficCounter>, k: Seq<char>) -> TrafficCounter {
    if m.contains_key(k) {
        m[k]
    } else {
        zero_counter()
    }
}

/// `base` with `extra` added key by key: every key of either map, with the sum of
/// its two counters (a missing counter counts as zero).
pub open spec fn overlay(
    base: Map<Seq<char>, TrafficCounter>,
    extra: Map<Seq<char>, TrafficCounter>,
) -> Map<Seq<char>, TrafficCounter> {
    Map::new(
        |k: Seq<char>| base.contains_key(k) || extra.contains_key(k),
        |k: Seq<char>| sum_counter(counter_or_zero(base, k), counter_or_zero(extra, k)),
    )
}

/// Whether `extra` can be added to `base` without overflow.
pub open spec fn overlay_fits(
    base: Map<Seq<char>, TrafficCounter>,
    extra: Map<Seq<char>, TrafficCounter>,
) -> bool {
    forall|k: Seq<char>|
        #![trigger extra.contains_key(k)]
        extra.contains_key(k) ==> fits_sum(counter_or_zero(base, k), extra[k])
}

/// A table `client_id -> TrafficCounter` with distinct keys.
#[derive(Debug)]
pub struct TrafficTable {
    entries: Vec<(String, TrafficCounter)>,
}

impl TrafficTable {
    #[verifier::type_invariant]
    closed spec fn keys_distinct(&self) -> bool {
        forall|i: int, j: int|
            0 <= i < j < self.entries@.len() ==> #[trigger] self.entries@[i].0@
                != #[trigger] self.entries@[j].0@
    }

    closed spec fn has_key_at(&self, k: Seq<char>, i: int) -> bool {
        0 <= i < self.entries@.len() && self.entries@[i].0@ == k
    }

    /// The table as a map from client id to counter.
    pub closed spec fn map(&self) -> Map<Seq<char>, TrafficCounter> {
        Map::new(
            |k: Seq<char>| exists|i: int| self.has_key_at(k, i),
            |k: Seq<char>| self.entries@[choose|i: int| self.has_key_at(k, i)].1,
        )
    }

    proof fn lemma_at(&self, i: int)
        requires
            self.keys_distinct(),
            0 <= i < self.entries@.len(),
        ensures
            self.map().contains_key(self.entries@[i].0@),
            self.map()[self.entries@[i].0@] == self.entries@[i].1,
    {
        let k = self.entries@[i].0@;
        assert(self.has_key_at(k, i));
        let j = choose|j: int| self.has_key_at(k, j);
        assert(self.has_key_at(k, j));
        if j != i {
            if j < i {
                assert(self.entries@[j].0@ != self.entries@[i].0@);
            } else {
                assert(self.entries@[i].0@ != self.entries@[j].0@);
            }
        }
    }

    /// An empty table.
    pub fn new() -> (t: TrafficTable)
        ensures
            t.map() == Map::<Seq<char>, TrafficCounter>::empty(),
    {
        let t = TrafficTable { entries: Vec::new() };
        assert(t.map() =~= Map::<Seq<char>, TrafficCounter>::empty());
        t
    }

    /// The index of `k`, if present.
    fn find(&self, k: &str) -> (r: Option<usize>)
        ensures
            match r {
                Some(i) => self.has_key_at(k@, i as int),
                None => !self.map().contains_key(k@),
            },
    {
        let mut i: usize = 0;
        while i < self.entries.len()
            invariant
                i <= self.entries@.len(),
                forall|j: int| 0 <= j < i ==> self.entries@[j].0@ != k@,
            decreases self.entries@.len() - i,
        {
            if str_eq(self.entries[i].0.as_str(), k) {
                return Some(i);
            }
            i = i + 1;
        }
        None
    }

    /// Whether `k` has a counter.
    pub fn contains_key(&self, k: &str) -> (b: bool)
        ensures
            b == self.map().contains_key(k@),
    {
        match self.find(k) {
            Some(i) => {
                proof {
                    use_type_invariant(self);
                    self.lemma_at(i as int);
                }
                true
            },
            None => false,
        }
    }

    /// The counter of `k`, if present.
    pub fn get(&self, k: &str) -> (r: Option<TrafficCounter>)
        ensures
            r == (if self.map().contains_key(k@) {
                Some(self.map()[k@])
            } else {
                None
            }),
    {
        match self.find(k) {
            Some(i) => {
                proof {
                    use_type_invariant(self);
                    self.lemma_at(i as int);
                }
                Some(self.entries[i].1)
            },
            None => None,
        }
    }

    /// Sets the counter of `k` to `v`, replacing any previous one.
    pub fn put(&mut self, k: &str, v: TrafficCounter)
        ensures
            final(self).map() == old(self).map().insert(k@, v),
    {
        proof {
            use_type_invariant(&*self);
        }
        let ghost m0 = self.map();
        let ghost e0 = self.entries@;
        match self.find(k) {
            Some(i) => {
                proof {
                    self.lemma_at(i as int);
                }
                let sum = v;
                let name = self.entries[i].0.clone();
                let mut entries: Vec<(String, TrafficCounter)> = Vec::new();
                std::mem::swap(&mut entries, &mut self.entries);
                entries.set(i, (name, sum));
                proof {
                    assert(entries@[i as int].0@ == e0[i as int].0@);
                    assert forall|a: int, b: int|
                        0 <= a < b < entries@.len() implies #[trigger] entries@[a].0@
                        != #[trigger] entries@[b].0@ by {
                        assert(entries@[a].0@ == e0[a].0@);
                        assert(entries@[b].0@ == e0[b].0@);
                        assert(e0[a].0@ != e0[b].0@);
                    }
                }
                self.entries = entries;
                proof {
                    use_type_invariant(&*self);
                    assert(self.entries@[i as int].0@ == k@);
                    let m1 = self.map();
                    assert forall|q: Seq<char>|
                        #[trigger] m1.contains_key(q) == m0.insert(k@, sum).contains_key(q) by {
                        if m1.contains_key(q) {
                            let j = choose|j: int| self.has_key_at(q, j);
                            if j != i {
                                assert(old(self).has_key_at(q, j));
                            }
                        }
                        if q == k@ {
                            assert(self.has_key_at(q, i as int));
                        } else if m0.contains_key(q) {
                            let j = choose|j: int| old(self).has_key_at(q, j);
                            assert(self.has_key_at(q, j));
                        }
                    }
                    assert forall|q: Seq<char>| #[trigger]
                        m1.contains_key(q) implies m1[q] == m0.insert(k@, sum)[q] by {
                        let j = choose|j: int| self.has_key_at(q, j);
                        self.lemma_at(j);
                        if q != k@ {
                            assert(j != i);
                            assert(old(self).has_key_at(q, j));
                            old(self).lemma_at(j);
                        }
                    }
                    assert(m1 =~= m0.insert(k@, sum));
                }
            },
            None => {
                let sum = v;
                let name = k.to_owned();
                proof {
                    assert forall|j: int| 0 <= j < e0.len() implies e0[j].0@ != k@ by {
                        if e0[j].0@ == k@ {
                            assert(self.has_key_at(k@, j));
                        }
                    }
                }
                let mut entries: Vec<(String, TrafficCounter)> = Vec::new();
                std::mem::swap(&mut entries, &mut self.entries);
                entries.push((name, sum));
                proof {
                    assert forall|a: int, b: int|
                        0 <= a < b < entries@.len() implies #[trigger] entries@[a].0@
                        != #[trigger] entries@[b].0@ by {
                        if b < e0.len() {
                            assert(e0[a].0@ != e0[b].0@);
                        }
                    }
                }
                self.entries = entries;
                proof {
                    use_type_invariant(&*self);
                    let m1 = self.map();
                    let n = e0.len() as int;
                    assert(self.has_key_at(k@, n));
                    self.lemma_at(n);
                    assert forall|q: Seq<char>|
                        #[trigger] m1.contains_key(q) == m0.insert(k@, sum).contains_key(q) by {
                        if m1.contains_key(q) && q != k@ {
                            let j = choose|j: int| self.has_key_at(q, j);
                            assert(old(self).has_key_at(q, j));
                        }
                        if q != k@ && m0.contains_key(q) {
                            let j = choose|j: int| old(self).has_key_at(q, j);
                            assert(self.has_key_at(q, j));
                        }
                    }
                    assert forall|q: Seq<char>| #[trigger]
                        m1.contains_key(q) implies m1[q] == m0.insert(k@, sum)[q] by {
                        let j = choose|j: int| self.has_key_at(q, j);
                        self.lemma_at(j);
                        if q != k@ {
                            assert(old(self).has_key_at(q, j));
                            old(self).lemma_at(j);
                        }
                    }
                    assert(m1 =~= m0.insert(k@, sum));
                }
            },
        }
    }

    /// Adds `delta` to the counter of `k` (a missing counter counts as zero).
    pub fn add(&mut self, k: &str, delta: &TrafficCounter)
        requires
            fits_sum(counter_or_zero(old(self).map(), k@), *delta),
        ensures
            final(self).map() == old(self).map().insert(
                k@,
                sum_counter(counter_or_zero(old(self).map(), k@), *delta),
            ),
    {
        let cur = match self.get(k) {
            Some(c) => c,
            None => TrafficCounter { tcp_up: 0, tcp_down: 0, udp_up: 0, udp_down: 0 },
        };
        let sum = cur.plus(delta);
        self.put(k, sum);
    }
}


impl TrafficTable {
    /// The keys of the first `n` entries, with their counters.
    closed spec fn prefix_map(&self, n: int) -> Map<Seq<char>, TrafficCounter> {
        Map::new(
            |k: Seq<char>| exists|j: int| 0 <= j < n && self.has_key_at(k, j),
            |k: Seq<char>| self.map()[k],
        )
    }

    /// The table with `online` added key by key, or `None` when a sum would
    /// overflow.
    pub fn overlay_with(&self, online: &TrafficTable) -> (r: Option<TrafficTable>)
        ensures
            match r {
                Some(t) => overlay_fits(self.map(), online.map()) && t.map() == overlay(self.map(), online.map()),
                None => !overlay_fits(self.map(), online.map()),
            },
    {
        proof {
            use_type_invariant(online);
        }
        let ghost base = self.map();
        let mut acc = self.copy_table();
        let mut i: usize = 0;
        proof {
            assert(online.prefix_map(0) =~= Map::<Seq<char>, TrafficCounter>::empty());
            assert(acc.map() =~= overlay(base, online.prefix_map(0)));
        }
        while i < online.entries.len()
            invariant
                online.keys_distinct(),
                i <= online.entries@.len(),
                base == self.map(),
                acc.map() == overlay(base, online.prefix_map(i as int)),
                forall|q: Seq<char>|
                    #![trigger online.prefix_map(i as int).contains_key(q)]
                    online.prefix_map(i as int).contains_key(q) ==> fits_sum(
                        counter_or_zero(base, q),
                        online.map()[q],
                    ),
            decreases online.entries@.len() - i,
        {
            let ghost k = online.entries@[i as int].0@;
            let ghost v = online.entries@[i as int].1;
            proof {
                online.lemma_at(i as int);
                assert(!online.prefix_map(i as int).contains_key(k)) by {
                    if online.prefix_map(i as int).contains_key(k) {
                        let j = choose|j: int| 0 <= j < i && online.has_key_at(k, j);
                        assert(online.entries@[j].0@ != online.entries@[i as int].0@);
                    }
                }
                assert(online.map().contains_key(k));
                assert(counter_or_zero(acc.map(), k) == counter_or_zero(base, k));
            }
            let current = match acc.get(online.entries[i].0.as_str()) {
                Some(c) => c,
                None => TrafficCounter { tcp_up: 0, tcp_down: 0, udp_up: 0, udp_down: 0 },
            };
            if !current.fits_with(&online.entries[i].1) {
                proof {
                    assert(online.map()[k] == v);
                    assert(!fits_sum(counter_or_zero(base, k), online.map()[k]));
                }
                return None;
            }
            acc.add(online.entries[i].0.as_str(), &online.entries[i].1);
            proof {
                let m = overlay(base, online.prefix_map(i + 1));
                assert forall|q: Seq<char>| #[trigger] online.prefix_map(i + 1).contains_key(q) == (
                online.prefix_map(i as int).contains_key(q) || q == k) by {
                    if q == k {
                        assert(online.has_key_at(k, i as int));
                    }
                    if online.prefix_map(i + 1).contains_key(q) && q != k {
                        let j = choose|j: int| 0 <= j < i + 1 && online.has_key_at(q, j);
                        assert(j != i);
                    }
                }
                assert(acc.map() =~= m);
            }
            i = i + 1;
        }
        proof {
            assert forall|q: Seq<char>| #[trigger] online.prefix_map(i as int).contains_key(q)
                == online.map().contains_key(q) by {
            }
            assert(online.prefix_map(i as int) =~= online.map());
        }
        Some(acc)
    }

    /// A copy of the table.
    pub fn copy_table(&self) -> (t: TrafficTable)
        ensures
            t.map() == self.map(),
    {
        proof {
            use_type_invariant(self);
        }
        let mut entries: Vec<(String, TrafficCounter)> = Vec::new();
        let mut i: usize = 0;
        while i < self.entries.len()
            invariant
                self.keys_distinct(),
                i <= self.entries@.len(),
                entries@.len() == i,
                forall|j: int| 0 <= j < i ==> #[trigger] entries@[j].0@ == self.entries@[j].0@
                    && entries@[j].1 == self.entries@[j].1,
            decreases self.entries@.len() - i,
        {
            let name = self.entries[i].0.clone();
            entries.push((name, self.entries[i].1));
            i = i + 1;
        }
        proof {
            assert forall|a: int, b: int|
                0 <= a < b < entries@.len() implies #[trigger] entries@[a].0@
                != #[trigger] entries@[b].0@ by {
                assert(entries@[a].0@ == self.entries@[a].0@);
                assert(entries@[b].0@ == self.entries@[b].0@);
            }
        }
        let t = TrafficTable { entries };
        proof {
            assert forall|q: Seq<char>| #[trigger] t.map().contains_key(q) == self.map().contains_key(q) by {
                if t.map().contains_key(q) {
                    let j = choose|j: int| t.has_key_at(q, j);
                    assert(self.has_key_at(q, j));
                }
                if self.map().contains_key(q) {
                    let j = choose|j: int| self.has_key_at(q, j);
                    assert(t.has_key_at(q, j));
                }
            }
            assert forall|q: Seq<char>| #[trigger] t.map().contains_key(q) implies t.map()[q] == self.map()[q] by {
                let j = choose|j: int| t.has_key_at(q, j);
                t.lemma_at(j);
                assert(self.has_key_at(q, j));
                self.lemma_at(j);
            }
            assert(t.map() =~= self.map());
        }
        t
    }

    /// All entries of the table, each client id once.
    pub fn to_vec(&self) -> (v: Vec<(String, TrafficCounter)>)
        ensures
            forall|j: int|
                0 <= j < v@.len() ==> self.map().contains_key(#[trigger] v@[j].0@) && self.map()[v@[j].0@]
                    == v@[j].1,
            forall|k: Seq<char>|
                #[trigger] self.map().contains_key(k) ==> exists|j: int| 0 <= j < v@.len() && v@[j].0@ == k,
            forall|a: int, b: int| 0 <= a < b < v@.len() ==> #[trigger] v@[a].0@ != #[trigger] v@[b].0@,
    {
        proof {
            use_type_invariant(self);
        }
        let mut v: Vec<(String, TrafficCounter)> = Vec::new();
        let mut i: usize = 0;
        while i < self.entries.len()
            invariant
                self.keys_distinct(),
                i <= self.entries@.len(),
                v@.len() == i,
                forall|j: int| 0 <= j < i ==> #[trigger] v@[j].0@ == self.entries@[j].0@
                    && v@[j].1 == self.entries@[j].1,
            decreases self.entries@.len() - i,
        {
            let name = self.entries[i].0.clone();
            v.push((name, self.entries[i].1));
            i = i + 1;
        }
        proof {
            assert forall|j: int| 0 <= j < v@.len() implies self.map().contains_key(#[trigger] v@[j].0@)
                && self.map()[v@[j].0@] == v@[j].1 by {
                self.lemma_at(j);
            }
            assert forall|k: Seq<char>| #[trigger] self.map().contains_key(k) implies exists|j: int|
                0 <= j < v@.len() && v@[j].0@ == k by {
                let j = choose|j: int| self.has_key_at(k, j);
                assert(v@[j].0@ == k);
            }
            assert forall|a: int, b: int| 0 <= a < b < v@.len() implies #[trigger] v@[a].0@
                != #[trigger] v@[b].0@ by {
                assert(v@[a].0@ == self.entries@[a].0@);
                assert(v@[b].0@ == self.entries@[b].0@);
            }
        }
        v
    }
}

/// A single time-series sample: each client's cumulative traffic at a point in
/// time (including live online amounts).
#[derive(Debug)]
pub struct HistorySample {
    pub ts_ms: u64,
    pub totals: TrafficTable,
}

impl HistorySample {
    /// A copy of the sample.
    pub fn copy_sample(&self) -> (s: HistorySample)
        ensures
            s.ts_ms == self.ts_ms,
            s.totals.map() == self.totals.map(),
    {
        HistorySample { ts_ms: self.ts_ms, totals: self.totals.copy_table() }
    }
}

/// Traffic statistics tracker: `client_id -> cumulative traffic`, with merge,
/// snapshot and time-series sampling.
pub struct TrafficTracker {
    totals: TrafficTable,
    history: VecDeque<HistorySample>,
}

/// The history kept before a new sample is appended: the oldest sample is
/// dropped once `HISTORY_POINTS` are held.
pub open spec fn kept_history(h: Seq<HistorySample>) -> Seq<HistorySample> {
    if h.len() >= HISTORY_POINTS {
        h.drop_first()
    } else {
        h
    }
}

impl TrafficTracker {
    /// The cumulative table.
    pub closed spec fn totals_map(&self) -> Map<Seq<char>, TrafficCounter> {
        self.totals.map()
    }

    /// The samples, oldest first.
    pub closed spec fn samples(&self) -> Seq<HistorySample> {
        self.history@
    }

    /// A tracker with the given cumulative totals and no history (the totals of a
    /// previous run are restored this way).
    pub fn from_totals(totals: TrafficTable) -> (t: TrafficTracker)
        ensures
            t.totals_map() == totals.map(),
            t.samples().len() == 0,
    {
        TrafficTracker { totals, history: VecDeque::new() }
    }

    /// A tracker with no traffic and no history.
    pub fn new() -> (t: TrafficTracker)
        ensures
            t.totals_map() == Map::<Seq<char>, TrafficCounter>::empty(),
            t.samples().len() == 0,
    {
        TrafficTracker { totals: TrafficTable::new(), history: VecDeque::new() }
    }

    /// Merges a session's traffic delta (when the session closes). A zero delta
    /// is not recorded.
    pub fn merge(&mut self, client_id: &str, delta: &TrafficCounter)
        requires
            counter_is_zero(*delta) || fits_sum(
                counter_or_zero(old(self).totals_map(), client_id@),
                *delta,
            ),
        ensures
            counter_is_zero(*delta) ==> final(self).totals_map() == old(self).totals_map(),
            !counter_is_zero(*delta) ==> final(self).totals_map() == old(self).totals_map().insert(
                client_id@,
                sum_counter(counter_or_zero(old(self).totals_map(), client_id@), *delta),
            ),
            final(self).samples() == old(self).samples(),
    {
        if delta.is_zero() {
            return ;
        }
        self.totals.add(client_id, delta);
    }

    /// Whether `merge` may add `delta` to the total of `client_id`: a zero
    /// delta, or one whose sum does not overflow.
    pub fn merge_fits(&self, client_id: &str, delta: &TrafficCounter) -> (b: bool)
        ensures
            b == (counter_is_zero(*delta) || fits_sum(counter_or_zero(self.totals_map(), client_id@), *delta)),
    {
        if delta.is_zero() {
            return true;
        }
        let current = match self.totals.get(client_id) {
            Some(c) => c,
            None => TrafficCounter { tcp_up: 0, tcp_down: 0, udp_up: 0, udp_down: 0 },
        };
        current.fits_with(delta)
    }

    /// Whether `sample` may add the live traffic `online` to the totals
    /// without overflow.
    pub fn sample_fits(&self, online: &TrafficTable) -> (b: bool)
        ensures
            b == overlay_fits(self.totals_map(), online.map()),
    {
        self.totals.overlay_with(online).is_some()
    }

    /// Cumulative traffic snapshot (without the live deltas of online sessions).
    pub fn snapshot(&self) -> (t: TrafficTable)
        ensures
            t.map() == self.totals_map(),
    {
        self.totals.copy_table()
    }

    /// Time-series sampling: appends a sample of the cumulative values plus the
    /// caller-provided live online traffic, dropping the oldest sample when
    /// `HISTORY_POINTS` are already held.
    pub fn sample(&mut self, online: &TrafficTable)
        requires
            overlay_fits(old(self).totals_map(), online.map()),
        ensures
            final(self).totals_map() == old(self).totals_map(),
            final(self).samples().len() == kept_history(old(self).samples()).len() + 1,
            forall|i: int|
                0 <= i < kept_history(old(self).samples()).len() ==> #[trigger] final(self).samples()[i]
                    == kept_history(old(self).samples())[i],
            final(self).samples().last().totals.map() == overlay(
                old(self).totals_map(),
                online.map(),
            ),
            old(self).samples().len() <= HISTORY_POINTS ==> final(self).samples().len()
                <= HISTORY_POINTS,
    {
        let acc = self.totals.overlay_with(online).unwrap();
        let ghost h0 = self.history@;
        if self.history.len() >= HISTORY_POINTS {
            let _ = self.history.pop_front();
        }
        self.history.push_back(HistorySample { ts_ms: now_millis(), totals: acc });
        proof {
            assert(self.history@.drop_last() =~= kept_history(h0));
        }
    }

    /// All time-series samples, oldest first.
    pub fn history(&self) -> (v: Vec<HistorySample>)
        ensures
            v@.len() == self.samples().len(),
            forall|i: int|
                0 <= i < v@.len() ==> (#[trigger] v@[i]).ts_ms == self.samples()[i].ts_ms
                    && v@[i].totals.map() == self.samples()[i].totals.map(),
    {
        let mut v: Vec<HistorySample> = Vec::new();
        let mut i: usize = 0;
        while i < self.history.len()
            invariant
                i <= self.history@.len(),
                v@.len() == i,
                forall|j: int|
                    0 <= j < i ==> (#[trigger] v@[j]).ts_ms == self.history@[j].ts_ms
                        && v@[j].totals.map() == self.history@[j].totals.map(),
            decreases self.history@.len() - i,
        {
            v.push(self.history[i].copy_sample());
            i = i + 1;
        }
        v
    }
}

} // verus!
