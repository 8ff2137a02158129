//! Reports of the traffic totals: the per-client entries of the admin console
//! and the Prometheus metrics text, both ordered by client id.
//!
//! Client ids are ordered lexicographically by character (code point), which
//! is the order of their UTF-8 bytes.

use vstd::prelude::*;
use crate::common::error::push_str;
use crate::common::text::{decimal, push_decimal, str_eq};
use crate::server::admin::escape::{prom_escape, prom_escaped};
use crate::server::traffic::{counter_or_zero, zero_counter, TrafficCounter, TrafficTable};

verus! {

/// Strict lexicographic order of character sequences.
pub open spec fn lex_lt(a: Seq<char>, b: Seq<char>) -> bool
    decreases a.len(),
{
    if a.len() == 0 {
        b.len() > 0
    } else if b.len() == 0 {
        false
    } else if a[0] < b[0] {
        true
    } else if a[0] > b[0] {
        false
    } else {
        lex_lt(a.drop_first(), b.drop_first())
    }
}

/// `lex_lt` is irreflexive.
pub proof fn lemma_lex_irreflexive(a: Seq<char>)
    ensures
        !lex_lt(a, a),
    decreases a.len(),
{
    if a.len() > 0 {
        lemma_lex_irreflexive(a.drop_first());
    }
}

/// `lex_lt` is total on distinct sequences.
pub proof fn lemma_lex_total(a: Seq<char>, b: Seq<char>)
    requires
        a != b,
    ensures
        lex_lt(a, b) || lex_lt(b, a),
    decreases a.len(),
{
    if a.len() > 0 && b.len() > 0 && a[0] == b[0] {
        if a.drop_first() == b.drop_first() {
            assert(a =~= seq![a[0]] + a.drop_first());
            assert(b =~= seq![b[0]] + b.drop_first());
        }
        lemma_lex_total(a.drop_first(), b.drop_first());
    } else if a.len() == 0 && b.len() == 0 {
        assert(a =~= b);
    }
}

/// `lex_lt` is transitive.
pub proof fn lemma_lex_transitive(a: Seq<char>, b: Seq<char>, c: Seq<char>)
    requires
        lex_lt(a, b),
        lex_lt(b, c),
    ensures
        lex_lt(a, c),
    decreases a.len(),
{
    if a.len() > 0 && b.len() > 0 && c.len() > 0 && a[0] == b[0] && b[0] == c[0] {
        lemma_lex_transitive(a.drop_first(), b.drop_first(), c.drop_first());
    }
}

/// `s` lists the entries of `m` in increasing key order, each once.
pub open spec fn sorted_listing(
    s: Seq<(Seq<char>, TrafficCounter)>,
    m: Map<Seq<char>, TrafficCounter>,
) -> bool {
    &&& forall|j: int| 0 <= j < s.len() ==> m.contains_key(#[trigger] s[j].0) && m[s[j].0] == s[j].1
    &&& forall|k: Seq<char>| #[trigger] m.contains_key(k) ==> exists|j: int| 0 <= j < s.len() && s[j].0 == k
    &&& forall|a: int, b: int| 0 <= a < b < s.len() ==> lex_lt(#[trigger] s[a].0, #[trigger] s[b].0)
}

proof fn lemma_listing_tail(s: Seq<(Seq<char>, TrafficCounter)>, m: Map<Seq<char>, TrafficCounter>)
    requires
        sorted_listing(s, m),
        s.len() > 0,
    ensures
        sorted_listing(s.drop_first(), m.remove(s[0].0)),
{
    let k0 = s[0].0;
    let t = s.drop_first();
    let m2 = m.remove(k0);
    assert forall|j: int| 0 <= j < t.len() implies m2.contains_key(#[trigger] t[j].0) && m2[t[j].0] == t[j].1 by {
        assert(t[j] == s[j + 1]);
        assert(lex_lt(s[0].0, s[j + 1].0));
        lemma_lex_irreflexive(k0);
    }
    assert forall|k: Seq<char>| #[trigger] m2.contains_key(k) implies exists|j: int| 0 <= j < t.len() && t[j].0 == k by {
        assert(m.contains_key(k));
        let j = choose|j: int| 0 <= j < s.len() && s[j].0 == k;
        assert(j != 0);
        assert(t[j - 1].0 == k);
    }
    assert forall|a: int, b: int| 0 <= a < b < t.len() implies lex_lt(#[trigger] t[a].0, #[trigger] t[b].0) by {
        assert(t[a] == s[a + 1] && t[b] == s[b + 1]);
    }
}

/// A map has at most one sorted listing: the entries in increasing key order
/// are determined by the map.
pub proof fn lemma_sorted_listing_unique(
    s1: Seq<(Seq<char>, TrafficCounter)>,
    s2: Seq<(Seq<char>, TrafficCounter)>,
    m: Map<Seq<char>, TrafficCounter>,
)
    requires
        sorted_listing(s1, m),
        sorted_listing(s2, m),
    ensures
        s1 == s2,
    decreases s1.len(),
{
    if s1.len() == 0 || s2.len() == 0 {
        if s2.len() > 0 {
            assert(m.contains_key(s2[0].0));
        }
        if s1.len() > 0 {
            assert(m.contains_key(s1[0].0));
        }
        assert(s1 =~= s2);
    } else {
        let k1 = s1[0].0;
        let k2 = s2[0].0;
        if k1 != k2 {
            assert(m.contains_key(k1));
            let j = choose|j: int| 0 <= j < s2.len() && s2[j].0 == k1;
            assert(lex_lt(s2[0].0, s2[j].0));
            assert(m.contains_key(k2));
            let i = choose|i: int| 0 <= i < s1.len() && s1[i].0 == k2;
            assert(lex_lt(s1[0].0, s1[i].0));
            lemma_lex_transitive(k1, k2, k1);
            lemma_lex_irreflexive(k1);
        }
        assert(m.contains_key(k1));
        assert(s1[0] == s2[0]);
        lemma_listing_tail(s1, m);
        lemma_listing_tail(s2, m);
        lemma_sorted_listing_unique(s1.drop_first(), s2.drop_first(), m.remove(k1));
        assert(s1 =~= seq![s1[0]] + s1.drop_first());
        assert(s2 =~= seq![s2[0]] + s2.drop_first());
    }
}

/// Whether `a` comes before `b` (`lex_lt`).
pub fn text_lt(a: &str, b: &str) -> (r: bool)
    ensures
        r == lex_lt(a@, b@),
{
    let n = a.unicode_len();
    let m = b.unicode_len();
    proof {
        assert(a@.subrange(0, n as int) =~= a@);
        assert(b@.subrange(0, m as int) =~= b@);
    }
    let mut i: usize = 0;
    while i < n && i < m
        invariant
            n == a@.len(),
            m == b@.len(),
            i <= n,
            i <= m,
            lex_lt(a@, b@) == lex_lt(a@.subrange(i as int, n as int), b@.subrange(i as int, m as int)),
        decreases n - i,
    {
        let x = a.get_char(i);
        let y = b.get_char(i);
        proof {
            let sa = a@.subrange(i as int, n as int);
            let sb = b@.subrange(i as int, m as int);
            assert(sa[0] == x && sb[0] == y);
            assert(sa.drop_first() =~= a@.subrange(i as int + 1, n as int));
            assert(sb.drop_first() =~= b@.subrange(i as int + 1, m as int));
        }
        if x < y {
            return true;
        }
        if x > y {
            return false;
        }
        i = i + 1;
    }
    proof {
        let sa = a@.subrange(i as int, n as int);
        let sb = b@.subrange(i as int, m as int);
        assert(sa.len() == 0 || sb.len() == 0);
    }
    i == n && i < m
}

/// The entries as (client id, counter) values.
pub open spec fn entries_view(s: Seq<(String, TrafficCounter)>) -> Seq<(Seq<char>, TrafficCounter)> {
    s.map_values(|e: (String, TrafficCounter)| (e.0@, e.1))
}

/// Keys strictly increase along `s`.
pub open spec fn keys_sorted(s: Seq<(Seq<char>, TrafficCounter)>) -> bool {
    forall|a: int, b: int| 0 <= a < b < s.len() ==> lex_lt(#[trigger] s[a].0, #[trigger] s[b].0)
}

proof fn lemma_insert_contains<A>(s: Seq<A>, p: int, x: A)
    requires
        0 <= p <= s.len(),
    ensures
        forall|y: A| #[trigger] s.insert(p, x).contains(y) <==> (s.contains(y) || y == x),
{
    let t = s.insert(p, x);
    assert forall|y: A| #[trigger] t.contains(y) implies (s.contains(y) || y == x) by {
        let k = choose|k: int| 0 <= k < t.len() && t[k] == y;
        if k < p {
            assert(s[k] == y);
        } else if k > p {
            assert(s[k - 1] == y);
        }
    }
    assert forall|y: A| (s.contains(y) || y == x) implies #[trigger] t.contains(y) by {
        if y == x {
            assert(t[p] == x);
        } else {
            let k = choose|k: int| 0 <= k < s.len() && s[k] == y;
            if k < p {
                assert(t[k] == y);
            } else {
                assert(t[k + 1] == y);
            }
        }
    }
}

/// Inserts an entry whose key is not yet present, keeping keys increasing.
fn insert_sorted(out: &mut Vec<(String, TrafficCounter)>, key: String, counter: TrafficCounter)
    requires
        keys_sorted(entries_view(old(out)@)),
        forall|j: int| 0 <= j < old(out)@.len() ==> #[trigger] old(out)@[j].0@ != key@,
    ensures
        keys_sorted(entries_view(final(out)@)),
        exists|p: int|
            0 <= p <= old(out)@.len() && entries_view(final(out)@) == entries_view(old(out)@).insert(
                p,
                (key@, counter),
            ),
{
    let ghost s0 = entries_view(out@);
    let mut p: usize = 0;
    while p < out.len() && !text_lt(key.as_str(), out[p].0.as_str())
        invariant
            p <= out@.len(),
            s0 == entries_view(out@),
            forall|j: int| 0 <= j < p ==> !lex_lt(key@, #[trigger] out@[j].0@),
        decreases out@.len() - p,
    {
        p = p + 1;
    }
    proof {
        assert forall|j: int| 0 <= j < p implies lex_lt(#[trigger] s0[j].0, key@) by {
            assert(s0[j].0 == out@[j].0@);
            lemma_lex_total(out@[j].0@, key@);
        }
        assert forall|j: int| p <= j < s0.len() implies lex_lt(key@, #[trigger] s0[j].0) by {
            assert(s0[p as int].0 == out@[p as int].0@);
            if j > p {
                lemma_lex_transitive(key@, s0[p as int].0, s0[j].0);
            }
        }
    }
    let ghost entry = (key@, counter);
    out.insert(p, (key, counter));
    proof {
        let s1 = entries_view(out@);
        assert(s1 =~= s0.insert(p as int, entry));
        assert forall|a: int, b: int| 0 <= a < b < s1.len() implies lex_lt(
            #[trigger] s1[a].0,
            #[trigger] s1[b].0,
        ) by {
            if b < p {
                assert(s1[a] == s0[a] && s1[b] == s0[b]);
            } else if b == p {
                assert(s1[a] == s0[a]);
            } else if a < p {
                assert(s1[a] == s0[a] && s1[b] == s0[b - 1]);
            } else if a == p {
                assert(s1[b] == s0[b - 1]);
            } else {
                assert(s1[a] == s0[a - 1] && s1[b] == s0[b - 1]);
            }
        }
    }
}

/// The entries of a table in increasing client-id order.
pub fn sorted_entries(t: &TrafficTable) -> (s: Vec<(String, TrafficCounter)>)
    ensures
        sorted_listing(entries_view(s@), t.map()),
{
    let v = t.to_vec();
    let ghost vs = entries_view(v@);
    let mut out: Vec<(String, TrafficCounter)> = Vec::new();
    let mut i: usize = 0;
    while i < v.len()
        invariant
            i <= v@.len(),
            vs == entries_view(v@),
            forall|a: int, b: int| 0 <= a < b < v@.len() ==> #[trigger] v@[a].0@ != #[trigger] v@[b].0@,
            keys_sorted(entries_view(out@)),
            forall|j: int| 0 <= j < i ==> entries_view(out@).contains(#[trigger] vs[j]),
            forall|x: (Seq<char>, TrafficCounter)|
                #[trigger] entries_view(out@).contains(x) ==> vs.subrange(0, i as int).contains(x),
        decreases v@.len() - i,
    {
        let key = v[i].0.clone();
        let counter = v[i].1;
        proof {
            assert forall|j: int| 0 <= j < out@.len() implies #[trigger] out@[j].0@ != key@ by {
                let x = entries_view(out@)[j];
                assert(entries_view(out@).contains(x));
                let q = choose|q: int| 0 <= q < i && vs.subrange(0, i as int)[q] == x;
                assert(vs[q] == x);
                assert(v@[q].0@ != v@[i as int].0@);
            }
        }
        let ghost before = entries_view(out@);
        insert_sorted(&mut out, key, counter);
        proof {
            let after = entries_view(out@);
            let p = choose|p: int|
                0 <= p <= before.len() && after == before.insert(p, (v@[i as int].0@, v@[i as int].1));
            lemma_insert_contains(before, p, vs[i as int]);
            assert(vs[i as int] == (v@[i as int].0@, v@[i as int].1));
            assert forall|x: (Seq<char>, TrafficCounter)| #[trigger] after.contains(x) implies vs.subrange(
                0,
                i as int + 1,
            ).contains(x) by {
                if x == vs[i as int] {
                    assert(vs.subrange(0, i as int + 1)[i as int] == x);
                } else {
                    assert(before.contains(x));
                    let q = choose|q: int| 0 <= q < i && vs.subrange(0, i as int)[q] == x;
                    assert(vs.subrange(0, i as int + 1)[q] == x);
                }
            }
        }
        i = i + 1;
    }
    proof {
        let s = entries_view(out@);
        assert(vs.subrange(0, v@.len() as int) =~= vs);
        assert forall|j: int| 0 <= j < s.len() implies t.map().contains_key(#[trigger] s[j].0) && t.map()[s[j].0]
            == s[j].1 by {
            assert(s.contains(s[j]));
            let q = choose|q: int| 0 <= q < vs.len() && vs[q] == s[j];
            assert(vs[q] == (v@[q].0@, v@[q].1));
        }
        assert forall|k: Seq<char>| #[trigger] t.map().contains_key(k) implies exists|j: int|
            0 <= j < s.len() && s[j].0 == k by {
            let q = choose|q: int| 0 <= q < v@.len() && v@[q].0@ == k;
            assert(s.contains(vs[q]));
            let j = choose|j: int| 0 <= j < s.len() && s[j] == vs[q];
        }
    }
    out
}

/// One row of the traffic report: a client id, whether the client is online,
/// and its cumulative counter.
#[derive(Debug)]
pub struct TrafficEntry {
    pub client_id: String,
    pub online: bool,
    pub counter: TrafficCounter,
}

/// The client ids of a list of strings.
pub open spec fn ids_view(v: Seq<String>) -> Seq<Seq<char>> {
    v.map_values(|s: String| s@)
}

/// The totals with a zero counter added for every online client that has none.
pub open spec fn with_online(m: Map<Seq<char>, TrafficCounter>, online: Seq<Seq<char>>) -> Map<
    Seq<char>,
    TrafficCounter,
> {
    Map::new(|k: Seq<char>| m.contains_key(k) || online.contains(k), |k: Seq<char>| counter_or_zero(m, k))
}

/// The rows as (client id, counter) values.
pub open spec fn rows_view(v: Seq<TrafficEntry>) -> Seq<(Seq<char>, TrafficCounter)> {
    v.map_values(|e: TrafficEntry| (e.client_id@, e.counter))
}

fn contains_id(v: &Vec<String>, k: &str) -> (b: bool)
    ensures
        b == ids_view(v@).contains(k@),
{
    let mut i: usize = 0;
    while i < v.len()
        invariant
            i <= v@.len(),
            forall|j: int| 0 <= j < i ==> v@[j]@ != k@,
        decreases v@.len() - i,
    {
        if str_eq(v[i].as_str(), k) {
            proof {
                assert(ids_view(v@)[i as int] == k@);
            }
            return true;
        }
        i = i + 1;
    }
    proof {
        if ids_view(v@).contains(k@) {
            let j = choose|j: int| 0 <= j < ids_view(v@).len() && ids_view(v@)[j] == k@;
            assert(v@[j]@ == k@);
        }
    }
    false
}

/// The traffic report: one row per client that has a counter or is online
/// (a zero counter when it has none), in increasing client-id order, each
/// marked online when its id is in `online`.
pub fn traffic_entries(totals: &TrafficTable, online: &Vec<String>) -> (v: Vec<TrafficEntry>)
    ensures
        sorted_listing(rows_view(v@), with_online(totals.map(), ids_view(online@))),
        forall|j: int| 0 <= j < v@.len() ==> (#[trigger] v@[j]).online == ids_view(online@).contains(v@[j].client_id@),
{
    let ghost ov = ids_view(online@);
    let mut t = totals.copy_table();
    let zero = TrafficCounter { tcp_up: 0, tcp_down: 0, udp_up: 0, udp_down: 0 };
    let mut i: usize = 0;
    proof {
        assert(t.map() =~= with_online(totals.map(), ov.subrange(0, 0)));
    }
    while i < online.len()
        invariant
            i <= online@.len(),
            ov == ids_view(online@),
            zero == zero_counter(),
            t.map() == with_online(totals.map(), ov.subrange(0, i as int)),
        decreases online@.len() - i,
    {
        let ghost before = t.map();
        if !t.contains_key(online[i].as_str()) {
            t.add(online[i].as_str(), &zero);
        }
        proof {
            let k = ov[i as int];
            assert(k == online@[i as int]@);
            let a = ov.subrange(0, i as int);
            let b = ov.subrange(0, i as int + 1);
            assert forall|q: Seq<char>| #[trigger] b.contains(q) <==> (a.contains(q) || q == k) by {
                if a.contains(q) {
                    let j = choose|j: int| 0 <= j < a.len() && a[j] == q;
                    assert(b[j] == q);
                }
                if q == k {
                    assert(b[i as int] == q);
                }
                if b.contains(q) && q != k {
                    let j = choose|j: int| 0 <= j < b.len() && b[j] == q;
                    assert(a[j] == q);
                }
            }
            assert(t.map() =~= with_online(totals.map(), b));
        }
        i = i + 1;
    }
    proof {
        assert(ov.subrange(0, online@.len() as int) =~= ov);
    }
    let s = sorted_entries(&t);
    let mut out: Vec<TrafficEntry> = Vec::new();
    let mut j: usize = 0;
    while j < s.len()
        invariant
            j <= s@.len(),
            out@.len() == j,
            ov == ids_view(online@),
            forall|q: int| 0 <= q < j ==> (#[trigger] out@[q]).client_id@ == s@[q].0@ && out@[q].counter
                == s@[q].1 && out@[q].online == ov.contains(s@[q].0@),
        decreases s@.len() - j,
    {
        let on = contains_id(online, s[j].0.as_str());
        out.push(TrafficEntry { client_id: s[j].0.clone(), online: on, counter: s[j].1 });
        j = j + 1;
    }
    proof {
        assert(rows_view(out@) =~= entries_view(s@));
    }
    out
}

/// The fixed part of the metrics text: the gauges and the help and type lines
/// of the traffic counters.
pub open spec fn metrics_head(clients: usize, configured: usize, active_streams: usize) -> Seq<char> {
    "# HELP zorv_online_clients Current number of online clients\n"@
        + "# TYPE zorv_online_clients gauge\n"@ + "zorv_online_clients "@ + decimal(clients as nat) + "\n"@
        + "# HELP zorv_configured_proxies 已配置的代理规则数\n"@
        + "# TYPE zorv_configured_proxies gauge\n"@ + "zorv_configured_proxies "@ + decimal(
        configured as nat,
    ) + "\n"@ + "# HELP zorv_active_streams 当前活动的业务流总数\n"@
        + "# TYPE zorv_active_streams gauge\n"@ + "zorv_active_streams "@ + decimal(active_streams as nat)
        + "\n"@ + "# HELP zorv_traffic_tcp_up_bytes_total 累计 TCP 上行字节数\n"@
        + "# TYPE zorv_traffic_tcp_up_bytes_total counter\n"@
        + "# HELP zorv_traffic_tcp_down_bytes_total 累计 TCP 下行字节数\n"@
        + "# TYPE zorv_traffic_tcp_down_bytes_total counter\n"@
        + "# HELP zorv_traffic_udp_up_bytes_total 累计 UDP 上行字节数\n"@
        + "# TYPE zorv_traffic_udp_up_bytes_total counter\n"@
        + "# HELP zorv_traffic_udp_down_bytes_total 累计 UDP 下行字节数\n"@
        + "# TYPE zorv_traffic_udp_down_bytes_total counter\n"@
}

/// One sample line: `name{client_id="<escaped id>"} <value>`.
pub open spec fn sample_line(name: Seq<char>, id: Seq<char>, value: u64) -> Seq<char> {
    name + "{client_id=\""@ + prom_escaped(id) + "\"} "@ + decimal(value as nat) + "\n"@
}

/// The four sample lines of one client.
pub open spec fn client_samples(id: Seq<char>, c: TrafficCounter) -> Seq<char> {
    sample_line("zorv_traffic_tcp_up_bytes_total"@, id, c.tcp_up) + sample_line(
        "zorv_traffic_tcp_down_bytes_total"@,
        id,
        c.tcp_down,
    ) + sample_line("zorv_traffic_udp_up_bytes_total"@, id, c.udp_up) + sample_line(
        "zorv_traffic_udp_down_bytes_total"@,
        id,
        c.udp_down,
    )
}

/// The sample lines of the listed clients, in order.
pub open spec fn samples_text(s: Seq<(Seq<char>, TrafficCounter)>) -> Seq<char>
    decreases s.len(),
{
    if s.len() == 0 {
        Seq::empty()
    } else {
        samples_text(s.drop_last()) + client_samples(s.last().0, s.last().1)
    }
}

fn push_sample(out: &mut String, name: &str, id: &str, value: u64)
    ensures
        final(out)@ == old(out)@ + sample_line(name@, id@, value),
{
    let cid = prom_escape(id);
    push_str(out, name);
    push_str(out, "{client_id=\"");
    push_str(out, cid.as_str());
    push_str(out, "\"} ");
    push_decimal(out, value);
    push_str(out, "\n");
    proof {
        assert(final(out)@ =~= old(out)@ + sample_line(name@, id@, value));
    }
}

fn push_client_samples(out: &mut String, id: &str, c: TrafficCounter)
    ensures
        final(out)@ == old(out)@ + client_samples(id@, c),
{
    let ghost s0 = out@;
    push_sample(out, "zorv_traffic_tcp_up_bytes_total", id, c.tcp_up);
    let ghost a = sample_line("zorv_traffic_tcp_up_bytes_total"@, id@, c.tcp_up);
    push_sample(out, "zorv_traffic_tcp_down_bytes_total", id, c.tcp_down);
    let ghost b = sample_line("zorv_traffic_tcp_down_bytes_total"@, id@, c.tcp_down);
    push_sample(out, "zorv_traffic_udp_up_bytes_total", id, c.udp_up);
    let ghost d = sample_line("zorv_traffic_udp_up_bytes_total"@, id@, c.udp_up);
    push_sample(out, "zorv_traffic_udp_down_bytes_total", id, c.udp_down);
    let ghost e = sample_line("zorv_traffic_udp_down_bytes_total"@, id@, c.udp_down);
    proof {
        assert(out@ == s0 + a + b + d + e);
        assert(client_samples(id@, c) == a + b + d + e);
        assert(out@ =~= s0 + (a + b + d + e));
    }
}

fn push_gauge(out: &mut String, help: &str, kind: &str, name: &str, value: usize)
    ensures
        final(out)@ == old(out)@ + help@ + kind@ + name@ + decimal(value as nat) + "\n"@,
{
    push_str(out, help);
    push_str(out, kind);
    push_str(out, name);
    push_decimal(out, value as u64);
    push_str(out, "\n");
}

/// The Prometheus metrics text: the number of online clients, of configured
/// proxies and of active streams, then the four traffic counters of every
/// client of `totals` in increasing client-id order, ids escaped as label
/// values.
pub fn metrics_text(clients: usize, configured: usize, active_streams: usize, totals: &TrafficTable) -> (r:
    String)
    ensures
        exists|s: Seq<(Seq<char>, TrafficCounter)>|
            sorted_listing(s, totals.map()) && r@ == metrics_head(clients, configured, active_streams)
                + samples_text(s),
{
    let mut out = String::new();
    push_gauge(
        &mut out,
        "# HELP zorv_online_clients Current number of online clients\n",
        "# TYPE zorv_online_clients gauge\n",
        "zorv_online_clients ",
        clients,
    );
    push_gauge(
        &mut out,
        "# HELP zorv_configured_proxies 已配置的代理规则数\n",
        "# TYPE zorv_configured_proxies gauge\n",
        "zorv_configured_proxies ",
        configured,
    );
    push_gauge(
        &mut out,
        "# HELP zorv_active_streams 当前活动的业务流总数\n",
        "# TYPE zorv_active_streams gauge\n",
        "zorv_active_streams ",
        active_streams,
    );
    push_str(&mut out, "# HELP zorv_traffic_tcp_up_bytes_total 累计 TCP 上行字节数\n");
    push_str(&mut out, "# TYPE zorv_traffic_tcp_up_bytes_total counter\n");
    push_str(&mut out, "# HELP zorv_traffic_tcp_down_bytes_total 累计 TCP 下行字节数\n");
    push_str(&mut out, "# TYPE zorv_traffic_tcp_down_bytes_total counter\n");
    push_str(&mut out, "# HELP zorv_traffic_udp_up_bytes_total 累计 UDP 上行字节数\n");
    push_str(&mut out, "# TYPE zorv_traffic_udp_up_bytes_total counter\n");
    push_str(&mut out, "# HELP zorv_traffic_udp_down_bytes_total 累计 UDP 下行字节数\n");
    push_str(&mut out, "# TYPE zorv_traffic_udp_down_bytes_total counter\n");
    let ghost head = metrics_head(clients, configured, active_streams);
    proof {
        assert(out@ =~= head);
    }
    let s = sorted_entries(totals);
    let ghost sv = entries_view(s@);
    let mut i: usize = 0;
    proof {
        assert(out@ =~= head + samples_text(sv.subrange(0, 0)));
    }
    while i < s.len()
        invariant
            i <= s@.len(),
            sv == entries_view(s@),
            out@ == head + samples_text(sv.subrange(0, i as int)),
        decreases s@.len() - i,
    {
        let c = s[i].1;
        let ghost before = out@;
        push_client_samples(&mut out, s[i].0.as_str(), c);
        proof {
            let p = sv.subrange(0, i as int + 1);
            assert(p.drop_last() =~= sv.subrange(0, i as int));
            assert(p.last() == (s@[i as int].0@, c));
            assert(out@ =~= head + samples_text(p));
        }
        i = i + 1;
    }
    proof {
        assert(sv.subrange(0, s@.len() as int) =~= sv);
    }
    out
}

} // verus!
