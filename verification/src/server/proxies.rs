//! Proxy rules: what starting a rule needs, how the rule list changes when a
//! rule is created, replaced or deleted, and which listeners a reload stops
//! and starts.
//!
//! The listeners themselves (binding sockets, spawning tasks) belong to the
//! binary; it carries out the decisions made here.

use vstd::prelude::*;
use crate::common::error::{push_str, ZorvError};
use crate::common::text::str_eq;
use crate::server::admin::request::opt_text;

verus! {

/// A proxy rule: a public listener of kind `proxy_type` (`tcp` or `udp`) on
/// `listen`, forwarded through the tunnel of `client_id` (any online client
/// when absent) to `target` on the client's side.
#[derive(Debug)]
pub struct ProxyRule {
    pub name: String,
    pub proxy_type: String,
    pub listen: Option<String>,
    pub client_id: Option<String>,
    pub target: String,
}

/// A proxy rule as values.
pub struct RuleView {
    pub name: Seq<char>,
    pub proxy_type: Seq<char>,
    pub listen: Option<Seq<char>>,
    pub client_id: Option<Seq<char>>,
    pub target: Seq<char>,
}

impl View for ProxyRule {
    type V = RuleView;

    open spec fn view(&self) -> RuleView {
        RuleView {
            name: self.name@,
            proxy_type: self.proxy_type@,
            listen: opt_text(self.listen),
            client_id: opt_text(self.client_id),
            target: self.target@,
        }
    }
}

/// The rules of a list as values.
pub open spec fn rules_view(v: Seq<ProxyRule>) -> Seq<RuleView> {
    v.map_values(|r: ProxyRule| r@)
}

fn copy_text(s: &String) -> (r: String)
    ensures
        r@ == s@,
{
    s.clone()
}

fn copy_opt_text(o: &Option<String>) -> (r: Option<String>)
    ensures
        opt_text(r) == opt_text(*o),
{
    match o {
        Some(s) => Some(copy_text(s)),
        None => None,
    }
}

fn opt_text_eq(a: &Option<String>, b: &Option<String>) -> (r: bool)
    ensures
        r == (opt_text(*a) == opt_text(*b)),
{
    match (a, b) {
        (Some(x), Some(y)) => str_eq(x.as_str(), y.as_str()),
        (None, None) => true,
        _ => false,
    }
}

impl ProxyRule {
    /// A copy of the rule.
    pub fn copy_rule(&self) -> (r: ProxyRule)
        ensures
            r@ == self@,
    {
        ProxyRule {
            name: copy_text(&self.name),
            proxy_type: copy_text(&self.proxy_type),
            listen: copy_opt_text(&self.listen),
            client_id: copy_opt_text(&self.client_id),
            target: copy_text(&self.target),
        }
    }

    /// Whether two rules agree in every field.
    pub fn same_rule(&self, other: &ProxyRule) -> (r: bool)
        ensures
            r == (self@ == other@),
    {
        str_eq(self.name.as_str(), other.name.as_str()) && str_eq(
            self.proxy_type.as_str(),
            other.proxy_type.as_str(),
        ) && opt_text_eq(&self.listen, &other.listen) && opt_text_eq(&self.client_id, &other.client_id)
            && str_eq(self.target.as_str(), other.target.as_str())
    }
}

/// The kind of listener that a rule needs.
#[derive(Debug, Clone, Copy, PartialEq, Eq, Structural)]
pub enum ListenKind {
    Tcp,
    Udp,
}

/// Why a rule cannot be started, if it cannot: it is already running, its
/// kind is neither `tcp` nor `udp`, or it has no listen address.
pub open spec fn start_refusal(r: RuleView, running: bool) -> Option<Seq<char>> {
    if running {
        Some("proxy "@ + r.name + " already running"@)
    } else if r.proxy_type != "tcp"@ && r.proxy_type != "udp"@ {
        Some("unsupported proxy type: "@ + r.proxy_type)
    } else if r.listen is None {
        Some("proxy "@ + r.name + " missing listen address"@)
    } else {
        None
    }
}

fn other_error(parts: Vec<&str>) -> (e: ZorvError)
    ensures
        e matches ZorvError::Other(s) && s@ == concat_all(parts@),
{
    let mut s = String::new();
    let mut i: usize = 0;
    while i < parts.len()
        invariant
            i <= parts@.len(),
            s@ == concat_all(parts@.subrange(0, i as int)),
        decreases parts@.len() - i,
    {
        push_str(&mut s, parts[i]);
        proof {
            let p = parts@.subrange(0, i as int + 1);
            assert(p.drop_last() =~= parts@.subrange(0, i as int));
        }
        i = i + 1;
    }
    proof {
        assert(parts@.subrange(0, parts@.len() as int) =~= parts@);
    }
    ZorvError::Other(s)
}

/// The texts of `parts`, one after the other.
pub open spec fn concat_all(parts: Seq<&str>) -> Seq<char>
    decreases parts.len(),
{
    if parts.len() == 0 {
        Seq::empty()
    } else {
        concat_all(parts.drop_last()) + parts.last()@
    }
}

/// The listener kind of `rule`, or the error that starting it gives
/// (`running`: whether a listener of that name is already running).
pub fn start_check(rule: &ProxyRule, running: bool) -> (r: Result<ListenKind, ZorvError>)
    ensures
        match r {
            Ok(k) => start_refusal(rule@, running) is None && (k == ListenKind::Tcp <==> rule@.proxy_type
                == "tcp"@) && (k == ListenKind::Udp <==> rule@.proxy_type == "udp"@),
            Err(e) => e matches ZorvError::Other(s) && start_refusal(rule@, running) == Some(s@),
        },
{
    let name: &str = rule.name.as_str();
    let kind_text: &str = rule.proxy_type.as_str();
    if running {
        let parts = vec!["proxy ", name, " already running"];
        proof {
            assert(parts@ =~= seq!["proxy ", name, " already running"]);
            assert(concat_all(parts@) =~= "proxy "@ + name@ + " already running"@) by {
                reveal_with_fuel(concat_all, 4);
            }
        }
        return Err(other_error(parts));
    }
    let kind = if str_eq(kind_text, "tcp") {
        ListenKind::Tcp
    } else if str_eq(kind_text, "udp") {
        ListenKind::Udp
    } else {
        let parts = vec!["unsupported proxy type: ", kind_text];
        proof {
            assert(parts@ =~= seq!["unsupported proxy type: ", kind_text]);
            assert(concat_all(parts@) =~= "unsupported proxy type: "@ + kind_text@) by {
                reveal_with_fuel(concat_all, 3);
            }
        }
        return Err(other_error(parts));
    };
    proof {
        reveal_strlit("tcp");
        reveal_strlit("udp");
        assert("tcp"@ != "udp"@) by {
            assert("tcp"@[0] != "udp"@[0]);
        }
    }
    if rule.listen.is_none() {
        let parts = vec!["proxy ", name, " missing listen address"];
        proof {
            assert(parts@ =~= seq!["proxy ", name, " missing listen address"]);
            assert(concat_all(parts@) =~= "proxy "@ + name@ + " missing listen address"@) by {
                reveal_with_fuel(concat_all, 4);
            }
        }
        return Err(other_error(parts));
    }
    Ok(kind)
}

/// What is wrong with a rule sent by the admin console, if anything: it needs
/// a name and a listen address.
pub open spec fn new_rule_problem(r: RuleView) -> Option<Seq<char>> {
    if r.name.len() == 0 {
        Some("name is required"@)
    } else if r.listen is None {
        Some("listen is required"@)
    } else {
        None
    }
}

/// The first problem of a rule sent by the admin console, if any.
pub fn check_new_rule(rule: &ProxyRule) -> (r: Option<&'static str>)
    ensures
        match r {
            Some(m) => new_rule_problem(rule@) == Some(m@),
            None => new_rule_problem(rule@) is None,
        },
{
    if rule.name.unicode_len() == 0 {
        Some("name is required")
    } else if rule.listen.is_none() {
        Some("listen is required")
    } else {
        None
    }
}

/// The rules of `rules` whose name is not `name`, in order.
pub open spec fn without_name(rules: Seq<RuleView>, name: Seq<char>) -> Seq<RuleView>
    decreases rules.len(),
{
    if rules.len() == 0 {
        Seq::empty()
    } else {
        let rest = without_name(rules.drop_last(), name);
        if rules.last().name == name {
            rest
        } else {
            rest.push(rules.last())
        }
    }
}

/// The rules other than those named `name`, in order.
pub fn remove_rule(rules: &Vec<ProxyRule>, name: &str) -> (v: Vec<ProxyRule>)
    ensures
        rules_view(v@) == without_name(rules_view(rules@), name@),
{
    let ghost rv = rules_view(rules@);
    let mut out: Vec<ProxyRule> = Vec::new();
    let mut i: usize = 0;
    proof {
        assert(rules_view(out@) =~= without_name(rv.subrange(0, 0), name@));
    }
    while i < rules.len()
        invariant
            i <= rules@.len(),
            rv == rules_view(rules@),
            rules_view(out@) == without_name(rv.subrange(0, i as int), name@),
        decreases rules@.len() - i,
    {
        let ghost before = rules_view(out@);
        if !str_eq(rules[i].name.as_str(), name) {
            out.push(rules[i].copy_rule());
            proof {
                assert(rules_view(out@) =~= before.push(rv[i as int]));
            }
        }
        proof {
            let p = rv.subrange(0, i as int + 1);
            assert(p.drop_last() =~= rv.subrange(0, i as int));
            assert(p.last() == rv[i as int]);
        }
        i = i + 1;
    }
    proof {
        assert(rv.subrange(0, rules@.len() as int) =~= rv);
    }
    out
}

/// The rules with `rule` in place of those of the same name, at the end.
pub fn upsert_rule(rules: &Vec<ProxyRule>, rule: ProxyRule) -> (v: Vec<ProxyRule>)
    ensures
        rules_view(v@) == without_name(rules_view(rules@), rule@.name).push(rule@),
{
    let ghost rv = rule@;
    let mut out = remove_rule(rules, rule.name.as_str());
    let ghost before = rules_view(out@);
    out.push(rule);
    proof {
        assert(rules_view(out@) =~= before.push(rv));
    }
    out
}

/// A step of applying a reloaded rule list: stop the listener of a name, or
/// start the listener of the rule at an index of the new list.
#[derive(Debug)]
pub enum ProxyAction {
    Stop(String),
    Start(usize),
}

/// A step as values.
pub enum PlannedAction {
    Stop(Seq<char>),
    Start(int),
}

/// The step as values.
pub open spec fn action_view(a: ProxyAction) -> PlannedAction {
    match a {
        ProxyAction::Stop(n) => PlannedAction::Stop(n@),
        ProxyAction::Start(i) => PlannedAction::Start(i as int),
    }
}

/// The steps as values.
pub open spec fn actions_view(v: Seq<ProxyAction>) -> Seq<PlannedAction> {
    v.map_values(|a: ProxyAction| action_view(a))
}

/// Whether some rule of `rules` is named `name`.
pub open spec fn has_name(rules: Seq<RuleView>, name: Seq<char>) -> bool {
    exists|j: int| 0 <= j < rules.len() && #[trigger] rules[j].name == name
}

/// The index of the first rule named `name` at or after `from`, or the length.
pub open spec fn first_named(rules: Seq<RuleView>, name: Seq<char>, from: int) -> int
    decreases rules.len() - from,
{
    if from < 0 || from >= rules.len() {
        rules.len() as int
    } else if rules[from].name == name {
        from
    } else {
        first_named(rules, name, from + 1)
    }
}

/// Stops of the listeners whose rule is gone from `desired`, in the order of
/// `current`.
pub open spec fn stop_removed(current: Seq<RuleView>, desired: Seq<RuleView>) -> Seq<PlannedAction>
    decreases current.len(),
{
    if current.len() == 0 {
        Seq::empty()
    } else {
        let rest = stop_removed(current.drop_last(), desired);
        if has_name(desired, current.last().name) {
            rest
        } else {
            rest.push(PlannedAction::Stop(current.last().name))
        }
    }
}

/// The steps for the new rule at index `i`: nothing when the first current
/// rule of its name is the same rule; a stop and a start when that rule
/// differs; a start when no current rule has its name.
pub open spec fn restart_steps(current: Seq<RuleView>, d: RuleView, i: int) -> Seq<PlannedAction> {
    let k = first_named(current, d.name, 0);
    if k < current.len() && current[k] == d {
        Seq::empty()
    } else if k < current.len() {
        seq![PlannedAction::Stop(d.name), PlannedAction::Start(i)]
    } else {
        seq![PlannedAction::Start(i)]
    }
}

/// The steps for the first `n` rules of `desired`, in order.
pub open spec fn start_changed(current: Seq<RuleView>, desired: Seq<RuleView>, n: int) -> Seq<PlannedAction>
    decreases n,
{
    if n <= 0 {
        Seq::empty()
    } else {
        start_changed(current, desired, n - 1) + restart_steps(current, desired[n - 1], n - 1)
    }
}

/// The steps of a reload: first the stops of removed rules, then, rule by
/// rule of the new list, the restarts of changed rules and the starts of new
/// ones.
pub open spec fn reload_plan(current: Seq<RuleView>, desired: Seq<RuleView>) -> Seq<PlannedAction> {
    stop_removed(current, desired) + start_changed(current, desired, desired.len() as int)
}

fn find_named(rules: &Vec<ProxyRule>, name: &str) -> (k: usize)
    ensures
        k as int == first_named(rules_view(rules@), name@, 0),
        k <= rules@.len(),
{
    let ghost rv = rules_view(rules@);
    let mut i: usize = 0;
    while i < rules.len()
        invariant
            i <= rules@.len(),
            rv == rules_view(rules@),
            first_named(rv, name@, 0) == first_named(rv, name@, i as int),
        decreases rules@.len() - i,
    {
        if str_eq(rules[i].name.as_str(), name) {
            return i;
        }
        i = i + 1;
    }
    i
}

fn named_in(rules: &Vec<ProxyRule>, name: &str) -> (b: bool)
    ensures
        b == has_name(rules_view(rules@), name@),
{
    let ghost rv = rules_view(rules@);
    let mut i: usize = 0;
    while i < rules.len()
        invariant
            i <= rules@.len(),
            rv == rules_view(rules@),
            forall|j: int| 0 <= j < i ==> rv[j].name != name@,
        decreases rules@.len() - i,
    {
        if str_eq(rules[i].name.as_str(), name) {
            proof {
                assert(rv[i as int].name == name@);
            }
            return true;
        }
        i = i + 1;
    }
    false
}

/// The steps that take the running listeners from the rules `current` to the
/// rules `desired`.
pub fn reload_actions(current: &Vec<ProxyRule>, desired: &Vec<ProxyRule>) -> (v: Vec<ProxyAction>)
    ensures
        actions_view(v@) == reload_plan(rules_view(current@), rules_view(desired@)),
{
    let ghost cv = rules_view(current@);
    let ghost dv = rules_view(desired@);
    let mut out: Vec<ProxyAction> = Vec::new();
    let mut i: usize = 0;
    proof {
        assert(actions_view(out@) =~= stop_removed(cv.subrange(0, 0), dv));
    }
    while i < current.len()
        invariant
            i <= current@.len(),
            cv == rules_view(current@),
            dv == rules_view(desired@),
            actions_view(out@) == stop_removed(cv.subrange(0, i as int), dv),
        decreases current@.len() - i,
    {
        let ghost before = actions_view(out@);
        if !named_in(desired, current[i].name.as_str()) {
            out.push(ProxyAction::Stop(copy_text(&current[i].name)));
            proof {
                assert(actions_view(out@) =~= before.push(PlannedAction::Stop(cv[i as int].name)));
            }
        }
        proof {
            let p = cv.subrange(0, i as int + 1);
            assert(p.drop_last() =~= cv.subrange(0, i as int));
            assert(p.last() == cv[i as int]);
        }
        i = i + 1;
    }
    proof {
        assert(cv.subrange(0, current@.len() as int) =~= cv);
    }
    let ghost stops = actions_view(out@);
    let mut j: usize = 0;
    proof {
        assert(actions_view(out@) =~= stops + start_changed(cv, dv, 0));
    }
    while j < desired.len()
        invariant
            j <= desired@.len(),
            cv == rules_view(current@),
            dv == rules_view(desired@),
            actions_view(out@) == stops + start_changed(cv, dv, j as int),
        decreases desired@.len() - j,
    {
        let ghost before = actions_view(out@);
        let k = find_named(current, desired[j].name.as_str());
        if k < current.len() {
            if !current[k].same_rule(&desired[j]) {
                out.push(ProxyAction::Stop(copy_text(&desired[j].name)));
                out.push(ProxyAction::Start(j));
                proof {
                    assert(actions_view(out@) =~= before + restart_steps(cv, dv[j as int], j as int));
                }
            } else {
                proof {
                    assert(actions_view(out@) =~= before + restart_steps(cv, dv[j as int], j as int));
                }
            }
        } else {
            out.push(ProxyAction::Start(j));
            proof {
                assert(actions_view(out@) =~= before + restart_steps(cv, dv[j as int], j as int));
            }
        }
        proof {
            assert(actions_view(out@) =~= stops + start_changed(cv, dv, j as int + 1));
        }
        j = j + 1;
    }
    out
}

/// Whether no two rules share a name.
pub open spec fn names_distinct(rules: Seq<RuleView>) -> bool {
    forall|a: int, b: int| 0 <= a < b < rules.len() ==> #[trigger] rules[a].name != #[trigger] rules[b].name
}

/// The names of the rules.
pub open spec fn rule_names(rules: Seq<RuleView>) -> Set<Seq<char>> {
    Set::new(|n: Seq<char>| has_name(rules, n))
}

/// The listeners running after carrying out `steps` from `running`, when
/// every start succeeds; `None` when a start meets a running listener of its
/// name (which refuses it).
pub open spec fn apply_steps(running: Set<Seq<char>>, desired: Seq<RuleView>, steps: Seq<PlannedAction>) -> Option<
    Set<Seq<char>>,
>
    decreases steps.len(),
{
    if steps.len() == 0 {
        Some(running)
    } else {
        match steps[0] {
            PlannedAction::Stop(n) => apply_steps(running.remove(n), desired, steps.drop_first()),
            PlannedAction::Start(i) => {
                let n = desired[i].name;
                if running.contains(n) {
                    None
                } else {
                    apply_steps(running.insert(n), desired, steps.drop_first())
                }
            },
        }
    }
}

proof fn lemma_first_named_bounds(rules: Seq<RuleView>, name: Seq<char>, from: int)
    requires
        0 <= from <= rules.len(),
    ensures
        from <= first_named(rules, name, from) <= rules.len(),
        first_named(rules, name, from) < rules.len() ==> rules[first_named(rules, name, from)].name == name,
        forall|j: int| from <= j < first_named(rules, name, from) ==> #[trigger] rules[j].name != name,
    decreases rules.len() - from,
{
    if from < rules.len() && rules[from].name != name {
        lemma_first_named_bounds(rules, name, from + 1);
    }
}

proof fn lemma_has_name_push(rules: Seq<RuleView>, r: RuleView, n: Seq<char>)
    ensures
        has_name(rules.push(r), n) <==> (has_name(rules, n) || r.name == n),
{
    let p = rules.push(r);
    if has_name(rules, n) {
        let j = choose|j: int| 0 <= j < rules.len() && #[trigger] rules[j].name == n;
        assert(p[j].name == n);
    }
    if r.name == n {
        assert(p[rules.len() as int].name == n);
    }
    if has_name(p, n) && r.name != n {
        let j = choose|j: int| 0 <= j < p.len() && #[trigger] p[j].name == n;
        assert(rules[j].name == n);
    }
}

proof fn lemma_apply_concat(running: Set<Seq<char>>, desired: Seq<RuleView>, a: Seq<PlannedAction>, b: Seq<PlannedAction>)
    ensures
        apply_steps(running, desired, a + b) == (match apply_steps(running, desired, a) {
            Some(r) => apply_steps(r, desired, b),
            None => None,
        }),
    decreases a.len(),
{
    if a.len() == 0 {
        assert(a + b =~= b);
    } else {
        assert((a + b).drop_first() =~= a.drop_first() + b);
        assert((a + b)[0] == a[0]);
        match a[0] {
            PlannedAction::Stop(n) => {
                lemma_apply_concat(running.remove(n), desired, a.drop_first(), b);
            },
            PlannedAction::Start(i) => {
                let n = desired[i].name;
                if !running.contains(n) {
                    lemma_apply_concat(running.insert(n), desired, a.drop_first(), b);
                }
            },
        }
    }
}

/// The names of `p` that `d` lacks.
spec fn removed_names(p: Seq<RuleView>, d: Seq<RuleView>) -> Set<Seq<char>> {
    Set::new(|n: Seq<char>| has_name(p, n) && !has_name(d, n))
}

proof fn lemma_apply_stops(running: Set<Seq<char>>, p: Seq<RuleView>, d: Seq<RuleView>)
    ensures
        apply_steps(running, d, stop_removed(p, d)) == Some(running.difference(removed_names(p, d))),
    decreases p.len(),
{
    if p.len() == 0 {
        assert(running.difference(removed_names(p, d)) =~= running);
    } else {
        let q = p.drop_last();
        let l = p.last();
        lemma_apply_stops(running, q, d);
        assert(q.push(l) =~= p);
        assert forall|n: Seq<char>| has_name(p, n) <==> (has_name(q, n) || l.name == n) by {
            lemma_has_name_push(q, l, n);
        }
        if has_name(d, l.name) {
            assert(removed_names(p, d) =~= removed_names(q, d));
        } else {
            let before = stop_removed(q, d);
            assert(stop_removed(p, d) =~= before + seq![PlannedAction::Stop(l.name)]);
            lemma_apply_concat(running, d, before, seq![PlannedAction::Stop(l.name)]);
            let r1 = running.difference(removed_names(q, d));
            assert(apply_steps(r1, d, seq![PlannedAction::Stop(l.name)]) == apply_steps(
                r1.remove(l.name),
                d,
                seq![PlannedAction::Stop(l.name)].drop_first(),
            ));
            assert(seq![PlannedAction::Stop(l.name)].drop_first() =~= Seq::<PlannedAction>::empty());
            assert(r1.remove(l.name) =~= running.difference(removed_names(p, d)));
        }
    }
}

proof fn lemma_apply_starts(current: Seq<RuleView>, desired: Seq<RuleView>, base: Set<Seq<char>>, i: int)
    requires
        names_distinct(desired),
        0 <= i <= desired.len(),
        forall|n: Seq<char>| #[trigger] base.contains(n) ==> has_name(current, n) && has_name(desired, n),
        forall|n: Seq<char>| has_name(current, n) && has_name(desired, n) ==> #[trigger] base.contains(n),
    ensures
        apply_steps(base, desired, start_changed(current, desired, i)) == Some(
            base.union(rule_names(desired.subrange(0, i))),
        ),
    decreases i,
{
    let di = desired.subrange(0, i);
    if i == 0 {
        assert(base.union(rule_names(di)) =~= base);
    } else {
        lemma_apply_starts(current, desired, base, i - 1);
        let dp = desired.subrange(0, i - 1);
        let s = base.union(rule_names(dp));
        let d = desired[i - 1];
        let n = d.name;
        assert(dp.push(d) =~= di);
        assert(rule_names(di) =~= rule_names(dp).insert(n)) by {
            assert forall|m: Seq<char>| has_name(di, m) <==> (has_name(dp, m) || n == m) by {
                lemma_has_name_push(dp, d, m);
            }
        }
        let steps = restart_steps(current, d, i - 1);
        lemma_apply_concat(base, desired, start_changed(current, desired, i - 1), steps);
        lemma_first_named_bounds(current, n, 0);
        let k = first_named(current, n, 0);
        assert(has_name(desired, n)) by {
            assert(desired[i - 1].name == n);
        }
        if k < current.len() {
            assert(has_name(current, n)) by {
                assert(current[k].name == n);
            }
            assert(base.contains(n));
            if current[k] == d {
                assert(steps =~= Seq::<PlannedAction>::empty());
                assert(s =~= base.union(rule_names(di)));
            } else {
                let st = seq![PlannedAction::Stop(n), PlannedAction::Start(i - 1)];
                assert(steps == st);
                assert(st.drop_first() =~= seq![PlannedAction::Start(i - 1)]);
                assert(seq![PlannedAction::Start(i - 1)].drop_first() =~= Seq::<PlannedAction>::empty());
                assert(!s.remove(n).contains(n));
                let st1 = st.drop_first();
                assert(st1[0] == PlannedAction::Start(i - 1));
                assert(apply_steps(s.remove(n).insert(n), desired, st1.drop_first()) == Some(s.remove(n).insert(n)));
                assert(apply_steps(s.remove(n), desired, st1) == Some(s.remove(n).insert(n)));
                assert(st[0] == PlannedAction::Stop(n));
                assert(apply_steps(s, desired, st) == Some(s.remove(n).insert(n)));
                assert(s.remove(n).insert(n) =~= base.union(rule_names(di)));
            }
        } else {
            assert(!has_name(current, n)) by {
                if has_name(current, n) {
                    let j = choose|j: int| 0 <= j < current.len() && #[trigger] current[j].name == n;
                    assert(current[j].name != n);
                }
            }
            assert(!rule_names(dp).contains(n)) by {
                if has_name(dp, n) {
                    let j = choose|j: int| 0 <= j < dp.len() && #[trigger] dp[j].name == n;
                    assert(desired[j].name != desired[i - 1].name);
                }
            }
            assert(!s.contains(n));
            let st = seq![PlannedAction::Start(i - 1)];
            assert(steps == st);
            assert(st.drop_first() =~= Seq::<PlannedAction>::empty());
            assert(st[0] == PlannedAction::Start(i - 1));
            assert(apply_steps(s.insert(n), desired, st.drop_first()) == Some(s.insert(n)));
            assert(apply_steps(s, desired, st) == Some(s.insert(n)));
            assert(s.insert(n) =~= base.union(rule_names(di)));
        }
    }
}

/// Carrying out the steps of a reload on the listeners of the current rules,
/// when every start succeeds, leaves running exactly the listeners of the new
/// rules, and no start meets a listener of its name still running (for new
/// rules with distinct names).
pub proof fn lemma_reload_reaches_desired(current: Seq<RuleView>, desired: Seq<RuleView>)
    requires
        names_distinct(desired),
    ensures
        apply_steps(rule_names(current), desired, reload_plan(current, desired)) == Some(rule_names(desired)),
{
    let r0 = rule_names(current);
    lemma_apply_stops(r0, current, desired);
    let base = r0.difference(removed_names(current, desired));
    lemma_apply_concat(
        r0,
        desired,
        stop_removed(current, desired),
        start_changed(current, desired, desired.len() as int),
    );
    lemma_apply_starts(current, desired, base, desired.len() as int);
    assert(desired.subrange(0, desired.len() as int) =~= desired);
    assert(base.union(rule_names(desired)) =~= rule_names(desired));
}

proof fn lemma_stops_none_kept(p: Seq<RuleView>, d: Seq<RuleView>)
    requires
        forall|j: int| 0 <= j < p.len() ==> has_name(d, #[trigger] p[j].name),
    ensures
        stop_removed(p, d) == Seq::<PlannedAction>::empty(),
    decreases p.len(),
{
    if p.len() > 0 {
        let q = p.drop_last();
        assert forall|j: int| 0 <= j < q.len() implies has_name(d, #[trigger] q[j].name) by {
            assert(q[j] == p[j]);
        }
        lemma_stops_none_kept(q, d);
        assert(has_name(d, p[p.len() - 1].name));
    }
}

proof fn lemma_starts_none_same(rules: Seq<RuleView>, i: int)
    requires
        names_distinct(rules),
        0 <= i <= rules.len(),
    ensures
        start_changed(rules, rules, i) == Seq::<PlannedAction>::empty(),
    decreases i,
{
    if i > 0 {
        lemma_starts_none_same(rules, i - 1);
        let n = rules[i - 1].name;
        lemma_first_named_bounds(rules, n, 0);
        let k = first_named(rules, n, 0);
        if k != i - 1 {
            if k < i - 1 {
                assert(rules[k].name != rules[i - 1].name);
            } else {
                assert(rules[i - 1].name != n);
            }
        }
        assert(restart_steps(rules, rules[i - 1], i - 1) =~= Seq::<PlannedAction>::empty());
        assert(start_changed(rules, rules, i) =~= Seq::<PlannedAction>::empty());
    }
}

/// Reloading a rule list with distinct names onto itself stops and starts
/// nothing.
pub proof fn lemma_reload_unchanged_is_empty(rules: Seq<RuleView>)
    requires
        names_distinct(rules),
    ensures
        reload_plan(rules, rules) == Seq::<PlannedAction>::empty(),
{
    assert forall|j: int| 0 <= j < rules.len() implies has_name(rules, #[trigger] rules[j].name) by {
        assert(rules[j].name == rules[j].name);
    }
    lemma_stops_none_kept(rules, rules);
    lemma_starts_none_same(rules, rules.len() as int);
    assert(reload_plan(rules, rules) =~= Seq::<PlannedAction>::empty());
}

proof fn lemma_without_name(rules: Seq<RuleView>, n: Seq<char>)
    requires
        names_distinct(rules),
    ensures
        names_distinct(without_name(rules, n)),
        forall|m: Seq<char>|
            #![trigger has_name(without_name(rules, n), m)]
            has_name(without_name(rules, n), m) <==> (has_name(rules, m) && m != n),
    decreases rules.len(),
{
    if rules.len() > 0 {
        let q = rules.drop_last();
        let l = rules.last();
        assert(names_distinct(q)) by {
            assert forall|a: int, b: int| 0 <= a < b < q.len() implies #[trigger] q[a].name != #[trigger] q[b].name by {
                assert(q[a] == rules[a] && q[b] == rules[b]);
            }
        }
        lemma_without_name(q, n);
        assert(q.push(l) =~= rules);
        let w = without_name(q, n);
        assert forall|m: Seq<char>| has_name(rules, m) <==> (has_name(q, m) || l.name == m) by {
            lemma_has_name_push(q, l, m);
        }
        if l.name != n {
            assert forall|m: Seq<char>| has_name(w.push(l), m) <==> (has_name(w, m) || l.name == m) by {
                lemma_has_name_push(w, l, m);
            }
            assert(!has_name(w, l.name)) by {
                if has_name(q, l.name) {
                    let j = choose|j: int| 0 <= j < q.len() && #[trigger] q[j].name == l.name;
                    assert(rules[j].name != rules[rules.len() - 1].name);
                }
            }
            let wp = w.push(l);
            assert forall|a: int, b: int| 0 <= a < b < wp.len() implies #[trigger] wp[a].name != #[trigger] wp[b].name by {
                if b == w.len() {
                    assert(wp[a] == w[a]);
                    assert(has_name(w, w[a].name));
                } else {
                    assert(wp[a] == w[a] && wp[b] == w[b]);
                }
            }
            assert forall|m: Seq<char>|
                #![trigger has_name(without_name(rules, n), m)]
                has_name(without_name(rules, n), m) <==> (has_name(rules, m) && m != n) by {
                assert(has_name(w, m) <==> (has_name(q, m) && m != n));
            }
        } else {
            assert forall|m: Seq<char>|
                #![trigger has_name(without_name(rules, n), m)]
                has_name(without_name(rules, n), m) <==> (has_name(rules, m) && m != n) by {
                assert(has_name(w, m) <==> (has_name(q, m) && m != n));
            }
        }
    }
}

/// Replacing a rule keeps the names of a rule list distinct, and the new rule
/// is the one rule of its name.
pub proof fn lemma_upsert_keeps_names_distinct(rules: Seq<RuleView>, r: RuleView)
    requires
        names_distinct(rules),
    ensures
        names_distinct(without_name(rules, r.name).push(r)),
        first_named(without_name(rules, r.name).push(r), r.name, 0) == without_name(rules, r.name).len(),
{
    lemma_without_name(rules, r.name);
    let w = without_name(rules, r.name);
    let wp = w.push(r);
    assert forall|a: int, b: int| 0 <= a < b < wp.len() implies #[trigger] wp[a].name != #[trigger] wp[b].name by {
        if b == w.len() {
            assert(wp[a] == w[a]);
            assert(has_name(w, w[a].name));
        } else {
            assert(wp[a] == w[a] && wp[b] == w[b]);
        }
    }
    lemma_first_named_bounds(wp, r.name, 0);
    let k = first_named(wp, r.name, 0);
    if k < w.len() {
        assert(wp[k] == w[k]);
        assert(has_name(w, r.name));
    }
    assert(wp[w.len() as int].name == r.name);
}

/// Removing the rules of a name keeps the names of a rule list distinct and
/// leaves no rule of that name.
pub proof fn lemma_remove_clears_name(rules: Seq<RuleView>, n: Seq<char>)
    requires
        names_distinct(rules),
    ensures
        names_distinct(without_name(rules, n)),
        !has_name(without_name(rules, n), n),
{
    lemma_without_name(rules, n);
}

} // verus!
