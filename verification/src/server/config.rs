use vstd::prelude::*;
use vstd::string::StringExecFns;

use crate::routing_sample::{
    route_rule_spec, routing_milliondollar, routing_odj, routing_timer, routing_wakuden,
};
use crate::server::http_request::{http_request_info, RequestView};
use crate::http::http_status::{
    is_date_time_text, local_now_text, no_line_break, not_found_body, response_text, write_response, HttpStatus,
};
use crate::text::{decimal_int, parse_i32_spec, push_decimal_i64};

verus! {

broadcast use vstd::string::group_string_axioms;

/// Where and how a request is relayed: the upstream host and port, and the
/// path that the relayed request asks for.
#[allow(non_snake_case)]
pub struct RelayConnectionInfo {
    pub host: String,
    pub port: i32,
    pub path: String,
    pub relayInfo: Option<String>,
    pub response: bool,
}

/// The mathematical value of a relay target.
pub struct RelayView {
    pub host: Seq<char>,
    pub port: i32,
    pub path: Seq<char>,
    pub relay_info: Option<Seq<char>>,
    pub response: bool,
}

impl View for RelayConnectionInfo {
    type V = RelayView;

    open spec fn view(&self) -> RelayView {
        RelayView {
            host: self.host@,
            port: self.port,
            path: self.path@,
            relay_info: self.relayInfo.deep_view(),
            response: self.response,
        }
    }
}

impl DeepView for RelayConnectionInfo {
    type V = RelayView;

    open spec fn deep_view(&self) -> RelayView {
        self@
    }
}

/// The address `host` or `host:port` under which the upstream is reached:
/// the port is written out unless it is 80 or not above 1.
pub open spec fn address_of(host: Seq<char>, port: i32) -> Seq<char> {
    if port > 1 && port != 80 {
        host + ":"@ + decimal_int(port as int)
    } else {
        host
    }
}

/// Law: the address is the host alone where the port is 80 or not above 1;
/// otherwise it is the host, a `:` and a text that reads back as the port.
pub proof fn law_address_port(host: Seq<char>, port: i32)
    ensures
        (port == 80 || port <= 1) ==> address_of(host, port) == host,
        (port != 80 && port > 1) ==> {
            &&& address_of(host, port).take(host.len() as int) == host
            &&& address_of(host, port)[host.len() as int] == ':'
            &&& parse_i32_spec(address_of(host, port).skip(host.len() as int + 1)) == Some(port)
        },
{
    if port != 80 && port > 1 {
        reveal_strlit(":");
        crate::text::lemma_decimal_i32_word(port);
        let a = address_of(host, port);
        assert(a.take(host.len() as int) =~= host);
        assert(a.skip(host.len() as int + 1) =~= decimal_int(port as int));
    }
}

impl RelayConnectionInfo {
    /// A relay target on `localhost:8000` for `path`; `host`, `port` and
    /// `relayInfo` are not used.
    #[allow(non_snake_case)]
    pub fn new(host: String, port: i32, path: String, relayInfo: String) -> (r: RelayConnectionInfo)
        ensures
            r@ == (RelayView {
                host: "localhost"@,
                port: 8000,
                path: path@,
                relay_info: None,
                response: false,
            }),
    {
        RelayConnectionInfo {
            host: "localhost".to_owned(),
            port: 8000,
            path: path,
            relayInfo: None,
            response: false,
        }
    }

    /// The response body that this relay target answers with of its own: none.
    pub fn response(&self) -> (r: String)
        ensures
            r@ == Seq::<char>::empty(),
    {
        String::new()
    }

    /// The address under which the upstream is reached.
    pub fn get_address(&self) -> (r: String)
        ensures
            r@ == address_of(self.host@, self.port),
    {
        let mut host = self.host.clone();
        let port = self.port;
        if port > 1 && port != 80 {
            host.append(":");
            push_decimal_i64(&mut host, port as i64);
        }
        host
    }
}

/// The routing functions that a rule can apply.
#[derive(PartialEq, Eq, Structural, Clone, Copy, Debug)]
pub enum RoutingFunction {
    Odj,
    Wakuden,
    MillionDollar,
    Timer,
}

/// A named routing rule.
pub struct RoutingRule {
    name: String,
    routing_rule: RoutingFunction,
}

impl View for RoutingRule {
    type V = (Seq<char>, RoutingFunction);

    closed spec fn view(&self) -> (Seq<char>, RoutingFunction) {
        (self.name@, self.routing_rule)
    }
}

impl DeepView for RoutingRule {
    type V = (Seq<char>, RoutingFunction);

    open spec fn deep_view(&self) -> (Seq<char>, RoutingFunction) {
        self@
    }
}

impl RoutingRule {
    pub fn new(name: String, routing_rule: RoutingFunction) -> (r: Self)
        ensures
            r@ == (name@, routing_rule),
    {
        RoutingRule { name, routing_rule }
    }

    /// Where this rule relays `requet`, if anywhere.
    pub fn route(&self, config: &ServerConfig, requet: &http_request_info) -> (r: Option<
        RelayConnectionInfo,
    >)
        ensures
            r.deep_view() == route_rule_spec(self@.1, requet@),
    {
        match self.routing_rule {
            RoutingFunction::Odj => routing_odj(requet),
            RoutingFunction::Wakuden => routing_wakuden(requet),
            RoutingFunction::MillionDollar => routing_milliondollar(requet),
            RoutingFunction::Timer => routing_timer(requet),
        }
    }
}

/// Where the first rule of `rules` that relays `req` relays it.
pub open spec fn route_rules(rules: Seq<(Seq<char>, RoutingFunction)>, req: RequestView) -> Option<
    RelayView,
>
    decreases rules.len(),
{
    if rules.len() == 0 {
        None
    } else {
        match route_rule_spec(rules[0].1, req) {
            Some(r) => Some(r),
            None => route_rules(rules.drop_first(), req),
        }
    }
}

/// The position of the first rule of `rules` that relays `req`.
pub open spec fn first_match(rules: Seq<(Seq<char>, RoutingFunction)>, req: RequestView) -> Option<
    int,
>
    decreases rules.len(),
{
    if rules.len() == 0 {
        None
    } else if route_rule_spec(rules[0].1, req) is Some {
        Some(0)
    } else {
        match first_match(rules.drop_first(), req) {
            Some(i) => Some(i + 1),
            None => None,
        }
    }
}

/// Law: the rule that `find_routing_rule` finds is the one whose answer
/// `route` gives: where the first matching rule stands at `i`, routing gives
/// what rule `i` gives, and where no rule matches, routing gives nothing.
pub proof fn law_route_is_first_match(rules: Seq<(Seq<char>, RoutingFunction)>, req: RequestView)
    ensures
        match first_match(rules, req) {
            Some(i) => 0 <= i < rules.len() && route_rules(rules, req) == route_rule_spec(
                rules[i].1,
                req,
            ),
            None => route_rules(rules, req) is None,
        },
    decreases rules.len(),
{
    if rules.len() > 0 {
        law_route_is_first_match(rules.drop_first(), req);
    }
}

/// Law: adding a rule never changes where a request that an earlier rule
/// relays goes; a request that no earlier rule relays goes where the new
/// rule sends it.
pub proof fn law_add_keeps_earlier_routes(
    rules: Seq<(Seq<char>, RoutingFunction)>,
    rule: (Seq<char>, RoutingFunction),
    req: RequestView,
)
    ensures
        route_rules(rules.push(rule), req) == match route_rules(rules, req) {
            Some(x) => Some(x),
            None => route_rule_spec(rule.1, req),
        },
    decreases rules.len(),
{
    if rules.len() == 0 {
        let empty = Seq::<(Seq<char>, RoutingFunction)>::empty();
        assert(rules.push(rule).drop_first() =~= empty);
        assert(route_rules(empty, req) is None);
        assert(rules.push(rule)[0] == rule);
    } else {
        law_add_keeps_earlier_routes(rules.drop_first(), rule, req);
        assert(rules.push(rule).drop_first() =~= rules.drop_first().push(rule));
        assert(rules.push(rule)[0] == rules[0]);
    }
}

/// The mathematical value of a server configuration.
pub struct ConfigView {
    pub rules: Seq<(Seq<char>, RoutingFunction)>,
    pub count: i32,
    pub routing_number: i32,
}

/// A call that changes a server configuration.
pub enum ConfigOp {
    Add((Seq<char>, RoutingFunction)),
    AddCount,
    SetRoutingNumber(i32),
}

/// What the call `op` does to the configuration `c`.
pub open spec fn apply_config_op(c: ConfigView, op: ConfigOp) -> ConfigView {
    match op {
        ConfigOp::Add(rule) => ConfigView { rules: c.rules.push(rule), ..c },
        ConfigOp::AddCount => ConfigView { count: (c.count + 1) as i32, ..c },
        ConfigOp::SetRoutingNumber(n) => ConfigView { routing_number: n, ..c },
    }
}

/// The configuration after the calls `ops`, one after another, on `c`.
pub open spec fn apply_config_ops(c: ConfigView, ops: Seq<ConfigOp>) -> ConfigView
    decreases ops.len(),
{
    if ops.len() == 0 {
        c
    } else {
        apply_config_op(apply_config_ops(c, ops.drop_last()), ops.last())
    }
}

/// Law: after `set_routing_number(n)`, the routing number reads `n` whatever
/// other calls follow, as long as none of them sets it again; the rules and
/// the count are those that the other calls alone make of them. (Calls that
/// take `&self`, such as `route` and the getters, change nothing at all.)
pub proof fn law_routing_number_kept(c: ConfigView, n: i32, ops: Seq<ConfigOp>)
    requires
        forall|i: int| 0 <= i < ops.len() ==> !(#[trigger] ops[i] is SetRoutingNumber),
    ensures
        apply_config_ops(c, seq![ConfigOp::SetRoutingNumber(n)] + ops).routing_number == n,
        apply_config_ops(c, seq![ConfigOp::SetRoutingNumber(n)] + ops).rules == apply_config_ops(
            c,
            ops,
        ).rules,
        apply_config_ops(c, seq![ConfigOp::SetRoutingNumber(n)] + ops).count == apply_config_ops(
            c,
            ops,
        ).count,
    decreases ops.len(),
{
    let first = seq![ConfigOp::SetRoutingNumber(n)];
    if ops.len() == 0 {
        assert(first + ops =~= first);
        assert(first.drop_last() =~= Seq::<ConfigOp>::empty());
        assert(apply_config_ops(c, Seq::<ConfigOp>::empty()) == c);
        assert(apply_config_ops(c, first) == apply_config_op(c, ConfigOp::SetRoutingNumber(n)));
        assert(apply_config_ops(c, ops) == c);
    } else {
        let rest = ops.drop_last();
        assert forall|i: int| 0 <= i < rest.len() implies !(#[trigger] rest[i] is SetRoutingNumber) by {
            assert(rest[i] == ops[i]);
        }
        law_routing_number_kept(c, n, rest);
        assert((first + ops).drop_last() =~= first + rest);
        assert((first + ops).last() == ops.last());
        assert(!(ops[ops.len() - 1] is SetRoutingNumber));
        let a = apply_config_ops(c, first + rest);
        let b = apply_config_ops(c, rest);
        assert(apply_config_ops(c, first + ops) == apply_config_op(a, ops.last()));
        assert(apply_config_ops(c, ops) == apply_config_op(b, ops.last()));
    }
}

/// `n` calls of `add_count`.
pub open spec fn add_counts(n: nat) -> Seq<ConfigOp> {
    Seq::new(n, |i: int| ConfigOp::AddCount)
}

/// Law: `n` calls of `add_count` on a count `c` return `c + 1`, ..., `c + n`
/// in turn (the `k`-th call leaves, and returns, `c + k`), and leave the count
/// at `c + n`; no call is lost, and the rules and the routing number stay.
pub proof fn law_add_count_calls(c: ConfigView, n: nat)
    requires
        c.count + n <= i32::MAX,
    ensures
        forall|k: nat|
            k <= n ==> #[trigger] apply_config_ops(c, add_counts(k)) == (ConfigView {
                count: (c.count + k) as i32,
                ..c
            }),
    decreases n,
{
    if n > 0 {
        law_add_count_calls(c, (n - 1) as nat);
        assert(add_counts(n).drop_last() =~= add_counts((n - 1) as nat));
        assert(add_counts(n).last() == ConfigOp::AddCount);
        assert forall|k: nat| k <= n implies #[trigger] apply_config_ops(c, add_counts(k)) == (
        ConfigView { count: (c.count + k) as i32, ..c }) by {
            if k == n {
                assert(apply_config_ops(c, add_counts(n)) == apply_config_op(
                    apply_config_ops(c, add_counts((n - 1) as nat)),
                    ConfigOp::AddCount,
                ));
            }
        }
    } else {
        assert forall|k: nat| k <= n implies #[trigger] apply_config_ops(c, add_counts(k)) == (
        ConfigView { count: (c.count + k) as i32, ..c }) by {
            assert(add_counts(k) =~= Seq::<ConfigOp>::empty());
        }
    }
}

/// The routing rules of the server, in the order in which they are tried,
/// and two counters. The counters are read through `get_count_value`,
/// `get_count` and `get_routing_number`.
pub struct ServerConfig {
    routing_rules: Vec<RoutingRule>,
    count: i32,
    routing_number: i32,
}

impl View for ServerConfig {
    type V = ConfigView;

    closed spec fn view(&self) -> ConfigView {
        ConfigView {
            rules: self.routing_rules.deep_view(),
            count: self.count,
            routing_number: self.routing_number,
        }
    }
}

impl ServerConfig {
    /// A configuration without rules, with both counters at zero.
    pub fn new() -> (r: Self)
        ensures
            r@ == (ConfigView { rules: Seq::empty(), count: 0, routing_number: 0 }),
    {
        let vec: Vec<RoutingRule> = Vec::new();
        let r = ServerConfig { routing_rules: vec, count: 0, routing_number: 0 };
        assert(r.routing_rules.deep_view() =~= Seq::<(Seq<char>, RoutingFunction)>::empty());
        r
    }

    /// Adds `rule` after the rules already there.
    pub fn add(&mut self, rule: RoutingRule)
        ensures
            final(self)@ == (ConfigView { rules: old(self)@.rules.push(rule@), ..old(self)@ }),
            final(self)@ == apply_config_op(old(self)@, ConfigOp::Add(rule@)),
    {
        let ghost old_rules = self.routing_rules.deep_view();
        self.routing_rules.push(rule);
        assert(self.routing_rules.deep_view() =~= old_rules.push(rule@));
    }

    /// The first rule that relays `request`, if any.
    pub fn find_routing_rule(&self, request: &http_request_info) -> (r: Option<&RoutingRule>)
        ensures
            r is Some == first_match(self@.rules, request@) is Some,
            r is Some ==> r->0@ == self@.rules[first_match(self@.rules, request@)->0],
    {
        let ghost rules = self.routing_rules.deep_view();
        let mut i: usize = 0;
        assert(rules.skip(0) =~= rules);
        while i < self.routing_rules.len()
            invariant
                i <= self.routing_rules.len(),
                rules == self.routing_rules.deep_view(),
                first_match(rules, request@) == match first_match(rules.skip(i as int), request@) {
                    Some(k) => Some(k + i),
                    None => None::<int>,
                },
            decreases self.routing_rules.len() - i,
        {
            let rule = &self.routing_rules[i];
            assert(rules[i as int] == rule@);
            assert(rules.skip(i as int).drop_first() =~= rules.skip(i + 1));
            if rule.route(self, request).is_some() {
                return Some(rule);
            }
            i = i + 1;
        }
        None
    }

    /// Where the first rule that relays `request` relays it.
    pub fn route(&self, request: &http_request_info) -> (r: Option<RelayConnectionInfo>)
        ensures
            r.deep_view() == route_rules(self@.rules, request@),
    {
        let ghost rules = self.routing_rules.deep_view();
        let mut i: usize = 0;
        assert(rules.skip(0) =~= rules);
        while i < self.routing_rules.len()
            invariant
                i <= self.routing_rules.len(),
                rules == self.routing_rules.deep_view(),
                route_rules(rules, request@) == route_rules(rules.skip(i as int), request@),
            decreases self.routing_rules.len() - i,
        {
            let rule = &self.routing_rules[i];
            assert(rules[i as int] == rule@);
            assert(rules.skip(i as int).drop_first() =~= rules.skip(i + 1));
            let r = rule.route(self, request);
            if r.is_some() {
                return r;
            }
            i = i + 1;
        }
        None
    }

    /// Counts one more relayed request and returns the new count.
    pub fn add_count(&mut self) -> (r: i32)
        requires
            old(self)@.count < i32::MAX,
        ensures
            r == old(self)@.count + 1,
            final(self)@ == (ConfigView { count: r, ..old(self)@ }),
            final(self)@ == apply_config_op(old(self)@, ConfigOp::AddCount),
    {
        self.count = self.count + 1;
        self.count
    }

    /// The number of relayed requests counted so far.
    pub fn get_count_value(&self) -> (r: i32)
        ensures
            r == self@.count,
    {
        self.count
    }

    /// The routing number (the counter that `set_routing_number` sets).
    pub fn get_count(&self) -> (r: i32)
        ensures
            r == self@.routing_number,
    {
        self.routing_number
    }

    /// Sets the routing number and returns it.
    pub fn set_routing_number(&mut self, number: i32) -> (r: i32)
        ensures
            r == number,
            final(self)@ == (ConfigView { routing_number: number, ..old(self)@ }),
            final(self)@ == apply_config_op(old(self)@, ConfigOp::SetRoutingNumber(number)),
    {
        self.routing_number = number;
        self.routing_number
    }

    pub fn get_routing_number(&self) -> (r: i32)
        ensures
            r == self@.routing_number,
    {
        self.routing_number
    }
}

/// The answers that the server gives of its own.
pub enum HttpResponse {
    NotFound,
}

impl HttpResponse {
    pub open spec fn status(self) -> HttpStatus {
        HttpStatus::NotFound
    }

    pub open spec fn body(self) -> Seq<char> {
        not_found_body()
    }

    /// The answer, dated `date`.
    pub fn response_with_date(&self, date: &str) -> (r: String)
        ensures
            r@ == response_text(self.status(), date@, self.body()),
    {
        let status = HttpStatus::NotFound;
        write_response(status, date, "<html><body><h1>Not Found</h1></body></html>")
    }

    /// The answer, dated now.
    pub fn response(&self) -> (r: String)
        ensures
            exists|date: Seq<char>|
                is_date_time_text(date) && no_line_break(date) && r@ == response_text(self.status(), date, self.body()),
    {
        let date = local_now_text();
        let r = self.response_with_date(date.as_str());
        assert(r@ == response_text(self.status(), date@, self.body()));
        r
    }
}

/// The answer that reports the routing number.
pub struct SetNumber {
    pub routing_number: i32,
}

impl SetNumber {
    pub open spec fn body(self) -> Seq<char> {
        "<html><body><h1>Set Number</h1><span>"@ + decimal_int(self.routing_number as int)
            + "<span></body></html>"@
    }

    /// The answer, dated `date`.
    pub fn response_with_date(&self, date: &str) -> (r: String)
        ensures
            r@ == response_text(HttpStatus::Success, date@, self.body()),
    {
        let mut buf = "<html><body><h1>Set Number</h1><span>".to_owned();
        push_decimal_i64(&mut buf, self.routing_number as i64);
        buf.append("<span></body></html>");
        write_response(HttpStatus::Success, date, buf.as_str())
    }

    /// The answer, dated now.
    pub fn response(&self) -> (r: String)
        ensures
            exists|date: Seq<char>|
                is_date_time_text(date) && no_line_break(date) && r@ == response_text(HttpStatus::Success, date, self.body()),
    {
        let date = local_now_text();
        let r = self.response_with_date(date.as_str());
        assert(r@ == response_text(HttpStatus::Success, date@, self.body()));
        r
    }
}

} // verus!
