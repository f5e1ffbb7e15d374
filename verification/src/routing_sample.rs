use vstd::prelude::*;
use vstd::string::StringExecFns;

use crate::server::config::{RelayConnectionInfo, RelayView, RoutingFunction, RoutingRule, ServerConfig, ConfigView};
use crate::server::http_request::{http_request_info, RequestView};
use crate::text::{starts_with, str_contains_char, str_starts_with};

verus! {

broadcast use vstd::string::group_string_axioms;

/// What joins the query `targetUser=...` to a path under `uri`: `&` where
/// `uri` already holds a query, `?` otherwise.
pub open spec fn conjunction(uri: Seq<char>) -> Seq<char> {
    if uri.contains('?') {
        "&"@
    } else {
        "?"@
    }
}

/// Requests whose host begins with `prefix.` go to `relay_host:8000`, path
/// `/cattleya` with the query `targetUser=prefix`.
pub open spec fn target_user_route(
    prefix: Seq<char>,
    relay_host: Seq<char>,
    req: RequestView,
) -> Option<RelayView> {
    if starts_with(req.header.host, prefix + "."@) {
        Some(
            RelayView {
                host: relay_host,
                port: 8000,
                path: "/cattleya"@ + conjunction(req.first_line.uri) + "targetUser="@ + prefix,
                relay_info: None,
                response: false,
            },
        )
    } else {
        None
    }
}

/// Requests whose host begins with `million-dollar.` go to `localhost:1234`,
/// with the request's own URI as path.
pub open spec fn milliondollar_route(req: RequestView) -> Option<RelayView> {
    if starts_with(req.header.host, "million-dollar."@) {
        Some(
            RelayView {
                host: "localhost"@,
                port: 1234,
                path: req.first_line.uri,
                relay_info: None,
                response: false,
            },
        )
    } else {
        None
    }
}

/// Where the routing function `f` relays `req`, if anywhere.
pub open spec fn route_rule_spec(f: RoutingFunction, req: RequestView) -> Option<RelayView> {
    match f {
        RoutingFunction::Odj => target_user_route("odj"@, "dev-jt0001"@, req),
        RoutingFunction::Wakuden => target_user_route("wakuden"@, "dev-jt0001"@, req),
        RoutingFunction::MillionDollar => milliondollar_route(req),
        RoutingFunction::Timer => target_user_route("timer"@, "dev-timer"@, req),
    }
}

/// The configuration that the server starts with: the one rule `md`.
pub open spec fn sample_config() -> ConfigView {
    ConfigView {
        rules: seq![("md"@, RoutingFunction::MillionDollar)],
        count: 0,
        routing_number: 0,
    }
}

pub fn create_sample_config() -> (r: ServerConfig)
    ensures
        r@ == sample_config(),
{
    let mut config = ServerConfig::new();
    config.add(RoutingRule::new("md".to_owned(), RoutingFunction::MillionDollar));
    assert(config@.rules =~= sample_config().rules);
    config
}

pub fn routing_odj(request: &http_request_info) -> (r: Option<RelayConnectionInfo>)
    ensures
        r.deep_view() == target_user_route("odj"@, "dev-jt0001"@, request@),
{
    routing("odj", request)
}

pub fn routing_wakuden(request: &http_request_info) -> (r: Option<RelayConnectionInfo>)
    ensures
        r.deep_view() == target_user_route("wakuden"@, "dev-jt0001"@, request@),
{
    routing("wakuden", request)
}

/// Relays requests to the host `prefix.…` to `dev-jt0001:8000`.
pub fn routing(prefix: &str, request: &http_request_info) -> (r: Option<RelayConnectionInfo>)
    ensures
        r.deep_view() == target_user_route(prefix@, "dev-jt0001"@, request@),
{
    route_to_target_user(prefix, "dev-jt0001", request)
}

pub fn routing_timer(request: &http_request_info) -> (r: Option<RelayConnectionInfo>)
    ensures
        r.deep_view() == target_user_route("timer"@, "dev-timer"@, request@),
{
    route_to_target_user("timer", "dev-timer", request)
}

fn route_to_target_user(prefix: &str, relay_host: &str, request: &http_request_info) -> (r: Option<
    RelayConnectionInfo,
>)
    ensures
        r.deep_view() == target_user_route(prefix@, relay_host@, request@),
{
    let mut pattern = prefix.to_owned();
    pattern.append(".");
    let conjunction: &str = if str_contains_char(request.http_first_line.uri.as_str(), '?') {
        "&"
    } else {
        "?"
    };
    if str_starts_with(request.http_request_header.host.as_str(), pattern.as_str()) {
        let mut path = "/cattleya".to_owned();
        path.append(conjunction);
        path.append("targetUser=");
        path.append(prefix);
        Some(
            RelayConnectionInfo {
                host: relay_host.to_owned(),
                port: 8000,
                path: path,
                relayInfo: None,
                response: false,
            },
        )
    } else {
        None
    }
}

pub fn routing_milliondollar(request: &http_request_info) -> (r: Option<RelayConnectionInfo>)
    ensures
        r.deep_view() == milliondollar_route(request@),
{
    let prefix: &str = "million-dollar";
    let mut pattern = prefix.to_owned();
    pattern.append(".");
    proof {
        reveal_strlit("million-dollar");
        reveal_strlit(".");
        reveal_strlit("million-dollar.");
        assert(pattern@ =~= "million-dollar."@);
    }
    if str_starts_with(request.http_request_header.host.as_str(), pattern.as_str()) {
        Some(
            RelayConnectionInfo {
                host: "localhost".to_owned(),
                port: 1234,
                path: request.http_first_line.uri.clone(),
                relayInfo: None,
                response: false,
            },
        )
    } else {
        None
    }
}

/// Law: a rule with the function `Odj` relays exactly the requests whose
/// host begins with `odj.`, and sends each to `dev-jt0001:8000` with the path `/cattleya` and the query `targetUser=odj` (joined by `&` where the URI holds a `?`, by `?` otherwise).
pub proof fn law_odj_rule(req: RequestView)
    ensures
        route_rule_spec(RoutingFunction::Odj, req) is Some <==> starts_with(
            req.header.host,
            "odj."@,
        ),
        starts_with(req.header.host, "odj."@) ==> route_rule_spec(RoutingFunction::Odj, req)
            == Some(
            RelayView {
                host: "dev-jt0001"@,
                port: 8000,
                path: "/cattleya"@ + (if req.first_line.uri.contains('?') {
                    "&"@
                } else {
                    "?"@
                }) + "targetUser=odj"@,
                relay_info: None,
                response: false,
            },
        ),
{
    reveal_strlit("odj");
    reveal_strlit(".");
    reveal_strlit("odj.");
    reveal_strlit("targetUser=");
    reveal_strlit("targetUser=odj");
    assert("targetUser="@ + "odj"@ =~= "targetUser=odj"@);
    let c = conjunction(req.first_line.uri);
    assert("/cattleya"@ + c + "targetUser="@ + "odj"@ =~= "/cattleya"@ + c + "targetUser=odj"@);
    assert("odj"@ + "."@ =~= "odj."@);
}

/// Law: a rule with the function `Wakuden` relays exactly the requests whose
/// host begins with `wakuden.`, and sends each to `dev-jt0001:8000` with the path `/cattleya` and the query `targetUser=wakuden` (joined by `&` where the URI holds a `?`, by `?` otherwise).
pub proof fn law_wakuden_rule(req: RequestView)
    ensures
        route_rule_spec(RoutingFunction::Wakuden, req) is Some <==> starts_with(
            req.header.host,
            "wakuden."@,
        ),
        starts_with(req.header.host, "wakuden."@) ==> route_rule_spec(RoutingFunction::Wakuden, req)
            == Some(
            RelayView {
                host: "dev-jt0001"@,
                port: 8000,
                path: "/cattleya"@ + (if req.first_line.uri.contains('?') {
                    "&"@
                } else {
                    "?"@
                }) + "targetUser=wakuden"@,
                relay_info: None,
                response: false,
            },
        ),
{
    reveal_strlit("wakuden");
    reveal_strlit(".");
    reveal_strlit("wakuden.");
    reveal_strlit("targetUser=");
    reveal_strlit("targetUser=wakuden");
    assert("targetUser="@ + "wakuden"@ =~= "targetUser=wakuden"@);
    let c = conjunction(req.first_line.uri);
    assert("/cattleya"@ + c + "targetUser="@ + "wakuden"@ =~= "/cattleya"@ + c + "targetUser=wakuden"@);
    assert("wakuden"@ + "."@ =~= "wakuden."@);
}

/// Law: a rule with the function `Timer` relays exactly the requests whose
/// host begins with `timer.`, and sends each to `dev-timer:8000` with the path `/cattleya` and the query `targetUser=timer` (joined by `&` where the URI holds a `?`, by `?` otherwise).
pub proof fn law_timer_rule(req: RequestView)
    ensures
        route_rule_spec(RoutingFunction::Timer, req) is Some <==> starts_with(
            req.header.host,
            "timer."@,
        ),
        starts_with(req.header.host, "timer."@) ==> route_rule_spec(RoutingFunction::Timer, req)
            == Some(
            RelayView {
                host: "dev-timer"@,
                port: 8000,
                path: "/cattleya"@ + (if req.first_line.uri.contains('?') {
                    "&"@
                } else {
                    "?"@
                }) + "targetUser=timer"@,
                relay_info: None,
                response: false,
            },
        ),
{
    reveal_strlit("timer");
    reveal_strlit(".");
    reveal_strlit("timer.");
    reveal_strlit("targetUser=");
    reveal_strlit("targetUser=timer");
    assert("targetUser="@ + "timer"@ =~= "targetUser=timer"@);
    let c = conjunction(req.first_line.uri);
    assert("/cattleya"@ + c + "targetUser="@ + "timer"@ =~= "/cattleya"@ + c + "targetUser=timer"@);
    assert("timer"@ + "."@ =~= "timer."@);
}

/// Law: a rule with the function `MillionDollar` relays exactly the requests whose
/// host begins with `million-dollar.`, and sends each to `localhost:1234` with the request's own URI as path.
pub proof fn law_milliondollar_rule(req: RequestView)
    ensures
        route_rule_spec(RoutingFunction::MillionDollar, req) is Some <==> starts_with(
            req.header.host,
            "million-dollar."@,
        ),
        starts_with(req.header.host, "million-dollar."@) ==> route_rule_spec(RoutingFunction::MillionDollar, req)
            == Some(
            RelayView {
                host: "localhost"@,
                port: 1234,
                path: req.first_line.uri,
                relay_info: None,
                response: false,
            },
        ),
{
    reveal_strlit("million-dollar");
    reveal_strlit(".");
    reveal_strlit("million-dollar.");
    assert("million-dollar"@ + "."@ =~= "million-dollar."@);
}

} // verus!
