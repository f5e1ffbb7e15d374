use http_relay::http::http_status::{not_found, write_response, HttpStatus};
use http_relay::server::config::{
    HttpResponse, RelayConnectionInfo, RoutingFunction, RoutingRule, ServerConfig, SetNumber,
};
use http_relay::server::http_request::{http_request_first_line, http_request_header, http_request_info};
use http_relay::server::upstream::{send_body_step, send_first_line, send_headers};
use http_relay::server::worker::{Worker, WorkerAction};

fn request(uri: &str, host: &str) -> http_request_info {
    let first = http_request_first_line::new(format!("GET {} HTTP/1.1", uri));
    let header = http_request_header::new(vec![format!("Host: {}", host)]);
    http_request_info::new(first, header)
}

const NOT_FOUND_BODY: &str = "<html><body><h1>Not Found</h1></body></html>";

#[test]
fn relay_connection_info_new_uses_localhost_8000() {
    let r = RelayConnectionInfo::new("other".to_string(), 1, "/p".to_string(), "x".to_string());
    assert_eq!(r.host, "localhost");
    assert_eq!(r.port, 8000);
    assert_eq!(r.path, "/p");
    assert_eq!(r.relayInfo, None);
    assert!(!r.response);
    assert_eq!(r.response(), "");
    assert_eq!(r.get_address(), "localhost:8000");
}

#[test]
fn rules_are_tried_in_order() {
    let mut config = ServerConfig::new();
    config.add(RoutingRule::new("timer".to_string(), RoutingFunction::Timer));
    config.add(RoutingRule::new("md".to_string(), RoutingFunction::MillionDollar));
    let req = request("/", "timer.example");
    let r = config.route(&req).unwrap();
    assert_eq!(r.host, "dev-timer");
    let rule = config.find_routing_rule(&req).unwrap();
    let again = rule.route(&config, &req).unwrap();
    assert_eq!(again.path, r.path);
    let req = request("/m", "million-dollar.example");
    assert_eq!(config.route(&req).unwrap().port, 1234);
    // A rule added later does not take over what an earlier one routes.
    config.add(RoutingRule::new("timer2".to_string(), RoutingFunction::Timer));
    assert_eq!(config.route(&request("/", "timer.example")).unwrap().host, "dev-timer");
    assert!(config.route(&request("/", "odj.example")).is_none());
    config.add(RoutingRule::new("odj".to_string(), RoutingFunction::Odj));
    assert_eq!(config.route(&request("/", "odj.example")).unwrap().host, "dev-jt0001");
}

#[test]
fn counters() {
    let mut config = ServerConfig::new();
    assert_eq!(config.add_count(), 1);
    assert_eq!(config.add_count(), 2);
    assert_eq!(config.get_count_value(), 2);
    assert_eq!(config.set_routing_number(7), 7);
    assert_eq!(config.get_routing_number(), 7);
    assert_eq!(config.get_count(), 7);
}

#[test]
fn add_count_calls_count_up_one_by_one() {
    let mut config = ServerConfig::new();
    config.set_routing_number(9);
    let results: Vec<i32> = (0..5).map(|_| config.add_count()).collect();
    assert_eq!(results, vec![1, 2, 3, 4, 5]);
    assert_eq!(config.get_count_value(), 5);
    assert_eq!(config.get_routing_number(), 9);
}

#[test]
fn routing_number_survives_other_calls() {
    let mut config = ServerConfig::new();
    config.set_routing_number(42);
    config.add(RoutingRule::new("md".to_string(), RoutingFunction::MillionDollar));
    config.add_count();
    let _ = config.route(&request("/", "million-dollar.x"));
    assert_eq!(config.get_routing_number(), 42);
    assert_eq!(config.get_count_value(), 1);
    config.set_routing_number(-1);
    assert_eq!(config.get_routing_number(), -1);
}

#[test]
fn responses_have_exact_text() {
    let t = write_response(HttpStatus::NotFound, "D", NOT_FOUND_BODY);
    assert_eq!(
        t,
        format!("HTTP/1.1 404 Not Found\r\nDate: D \r\nContent-Length: 44\r\n\r\n{}\r\n", NOT_FOUND_BODY)
    );
    assert_eq!(HttpResponse::NotFound.response_with_date("D"), t);
    let s = SetNumber { routing_number: -3 }.response_with_date("X");
    let body = "<html><body><h1>Set Number</h1><span>-3<span></body></html>";
    assert_eq!(
        s,
        format!("HTTP/1.1 200 OK\r\nDate: X \r\nContent-Length: {}\r\n\r\n{}\r\n", body.len(), body)
    );
    assert_eq!(write_response(HttpStatus::Success, "d", "é"), "HTTP/1.1 200 OK\r\nDate: d \r\nContent-Length: 2\r\n\r\né\r\n");
}

fn date_of(response: &str) -> &str {
    let rest = &response["HTTP/1.1 404 Not Found\r\nDate: ".len()..];
    &rest[..rest.find(" \r\n").unwrap()]
}

#[test]
fn not_found_is_dated_now() {
    let t = not_found();
    assert!(t.starts_with("HTTP/1.1 404 Not Found\r\nDate: "));
    assert!(t.ends_with(&format!("\r\nContent-Length: 44\r\n\r\n{}\r\n", NOT_FOUND_BODY)));
    let date = date_of(&t);
    assert!(!date.is_empty());
    assert!(!date.contains('\r') && !date.contains('\n'));
    let parts: Vec<&str> = date.split(' ').collect();
    assert_eq!(parts.len(), 3, "{:?}", date);
    let ymd: Vec<&str> = parts[0].rsplitn(3, '-').collect();
    assert_eq!(ymd[0].len(), 2);
    assert_eq!(ymd[1].len(), 2);
    assert!(ymd[2].len() >= 4);
    assert_eq!(&parts[1][2..3], ":");
    assert_eq!(&parts[1][5..6], ":");
    assert!([8, 12, 15, 18].contains(&parts[1].len()));
    assert!(parts[2].starts_with('+') || parts[2].starts_with('-'));
    assert!(parts[2].len() == 6 || parts[2].len() == 9);
    assert!(date.chars().next().unwrap().is_ascii_digit());
    let u = SetNumber { routing_number: 5 }.response();
    assert!(u.starts_with("HTTP/1.1 200 OK\r\nDate: "));
}

#[test]
fn upstream_request_text() {
    let req = http_request_info::new(
        http_request_first_line::new("POST /a?b HTTP/1.1".to_string()),
        http_request_header::new(vec![
            "Host: client.example".to_string(),
            "Content-Length: 12".to_string(),
            "Accept: */*".to_string(),
            "X-A:  b ".to_string(),
        ]),
    );
    assert_eq!(send_first_line(&req.http_first_line), "POST /a?b HTTP/1.1\r\n");
    let relay = RelayConnectionInfo {
        host: "localhost".to_string(),
        port: 1234,
        path: "/a?b".to_string(),
        relayInfo: None,
        response: false,
    };
    assert_eq!(
        send_headers(&relay, &req.http_request_header),
        "Host: localhost\r\nContent-Length: 12\r\nAccept: */*\r\nX-A: b\r\n\r\n"
    );
    let relay = RelayConnectionInfo { host: String::new(), ..relay };
    let no_body = http_request_header::new(vec!["Content-Length: 0".to_string()]);
    assert_eq!(send_headers(&relay, &no_body), "\r\n");
    assert_eq!(send_body_step(5000, 4096), (904, true));
    assert_eq!(send_body_step(7, 7), (0, false));
    assert_eq!(send_body_step(3, 4096), (-4093, false));
}

#[test]
fn first_line_sent_upstream_reads_back() {
    let l = http_request_first_line::new(" GET   /x?y=1\tHTTP/1.1 ".to_string());
    let sent = send_first_line(&l);
    let back = http_request_first_line::new(sent);
    assert_eq!(back.method, "GET");
    assert_eq!(back.uri, "/x?y=1");
    assert_eq!(back.protool_version, "HTTP/1.1");
}

#[test]
fn worker_answers_or_relays() {
    let mut worker = Worker::new(http_relay::routing_sample::create_sample_config());
    match worker.handle_request(&request("/", "unknown.example")) {
        WorkerAction::Respond(text) => assert!(text.starts_with("HTTP/1.1 404 Not Found\r\n")),
        WorkerAction::Relay(_) => panic!("no rule relays this request"),
    }
    match worker.handle_request(&request("/q", "million-dollar.example")) {
        WorkerAction::Relay(r) => {
            assert_eq!(r.get_address(), "localhost:1234");
            assert_eq!(r.path, "/q");
        },
        WorkerAction::Respond(_) => panic!("the sample rule relays this request"),
    }
    assert_eq!(worker.count(), 1);
}
