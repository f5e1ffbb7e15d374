use http_relay::routing_sample::{
    create_sample_config, routing, routing_milliondollar, routing_odj, routing_timer,
    routing_wakuden,
};
use http_relay::server::config::RelayConnectionInfo;
use http_relay::server::http_request::{http_request_first_line, http_request_header, http_request_info};

fn relay(host: &str, port: i32, path: &str) -> RelayConnectionInfo {
    RelayConnectionInfo {
        host: host.to_string(),
        port,
        path: path.to_string(),
        relayInfo: None,
        response: false,
    }
}

fn request(uri: &str, host: &str) -> http_request_info {
    let first = http_request_first_line::new(format!("GET {} HTTP/1.1", uri));
    let header = http_request_header::new(vec![format!("Host: {}", host)]);
    http_request_info::new(first, header)
}

#[test]
fn test_get_address() {
    let relay = relay("localhost", 8080, "/cattleya/view/login?targetUser=wakuden");
    assert_eq!("localhost:8080", relay.get_address());
    let relay = RelayConnectionInfo {
        host: "localhost".to_string(),
        port: 80,
        path: "/cattleya/view/login?targetUser=wakuden".to_string(),
        relayInfo: None,
        response: false,
    };
    assert_eq!("localhost", relay.get_address());
    let relay = RelayConnectionInfo {
        host: "localhost".to_string(),
        port: 0,
        path: "/cattleya/view/login?targetUser=wakuden".to_string(),
        relayInfo: None,
        response: false,
    };
    assert_eq!("localhost", relay.get_address());
}

#[test]
fn test_get_user_name() {}

#[test]
fn get_address_port_one_and_two() {
    assert_eq!("example", relay("example", 1, "/").get_address());
    assert_eq!("example:2", relay("example", 2, "/").get_address());
    assert_eq!("example", relay("example", -5, "/").get_address());
    assert_eq!("h:2147483647", relay("h", i32::MAX, "/").get_address());
}

#[test]
fn milliondollar_routes_its_hosts() {
    let r = routing_milliondollar(&request("/a/b?c=d", "million-dollar.example.com")).unwrap();
    assert_eq!(r.host, "localhost");
    assert_eq!(r.port, 1234);
    assert_eq!(r.path, "/a/b?c=d");
    assert_eq!(r.relayInfo, None);
    assert!(!r.response);
    assert!(routing_milliondollar(&request("/", "million-dollar")).is_none());
    assert!(routing_milliondollar(&request("/", "www.million-dollar.com")).is_none());
}

#[test]
fn target_user_routes() {
    let r = routing_odj(&request("/x", "odj.example")).unwrap();
    assert_eq!(r.host, "dev-jt0001");
    assert_eq!(r.port, 8000);
    assert_eq!(r.path, "/cattleya?targetUser=odj");
    let r = routing_wakuden(&request("/x?y=1", "wakuden.local")).unwrap();
    assert_eq!(r.path, "/cattleya&targetUser=wakuden");
    let r = routing_timer(&request("/", "timer.")).unwrap();
    assert_eq!(r.host, "dev-timer");
    assert_eq!(r.path, "/cattleya?targetUser=timer");
    assert!(routing_odj(&request("/", "odjx.example")).is_none());
    let r = routing("abc", &request("/", "abc.d")).unwrap();
    assert_eq!(r.path, "/cattleya?targetUser=abc");
}

#[test]
fn sample_config_routes_million_dollar_only() {
    let config = create_sample_config();
    let r = config.route(&request("/top", "million-dollar.jp")).unwrap();
    assert_eq!(r.get_address(), "localhost:1234");
    assert_eq!(r.path, "/top");
    assert!(config.route(&request("/top", "odj.jp")).is_none());
    assert!(config.find_routing_rule(&request("/top", "million-dollar.jp")).is_some());
    assert!(config.find_routing_rule(&request("/top", "timer.jp")).is_none());
    assert_eq!(config.get_count_value(), 0);
    assert_eq!(config.get_routing_number(), 0);
}
