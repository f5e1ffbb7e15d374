use http_relay::server::http_request::{
    http_request_first_line, http_request_header, read_header, read_http_request,
};

#[test]
fn test_http_request_request_header() {
    let vec = vec![
        "Host: localhost".to_string(),
        "X-Forwarded-Host: locallocalh".to_string(),
        "User-Agent: curl/7.55.1".to_string(),
        "Accept: */*".to_string(),
        "Content-Length: 7".to_string(),
        "Connection: keep-alive".to_string(),
        "Content-Type: application/x-www-form-urlencoded".to_string(),
        "Content-Type: aaa:bbb".to_string(),
    ];
    let header = http_request_header::new(vec);
    let mut a = "".to_string();
    a.push_str("aaa");

    println!("HOST : {} ", header.host);
    println!("KeepAlive: {} ", header.keep_alive);
    println!("content_length: {} ", header.content_length);
    assert_eq!(header.host, "locallocalh");
    assert!(header.keep_alive);
    assert_eq!(header.content_length, 7);
    let names: Vec<(&str, &str)> =
        header.headers.iter().map(|e| (e.name.as_str(), e.value.as_str())).collect();
    assert_eq!(
        names,
        vec![
            ("User-Agent", "curl/7.55.1"),
            ("Accept", "*/*"),
            ("Content-Type", "application/x-www-form-urlencoded"),
            ("Content-Type", "aaa:bbb"),
        ]
    );
}

#[test]
fn first_host_field_wins_over_later_host() {
    let h = http_request_header::new(vec!["host: a.example".to_string(), "HOST: b.example".to_string()]);
    assert_eq!(h.host, "a.example");
    let h = http_request_header::new(vec![
        "Host: a.example".to_string(),
        "x-forwarded-host: b.example".to_string(),
        "Host: c.example".to_string(),
    ]);
    assert_eq!(h.host, "b.example");
}

#[test]
fn content_length_that_does_not_parse_is_minus_one() {
    let h = http_request_header::new(vec!["Content-Length: 12".to_string(), "Content-Length: x".to_string()]);
    assert_eq!(h.content_length, -1);
    let h = http_request_header::new(vec!["Content-Length: +42".to_string()]);
    assert_eq!(h.content_length, 42);
    let h = http_request_header::new(vec!["Content-Length: 9223372036854775808".to_string()]);
    assert_eq!(h.content_length, -1);
    let h = http_request_header::new(vec!["Content-Length: -9223372036854775808".to_string()]);
    assert_eq!(h.content_length, i64::MIN);
    let h = http_request_header::new(vec![]);
    assert_eq!(h.content_length, -1);
    assert_eq!(h.host, "");
    assert!(!h.keep_alive);
    assert!(h.headers.is_empty());
}

#[test]
fn connection_other_than_keep_alive_is_dropped() {
    let h = http_request_header::new(vec!["Connection: close".to_string(), "".to_string()]);
    assert!(!h.keep_alive);
    assert!(h.headers.is_empty());
    let h = http_request_header::new(vec!["Connection: Keep-Alive".to_string(), "Connection: close".to_string()]);
    assert!(h.keep_alive);
}

#[test]
fn add_string_after_new_is_new_on_all_lines() {
    let lines = vec!["Host: a".to_string(), "Accept: */*".to_string(), "Connection: keep-alive".to_string()];
    let all = http_request_header::new(lines.clone());
    let mut part = http_request_header::new(lines[..1].to_vec());
    part.add_string(lines[1].clone());
    part.add_string(lines[2].clone());
    assert_eq!(part.host, all.host);
    assert_eq!(part.keep_alive, all.keep_alive);
    assert_eq!(part.content_length, all.content_length);
    assert_eq!(part.headers.len(), all.headers.len());
    assert_eq!(part.headers[0].value, all.headers[0].value);
}

#[test]
fn request_first_line_words() {
    let l = http_request_first_line::new("POST /bbb/ddd HTTP/1.1".to_string());
    assert_eq!(l.method, "POST");
    assert_eq!(l.uri, "/bbb/ddd");
    assert_eq!(l.protool_version, "HTTP/1.1");
    assert_eq!(l.request, "POST /bbb/ddd HTTP/1.1");
    let l = http_request_first_line::new("  GET\t/x   HTTP/1.0 extra\r".to_string());
    assert_eq!(l.method, "GET");
    assert_eq!(l.uri, "/x");
    assert_eq!(l.protool_version, "HTTP/1.0");
}

#[test]
fn read_header_stops_at_empty_line() {
    let lines = vec![
        "Host: h".to_string(),
        "A: 1".to_string(),
        "".to_string(),
        "not a header line".to_string(),
    ];
    let h = read_header(&lines);
    assert_eq!(h.host, "h");
    assert_eq!(h.headers.len(), 1);
    assert_eq!(h.headers[0].name, "A");
    let r = read_http_request("GET / HTTP/1.1".to_string(), &lines);
    assert_eq!(r.http_first_line.uri, "/");
    assert_eq!(r.http_request_header.host, "h");
}
