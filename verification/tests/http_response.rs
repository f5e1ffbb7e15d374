use http_relay::server::http_response::{
    http_response_first_line, http_response_header, read_http_response_info,
};

#[test]
fn status_line_words() {
    let l = http_response_first_line::new("HTTP/1.1 404 Not Found".to_string());
    assert_eq!(l.protocol_version, "HTTP/1.1");
    assert_eq!(l.http_status_code, 404);
    assert_eq!(l.http_status, "Not");
    assert_eq!(l.resonse, "HTTP/1.1 404 Not Found");
    let l = http_response_first_line::new("HTTP/1.0 200".to_string());
    assert_eq!(l.http_status_code, 200);
    assert_eq!(l.http_status, "");
}

#[test]
fn response_header_fields() {
    let h = http_response_header::new(vec![
        "Content-Length: 5055".to_string(),
        "Connection: keep-alive".to_string(),
        "Server: x".to_string(),
    ]);
    assert_eq!(h.content_length, 5055);
    assert!(!h.keep_alive);
    assert_eq!(h.headers.len(), 1);
    assert_eq!(h.headers[0].name, "Server");
    assert_eq!(h.headers[0].value, "x");
}

#[test]
fn read_response() {
    let lines = vec!["Content-Length: 3".to_string(), "".to_string(), "body".to_string()];
    let r = read_http_response_info("HTTP/1.1 200 OK".to_string(), &lines);
    assert_eq!(r.http_first_line.http_status_code, 200);
    assert_eq!(r.http_first_line.http_status, "OK");
    assert_eq!(r.http_response_header.content_length, 3);
    assert!(r.http_response_header.headers.is_empty());
}
