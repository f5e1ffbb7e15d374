use http_relay::http::http_header::parse;
use http_relay::text::{chars_of, decimal_string, parse_i32, parse_i64};

#[test]
fn aho() {
    let mut guess = "aaabbb".to_string();
    guess.remove(1);
    println!("{}", guess);
}

#[test]
fn header_lines_parse() {
    let e = parse("Content-Type: aaa:bbb".to_string()).unwrap();
    assert_eq!(e.name, "Content-Type");
    assert_eq!(e.value, "aaa:bbb");
    let e = parse("  X :\t  y z  ".to_string()).unwrap();
    assert_eq!(e.name, "X");
    assert_eq!(e.value, "y z");
    let e = parse(":".to_string()).unwrap();
    assert_eq!(e.name, "");
    assert_eq!(e.value, "");
    assert!(parse("no colon here".to_string()).is_none());
    assert!(parse("".to_string()).is_none());
}

#[test]
fn header_line_written_back_parses_the_same() {
    let e = parse("  Accept-Language :  ja, en  ".to_string()).unwrap();
    let again = parse(format!("{}: {}", e.name, e.value)).unwrap();
    assert_eq!(again.name, e.name);
    assert_eq!(again.value, e.value);
}

fn p64(s: &str) -> Option<i64> {
    parse_i64(&chars_of(s))
}

#[test]
fn integers_parse_as_std_does() {
    for s in ["0", "7", "+7", "-0", "-12", "007", "9223372036854775807", "-9223372036854775808",
        "9223372036854775808", "-9223372036854775809", "", "+", "-", "1 ", " 1", "1a", "++1", "٣"] {
        assert_eq!(p64(s), s.parse::<i64>().ok(), "{:?}", s);
        assert_eq!(parse_i32(&chars_of(s)), s.parse::<i32>().ok(), "{:?}", s);
    }
    assert_eq!(parse_i32(&chars_of("2147483648")), None);
    assert_eq!(parse_i32(&chars_of("-2147483648")), Some(i32::MIN));
}

#[test]
fn decimal_text_reads_back() {
    for v in [0i64, 1, 9, 10, 99, 100, -1, -10, 5055, i64::MAX, i64::MIN] {
        let s = decimal_string(v);
        assert_eq!(s, v.to_string());
        assert_eq!(p64(&s), Some(v));
    }
}
