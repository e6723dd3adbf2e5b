use oj::config::Server;
use oj::text::{is_blank, push_decimal, str_lt, trimmed_end_eq};

#[test]
fn decimal_rendering() {
    let mut s = String::from("n=");
    push_decimal(&mut s, 0);
    assert_eq!(s, "n=0");
    let mut s = String::new();
    push_decimal(&mut s, 1234567890123);
    assert_eq!(s, "1234567890123");
    let mut s = String::new();
    push_decimal(&mut s, u64::MAX);
    assert_eq!(s, u64::MAX.to_string());
}

#[test]
fn string_order_is_lexicographic() {
    assert!(str_lt("2022-08-27T02:05:29.000Z", "2022-08-27T02:05:30.000Z"));
    assert!(!str_lt("b", "ab"));
    assert!(str_lt("ab", "abc"));
    assert!(!str_lt("abc", "abc"));
    assert!(str_lt("", "a"));
    assert_eq!(str_lt("é", "z"), "é" < "z");
}

#[test]
fn trimming_compares_as_str_trim_end() {
    assert!(trimmed_end_eq("a b\t", "a b"));
    assert!(!trimmed_end_eq("  a b", "a b"));
    assert!(!trimmed_end_eq("a  b", "a b"));
    assert!(trimmed_end_eq("x\u{a0}\u{3000}", "x"));
    assert!(trimmed_end_eq("   ", ""));
    assert!(is_blank(" \t "));
    assert!(!is_blank(" x "));
}

#[test]
fn server_defaults() {
    let mut s = Server { bind_address: None, bind_port: None };
    s.fill_defaults();
    assert_eq!(s.bind_address.as_deref(), Some("127.0.0.1"));
    assert_eq!(s.bind_port, Some(12345));
    let mut s = Server { bind_address: Some("0.0.0.0".to_string()), bind_port: Some(80) };
    s.fill_defaults();
    assert_eq!(s.bind_address.as_deref(), Some("0.0.0.0"));
    assert_eq!(s.bind_port, Some(80));
}
