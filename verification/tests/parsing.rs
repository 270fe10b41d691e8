//! Literals, rendering, tokenization, line splitting, and the store.

use nudhi::bytes::trim;
use nudhi::interp::split_lines;
use nudhi::numbers::{parse_i32, render_i32};
use nudhi::store::Store;
use nudhi::tokens::tokenize;
use nudhi::value::Value;

#[test]
fn parse_plain_literals() {
    assert_eq!(parse_i32(b"123"), Some(123));
    assert_eq!(parse_i32(b"0"), Some(0));
    assert_eq!(parse_i32(b"+5"), Some(5));
    assert_eq!(parse_i32(b"-42"), Some(-42));
    assert_eq!(parse_i32(b"007"), Some(7));
}

#[test]
fn parse_range_ends() {
    assert_eq!(parse_i32(b"2147483647"), Some(i32::MAX));
    assert_eq!(parse_i32(b"-2147483648"), Some(i32::MIN));
    assert_eq!(parse_i32(b"2147483648"), None);
    assert_eq!(parse_i32(b"-2147483649"), None);
    assert_eq!(parse_i32(b"99999999999999999999"), None);
}

#[test]
fn parse_rejects_malformed() {
    assert_eq!(parse_i32(b""), None);
    assert_eq!(parse_i32(b"+"), None);
    assert_eq!(parse_i32(b"-"), None);
    assert_eq!(parse_i32(b"12a"), None);
    assert_eq!(parse_i32(b" 12"), None);
    assert_eq!(parse_i32(b"1 2"), None);
}

#[test]
fn render_decimal() {
    assert_eq!(render_i32(0), b"0".to_vec());
    assert_eq!(render_i32(7), b"7".to_vec());
    assert_eq!(render_i32(-5), b"-5".to_vec());
    assert_eq!(render_i32(1234567890), b"1234567890".to_vec());
    assert_eq!(render_i32(i32::MIN), b"-2147483648".to_vec());
    assert_eq!(render_i32(i32::MAX), b"2147483647".to_vec());
}

#[test]
fn tokenize_splits_on_whitespace() {
    let toks = tokenize(b"  a \t bb\r c ");
    let toks: Vec<&[u8]> = toks.iter().map(|t| t.as_slice()).collect();
    assert_eq!(toks, vec![&b"a"[..], &b"bb"[..], &b"c"[..]]);
    assert_eq!(tokenize(b"   ").len(), 0);
    assert_eq!(tokenize(b"").len(), 0);
}

#[test]
fn trim_strips_both_ends() {
    assert_eq!(trim(b"  hi \t "), b"hi".to_vec());
    assert_eq!(trim(b"hi"), b"hi".to_vec());
    assert_eq!(trim(b"  "), b"".to_vec());
}

#[test]
fn split_lines_matches_line_endings() {
    let lines = split_lines(b"a\nbb\r\n\nc");
    let lines: Vec<&[u8]> = lines.iter().map(|l| l.as_slice()).collect();
    assert_eq!(lines, vec![&b"a"[..], &b"bb"[..], &b""[..], &b"c"[..]]);
    assert_eq!(split_lines(b"x\n").len(), 1);
    assert_eq!(split_lines(b"").len(), 0);
}

#[test]
fn store_set_then_get() {
    let mut store = Store::new();
    assert!(store.get(b"n").is_none());
    store.set(b"n".to_vec(), Value::Int(42));
    assert_eq!(store.get(b"n"), Some(&Value::Int(42)));
}

#[test]
fn store_last_write_wins() {
    let mut store = Store::new();
    store.set(b"n".to_vec(), Value::Int(1));
    store.set(b"n".to_vec(), Value::Int(2));
    assert_eq!(store.get(b"n"), Some(&Value::Int(2)));
}

#[test]
fn store_value_kind_may_change() {
    let mut store = Store::new();
    store.set(b"n".to_vec(), Value::Int(1));
    store.set(b"n".to_vec(), Value::Str(b"text".to_vec()));
    assert_eq!(store.get(b"n"), Some(&Value::Str(b"text".to_vec())));
}

#[test]
fn render_value_shows_int_as_decimal() {
    assert_eq!(Value::Int(-7).render(), b"-7".to_vec());
    assert_eq!(Value::Str(b"as-is".to_vec()).render(), b"as-is".to_vec());
}
