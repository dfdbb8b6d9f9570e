use lanzou_resolve::extract::{extract, DATA_PATTERN};
use lanzou_resolve::params::{
    encode_params, field_value, literal_value_of, parse_field, parse_fields, reconstruct,
    reconstruct_params, var_pattern_of,
};
use lanzou_resolve::text::{is_i32_literal_str, split_once_str, split_str, strip_str};
use lanzou_resolve::ResolveError;

fn pairs(v: &[(&str, &str)]) -> Vec<(String, String)> {
    v.iter().map(|(k, val)| (k.to_string(), val.to_string())).collect()
}

#[test]
fn extract_takes_first_group_of_leftmost_match() {
    let r = extract("a=1; b=2; a=3", r"a=(\d)");
    assert_eq!(r, Ok("1".to_string()));
}

#[test]
fn extract_without_match_is_not_found() {
    assert_eq!(extract("nothing here", r"data : \{(.+)}"), Err(ResolveError::PatternNotFound));
}

#[test]
fn extract_with_invalid_pattern_is_not_found() {
    assert_eq!(extract("var (x = '1'", r"var (x"), Err(ResolveError::PatternNotFound));
}

#[test]
fn extract_is_repeatable() {
    let text = "  x data : {a:'1'} y data : {b:'2'}";
    let first = extract(text, DATA_PATTERN);
    let second = extract(text, DATA_PATTERN);
    assert_eq!(first, second);
    assert!(first.is_ok());
}

#[test]
fn strip_trims_whitespace_and_quotes() {
    assert_eq!(strip_str("  \t'ab c'\n ", false), "'ab c'");
    assert_eq!(strip_str("''ab c'", true), "ab c");
    assert_eq!(strip_str("   ", false), "");
    assert_eq!(strip_str("\u{3000}x\u{a0}", false), "x");
}

#[test]
fn split_keeps_empty_pieces() {
    assert_eq!(split_str("a,,b,", ','), vec!["a", "", "b", ""]);
    assert_eq!(split_str("", ','), vec![""]);
}

#[test]
fn split_once_cuts_at_first_separator() {
    assert_eq!(split_once_str("url:'http://x'", ':'), Some(("url", "'http://x'")));
    assert_eq!(split_once_str("novalue", ':'), None);
}

#[test]
fn i32_literals_follow_from_str() {
    for s in ["0", "2", "-5", "+7", "2147483647", "-2147483648", "007"] {
        assert!(is_i32_literal_str(s), "{}", s);
        assert_eq!(is_i32_literal_str(s), s.parse::<i32>().is_ok());
    }
    for s in ["", "-", "+", "2147483648", "-2147483649", "1a", "d", "99999999999999999999"] {
        assert!(!is_i32_literal_str(s), "{}", s);
        assert_eq!(is_i32_literal_str(s), s.parse::<i32>().is_ok());
    }
}

#[test]
fn literal_values_are_classified() {
    assert_eq!(literal_value_of("'abc'"), Some("abc".to_string()));
    assert_eq!(literal_value_of("42"), Some("42".to_string()));
    assert_eq!(literal_value_of("sign"), None);
    assert_eq!(literal_value_of("2147483648"), None);
}

#[test]
fn var_pattern_names_the_variable() {
    assert_eq!(var_pattern_of("d"), r"[^/].*var d[ ]*=[ ]*'(.+)'");
}

#[test]
fn field_value_resolves_reference() {
    let text = "head\nvar sg = 'SIGN';\n";
    assert_eq!(field_value(text, "sg"), Ok("SIGN".to_string()));
    assert_eq!(field_value(text, "missing"), Err(ResolveError::PatternNotFound));
    assert_eq!(field_value(text, "'lit'"), Ok("lit".to_string()));
}

#[test]
fn parse_field_strips_key_quotes_and_splits_at_first_colon() {
    assert_eq!(
        parse_field("", " 'url' : 'http://x' "),
        Ok(("url".to_string(), "http://x".to_string()))
    );
    assert_eq!(parse_field("", "key"), Err(ResolveError::MalformedFragment));
}

#[test]
fn reconstructor_resolves_literals_numbers_and_references() {
    let text = "ab data : {a:'1', b:2, c:d}\nvar d = 'X';\n";
    let r = reconstruct_params(text).unwrap();
    assert_eq!(r, pairs(&[("a", "1"), ("b", "2"), ("c", "X")]));
}

#[test]
fn parse_fields_reports_malformed_piece() {
    assert_eq!(parse_fields("", "a:'1', b"), Err(ResolveError::MalformedFragment));
}

#[test]
fn parse_fields_reports_first_failure() {
    assert_eq!(parse_fields("", "a:zz, b"), Err(ResolveError::PatternNotFound));
}

#[test]
fn reconstructor_without_fragment_is_not_found() {
    assert_eq!(reconstruct_params("<html></html>"), Err(ResolveError::PatternNotFound));
}

#[test]
fn reconstruct_builds_form_body() {
    let text = "ab data : {a:'1', b:2, c:d}\nvar d = 'X';\n";
    assert_eq!(reconstruct(text), Ok("a=1&b=2&c=X".to_string()));
}

#[test]
fn form_body_encodes_in_order() {
    let p = pairs(&[("z", "1 2"), ("a&b", "x=y"), ("k", "\u{e9}/")]);
    assert_eq!(encode_params(&p), "z=1+2&a%26b=x%3Dy&k=%C3%A9%2F");
    assert_eq!(encode_params(&Vec::new()), "");
}

#[test]
fn form_body_round_trips_through_decoder() {
    let p = pairs(&[("sign", "a+b/c=="), ("t", "1 2&3"), ("a&b", "x=y"), ("empty", "")]);
    let body = encode_params(&p);
    let decoded: Vec<(String, String)> = url::form_urlencoded::parse(body.as_bytes())
        .map(|(k, v)| (k.into_owned(), v.into_owned()))
        .collect();
    assert_eq!(decoded, p);
}
