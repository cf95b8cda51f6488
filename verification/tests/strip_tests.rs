use regex::Regex;
use urlrules::{is_full_match, repeatedly_urldecode, serialize_params, CleanError};

fn pairs(v: &[(&str, &str)]) -> Vec<(String, String)> {
    v.iter().map(|(k, val)| (k.to_string(), val.to_string())).collect()
}

#[test]
fn full_match_spans_the_entire_key() {
    let id = Regex::new("id").unwrap();
    assert!(!is_full_match(&id, "utm_id"));
    assert!(is_full_match(&id, "id"));
    let utm = Regex::new("utm_.*").unwrap();
    assert!(is_full_match(&utm, "utm_source"));
    assert!(!is_full_match(&utm, "xutm_source"));
    let anchored = Regex::new("^id$").unwrap();
    assert!(is_full_match(&anchored, "id"));
    assert!(!is_full_match(&anchored, "idx"));
}

#[test]
fn serialize_params_edge_cases() {
    assert_eq!(serialize_params(&pairs(&[])), None);
    assert_eq!(serialize_params(&pairs(&[("marker", "")])), Some("marker".to_string()));
    assert_eq!(serialize_params(&pairs(&[("k", "v")])), Some("k=v".to_string()));
    assert_eq!(
        serialize_params(&pairs(&[("a", ""), ("b", "")])),
        Some("a=&b=".to_string())
    );
    assert_eq!(serialize_params(&pairs(&[("", "")])), None);
    assert_eq!(
        serialize_params(&pairs(&[("a b", "c&d")])),
        Some("a+b=c%26d".to_string())
    );
}

#[test]
fn urldecode_reaches_a_fixed_point() {
    assert_eq!(
        repeatedly_urldecode("https%3A%2F%2Fx.com"),
        Ok("https://x.com".to_string())
    );
    assert_eq!(
        repeatedly_urldecode("example.com/%2541"),
        Ok("http://example.com/A".to_string())
    );
    assert_eq!(
        repeatedly_urldecode("https://x.com/plain"),
        Ok("https://x.com/plain".to_string())
    );
    assert_eq!(
        repeatedly_urldecode("no-scheme.example/x"),
        Ok("http://no-scheme.example/x".to_string())
    );
}

#[test]
fn urldecode_rejects_invalid_utf8() {
    assert_eq!(repeatedly_urldecode("%FF"), Err(CleanError::DecodeError));
    assert_eq!(repeatedly_urldecode("a%2580"), Err(CleanError::DecodeError));
}
