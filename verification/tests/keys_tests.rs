use urlrules::{is_allowed_domain_char, key_iter, keys_from_url};

#[test]
fn allowed_domain_chars() {
    assert!(is_allowed_domain_char('a'));
    assert!(is_allowed_domain_char('z'));
    assert!(is_allowed_domain_char('0'));
    assert!(is_allowed_domain_char('-'));
    assert!(!is_allowed_domain_char('A'));
    assert!(!is_allowed_domain_char('.'));
    assert!(!is_allowed_domain_char('/'));
}

#[test]
fn key_iter_takes_only_closed_valid_labels() {
    assert_eq!(key_iter("a.b.c", "."), vec!["a".to_string(), "b".to_string()]);
    assert_eq!(key_iter("www.amazon.co.uk/gp", "."), vec![
        "www".to_string(),
        "amazon".to_string(),
        "co".to_string()
    ]);
    assert_eq!(key_iter("a..b.", "."), vec!["a".to_string()]);
    assert_eq!(key_iter("a.B.c.", "."), vec!["a".to_string()]);
    assert_eq!(key_iter("", "."), Vec::<String>::new());
}

#[test]
fn key_iter_with_escaped_dot_delimiter() {
    assert_eq!(key_iter("a\\.b\\.c", "\\."), vec!["a".to_string(), "b".to_string()]);
    assert_eq!(key_iter("example\\.com/", "\\."), vec!["example".to_string()]);
}

#[test]
fn keys_from_url_strips_scheme_first() {
    assert_eq!(keys_from_url("https://www.example.com/path"), vec![
        "www".to_string(),
        "example".to_string()
    ]);
    assert_eq!(keys_from_url("http://a.b.c.d/"), vec![
        "a".to_string(),
        "b".to_string(),
        "c".to_string()
    ]);
    assert_eq!(keys_from_url("ftp://x.y.z/"), Vec::<String>::new());
    assert_eq!(keys_from_url("example.com/"), Vec::<String>::new());
}
