use url::Url;
use urlrules::{load, CleanError, Provider, ProviderSource};

fn strings(v: &[&str]) -> Vec<String> {
    v.iter().map(|s| s.to_string()).collect()
}

fn provider(
    url_pattern: &str,
    rules: &[&str],
    raw_rules: &[&str],
    referral_marketing: &[&str],
    exceptions: &[&str],
    redirections: &[&str],
) -> Provider {
    Provider::new(
        "test",
        url_pattern,
        &strings(rules),
        &strings(raw_rules),
        &strings(referral_marketing),
        &strings(exceptions),
        &strings(redirections),
    )
    .unwrap()
}

fn clean(p: &Provider, url: &str, strip_referral_marketing: bool) -> String {
    let u = Url::parse(url).unwrap();
    p.remove_fields_from_url(&u, strip_referral_marketing)
        .unwrap()
        .as_str()
        .to_string()
}

#[test]
fn strips_matching_query_keys_and_keeps_fragment() {
    let p = provider("^https?://example\\.com/", &["utm_.*"], &[], &[], &[], &[]);
    assert_eq!(
        clean(&p, "https://example.com/?a=1&utm_source=x&utm_id=y#frag", false),
        "https://example.com/?a=1#frag"
    );
}

#[test]
fn cleaning_is_idempotent() {
    let p = provider("^https?://example\\.com/", &["utm_.*"], &[], &[], &[], &[]);
    let once = clean(&p, "https://example.com/?a=1&utm_source=x&utm_id=y#frag", false);
    let twice = clean(&p, &once, false);
    assert_eq!(once, twice);
}

#[test]
fn redirection_resolves_and_short_circuits() {
    let p = provider(
        "^https?://out\\.example\\.com/",
        &["u"],
        &[],
        &[],
        &[],
        &["^https://out\\.example\\.com/go\\?u=(.+)$"],
    );
    assert_eq!(
        clean(&p, "https://out.example.com/go?u=https%3A%2F%2Freal.site%2F", false),
        "https://real.site/"
    );
}

#[test]
fn redirection_target_without_scheme_gets_one() {
    let p = provider(
        "^https?://out\\.example\\.com/",
        &[],
        &[],
        &[],
        &[],
        &["^https://out\\.example\\.com/go\\?u=(.+)$"],
    );
    assert_eq!(
        clean(&p, "https://out.example.com/go?u=real.site%2Fpage", false),
        "http://real.site/page"
    );
}

#[test]
fn surviving_pair_with_value_keeps_equals_sign() {
    let p = provider("^https?://example\\.com/", &["^id$"], &[], &[], &[], &[]);
    assert_eq!(
        clean(&p, "https://example.com/?id=&other=1", false),
        "https://example.com/?other=1"
    );
}

#[test]
fn lone_surviving_pair_with_empty_value_serializes_bare() {
    let p = provider("^https?://example\\.com/", &["^id$"], &[], &[], &[], &[]);
    assert_eq!(
        clean(&p, "https://example.com/?marker=", false),
        "https://example.com/?marker"
    );
}

#[test]
fn partial_match_never_removes() {
    let p = provider("^https?://example\\.com/", &["id"], &[], &[], &[], &[]);
    assert_eq!(
        clean(&p, "https://example.com/?utm_id=5&id=3", false),
        "https://example.com/?utm_id=5"
    );
}

#[test]
fn referral_marketing_only_stripped_on_opt_in() {
    let p = provider("^https?://example\\.com/", &[], &[], &["ref"], &[], &[]);
    assert_eq!(
        clean(&p, "https://example.com/?ref=abc&x=1", false),
        "https://example.com/?ref=abc&x=1"
    );
    assert_eq!(
        clean(&p, "https://example.com/?ref=abc&x=1", true),
        "https://example.com/?x=1"
    );
}

#[test]
fn exception_overrides_positive_match() {
    let p = provider(
        "^https?://example\\.com/",
        &[],
        &[],
        &[],
        &["^https?://example\\.com/keep"],
        &[],
    );
    assert!(p.match_url("https://example.com/other"));
    assert!(!p.match_url("https://example.com/keep/this"));
}

#[test]
fn javascript_void_is_never_matched() {
    let p = provider(".*", &[], &[], &[], &[], &[]);
    assert!(p.match_exception("javascript:void(0)"));
    assert!(!p.match_url("javascript:void(0)"));
}

#[test]
fn domain_key_requires_literal_domain_prefix() {
    let p = provider(
        "^https?://(?:[a-z0-9-]+\\.)*?example\\.com\\/",
        &[],
        &[],
        &[],
        &[],
        &[],
    );
    assert_eq!(p.get_key(), Some("example".to_string()));
    let q = provider("^https?://.*tracker", &[], &[], &[], &[], &[]);
    assert_eq!(q.get_key(), None);
}

#[test]
fn domain_key_absent_from_url_means_no_match() {
    let p = provider(
        "^https?://(?:[a-z0-9-]+\\.)*?example\\.com/",
        &[],
        &[],
        &[],
        &[],
        &[],
    );
    let key = p.get_key().unwrap();
    let labels = urlrules::keys_from_url("https://other.site/page");
    assert!(!labels.contains(&key));
    assert!(!p.match_url("https://other.site/page"));
}

#[test]
fn domain_key_unescapes_hyphen_and_slash() {
    let p = provider(
        "^https?://(?:[a-z0-9-]+\\.)*?my\\-site\\.com\\/",
        &[],
        &[],
        &[],
        &[],
        &[],
    );
    assert_eq!(p.get_key(), Some("my-site".to_string()));
}

#[test]
fn any_exception_in_the_list_overrides() {
    let p = provider(
        "^https?://example\\.com/",
        &[],
        &[],
        &[],
        &["/first", "/second"],
        &[],
    );
    assert!(!p.match_url("https://example.com/second/page"));
    assert!(p.match_url("https://example.com/third"));
}

#[test]
fn empty_rule_set_loads() {
    let rs = load(&vec![]).unwrap();
    assert_eq!(rs.providers().len(), 0);
}

#[test]
fn raw_rules_rewrite_in_declared_order() {
    let p = provider("^https?://z\\.net/", &[], &["ab", "c"], &[], &[], &[]);
    assert_eq!(clean(&p, "https://z.net/aabcc", false), "https://z.net/a");
}

#[test]
fn raw_rule_leaving_unparseable_text_is_invalid_url() {
    let p = provider("^https?://example\\.com/", &[], &["^https://example\\.com.*$"], &[], &[], &[]);
    let u = Url::parse("https://example.com/x").unwrap();
    assert_eq!(p.remove_fields_from_url(&u, false), Err(CleanError::InvalidUrl));
}

#[test]
fn redirection_without_capture_group_is_reported() {
    let p = provider(
        "^https?://out\\.example\\.com/",
        &[],
        &[],
        &[],
        &[],
        &["^https://out\\.example\\.com/go"],
    );
    let u = Url::parse("https://out.example.com/go?u=x").unwrap();
    assert_eq!(
        p.remove_fields_from_url(&u, false),
        Err(CleanError::RedirectionHasNoCapturingGroup {
            pattern: "^https://out\\.example\\.com/go".to_string()
        })
    );
}

#[test]
fn get_redirection_returns_first_capture() {
    let p = provider(
        "^https?://out\\.example\\.com/",
        &[],
        &[],
        &[],
        &[],
        &["^https://nomatch/(.+)$", "^https://out\\.example\\.com/go\\?u=(.+)$"],
    );
    assert_eq!(
        p.get_redirection("https://out.example.com/go?u=https%3A%2F%2Freal.site%2F"),
        Ok(Some("https%3A%2F%2Freal.site%2F".to_string()))
    );
    assert_eq!(p.get_redirection("https://elsewhere.example.com/"), Ok(None));
}

#[test]
fn undecodable_redirect_target_is_decode_error() {
    let p = provider(
        "^https?://out\\.example\\.com/",
        &[],
        &[],
        &[],
        &[],
        &["^https://out\\.example\\.com/go\\?u=(.+)$"],
    );
    let u = Url::parse("https://out.example.com/go?u=%FF").unwrap();
    assert_eq!(p.remove_fields_from_url(&u, false), Err(CleanError::DecodeError));
}

#[test]
fn bad_pattern_is_a_rule_load_error_naming_the_field() {
    let err = Provider::new(
        "prov",
        "^https?://example\\.com/",
        &strings(&["("]),
        &strings(&[]),
        &strings(&[]),
        &strings(&[]),
        &strings(&[]),
    )
    .unwrap_err();
    assert_eq!(
        err,
        CleanError::RuleLoadError {
            provider: "prov".to_string(),
            field: "rules".to_string(),
            pattern: "(".to_string()
        }
    );
    let err2 = Provider::new("prov", "(", &strings(&[]), &strings(&[]), &strings(&[]), &strings(&[]), &strings(&[]))
        .unwrap_err();
    assert_eq!(
        err2,
        CleanError::RuleLoadError {
            provider: "prov".to_string(),
            field: "urlPattern".to_string(),
            pattern: "(".to_string()
        }
    );
}

fn source(name: &str, url_pattern: &str, rules: &[&str]) -> ProviderSource {
    ProviderSource {
        name: name.to_string(),
        url_pattern: url_pattern.to_string(),
        rules: strings(rules),
        raw_rules: vec![],
        referral_marketing: vec![],
        exceptions: vec![],
        redirections: vec![],
    }
}

#[test]
fn load_preserves_source_order() {
    let sources = vec![
        source("first", "^https?://a\\.example\\.com/", &["x"]),
        source("second", "^https?://b\\.example\\.com/", &["y"]),
    ];
    let rs = load(&sources).unwrap();
    let providers = rs.providers();
    assert_eq!(providers.len(), 2);
    assert!(providers[0].match_url("https://a.example.com/"));
    assert!(!providers[0].match_url("https://b.example.com/"));
    assert!(providers[1].match_url("https://b.example.com/"));
}

#[test]
fn load_reports_the_offending_provider() {
    let sources = vec![
        source("good", "^https?://a\\.example\\.com/", &[]),
        source("bad", "^https?://b\\.example\\.com/", &["["]),
    ];
    let err = load(&sources).unwrap_err();
    assert_eq!(
        err,
        CleanError::RuleLoadError {
            provider: "bad".to_string(),
            field: "rules".to_string(),
            pattern: "[".to_string()
        }
    );
}

#[test]
fn get_rules_appends_referral_marketing_on_opt_in() {
    let p = provider("^https?://example\\.com/", &["a", "b"], &[], &["c"], &[], &[]);
    assert_eq!(p.get_rules(false).len(), 2);
    assert_eq!(p.get_rules(true).len(), 3);
}

#[test]
fn fragment_pairs_are_stripped_like_query_pairs() {
    let p = provider("^https?://example\\.com/", &["utm_.*"], &[], &[], &[], &[]);
    assert_eq!(
        clean(&p, "https://example.com/?a=1#utm_source=x&b=2", false),
        "https://example.com/?a=1#b=2"
    );
}
