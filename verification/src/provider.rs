//! Providers: a rule bundle that claims URLs by pattern and says how to
//! clean them, and the rule set that holds providers in source order.
use vstd::prelude::*;

use regex::Regex;
use url::Url;

use crate::errors::CleanError;
use crate::keys::{key_iter, spec_labels, strings_view};
use crate::regexes::{
    re_capture_of, re_is_match_of, re_valid, regex_as_str, regex_capture_one, regex_compile,
    regex_is_match, regex_replace_empty, regex_source, re_replace_empty_of,
};
use crate::strip::{
    add_scheme, decode_fails, is_full_match, reaches_fixpoint, repeatedly_urldecode,
    serialize_params, spec_full_match, spec_serialize_params, lemma_fixpoint_no_fail,
    lemma_fixpoint_unique,
};
use crate::text::{replace_all, spec_replace, spec_starts_with, starts_with_str};
use crate::urls::{
    form_parse, form_parse_pairs, pairs_view, url_as_str, url_fragment, url_fragment_of,
    url_parse, url_parse_of, url_query, url_query_of, url_set_fragment, url_set_query, url_str,
    url_with_fragment, url_with_query,
};

verus! {

/// The mathematical content of a provider: the six pattern lists, each as
/// the text its regexes were compiled from.
#[verifier::ext_equal]
pub ghost struct ProviderView {
    pub url_pattern: Seq<char>,
    pub rules: Seq<Seq<char>>,
    pub raw_rules: Seq<Seq<char>>,
    pub referral_marketing: Seq<Seq<char>>,
    pub exceptions: Seq<Seq<char>>,
    pub redirections: Seq<Seq<char>>,
}

/// The pattern texts of a vector of compiled regexes.
pub open spec fn regexes_view(v: Seq<Regex>) -> Seq<Seq<char>> {
    v.map_values(|re: Regex| regex_source(re))
}

/// The pattern texts of a vector of borrowed compiled regexes.
pub open spec fn regex_refs_view(v: Seq<&Regex>) -> Seq<Seq<char>> {
    v.map_values(|re: &Regex| regex_source(*re))
}

/// Every pattern in the list compiles.
pub open spec fn all_valid(pats: Seq<Seq<char>>) -> bool {
    forall|i: int| 0 <= i < pats.len() ==> re_valid(pats[i])
}

/// A named rule bundle: a URL pattern that claims URLs, and the pattern
/// lists that say how claimed URLs are cleaned. Immutable once built.
#[derive(Debug)]
pub struct Provider {
    url_pattern: Regex,
    rules: Vec<Regex>,
    raw_rules: Vec<Regex>,
    referral_marketing: Vec<Regex>,
    exceptions: Vec<Regex>,
    redirections: Vec<Regex>,
}

impl View for Provider {
    type V = ProviderView;

    closed spec fn view(&self) -> ProviderView {
        ProviderView {
            url_pattern: regex_source(self.url_pattern),
            rules: regexes_view(self.rules@),
            raw_rules: regexes_view(self.raw_rules@),
            referral_marketing: regexes_view(self.referral_marketing@),
            exceptions: regexes_view(self.exceptions@),
            redirections: regexes_view(self.redirections@),
        }
    }
}

/// Some exception pattern matches `url`, or `url` is the literal
/// `javascript:void(0)`, which no provider may claim.
pub open spec fn spec_match_exception(p: ProviderView, url: Seq<char>) -> bool {
    url == "javascript:void(0)"@ || exists|i: int|
        0 <= i < p.exceptions.len() && re_is_match_of(p.exceptions[i], url)
}

/// The provider claims `url`: its URL pattern matches and no exception
/// overrides the match.
pub open spec fn spec_match_url(p: ProviderView, url: Seq<char>) -> bool {
    re_is_match_of(p.url_pattern, url) && !spec_match_exception(p, url)
}

/// What scanning the redirection list yields for a URL.
pub ghost enum RedirOutcome {
    /// No redirection pattern matches.
    NoRedirect,
    /// The first matching pattern captured this redirect target.
    Target(Seq<char>),
    /// The first matching pattern has no capturing group; its text.
    MissingGroup(Seq<char>),
}

/// Scans `reds` from position `i` for the first pattern that matches `url`.
pub open spec fn redir_from(reds: Seq<Seq<char>>, url: Seq<char>, i: int) -> RedirOutcome
    decreases reds.len() - i,
{
    if i < 0 || i >= reds.len() {
        RedirOutcome::NoRedirect
    } else {
        match re_capture_of(reds[i], url) {
            None => redir_from(reds, url, i + 1),
            Some(None) => RedirOutcome::MissingGroup(reds[i]),
            Some(Some(t)) => RedirOutcome::Target(t),
        }
    }
}

/// What the redirection list as a whole yields for a URL: the first
/// matching pattern wins.
pub open spec fn spec_get_redirection(reds: Seq<Seq<char>>, url: Seq<char>) -> RedirOutcome {
    redir_from(reds, url, 0)
}

/// The removal patterns in force: `rules`, with `referral_marketing`
/// appended when the caller opted in.
pub open spec fn effective_rules(p: ProviderView, strip_referral_marketing: bool) -> Seq<Seq<char>> {
    if strip_referral_marketing {
        p.rules + p.referral_marketing
    } else {
        p.rules
    }
}

/// Some rule pattern matches the whole of `key`.
pub open spec fn key_removed(rules: Seq<Seq<char>>, key: Seq<char>) -> bool {
    exists|i: int| 0 <= i < rules.len() && spec_full_match(rules[i], key)
}

/// The pairs surviving removal: exactly those whose key no rule matches in
/// full, in their original order.
pub open spec fn filter_pairs(
    rules: Seq<Seq<char>>,
    pairs: Seq<(Seq<char>, Seq<char>)>,
) -> Seq<(Seq<char>, Seq<char>)>
    decreases pairs.len(),
{
    if pairs.len() == 0 {
        Seq::empty()
    } else {
        let rest = filter_pairs(rules, pairs.drop_first());
        if key_removed(rules, pairs[0].0) {
            rest
        } else {
            seq![pairs[0]] + rest
        }
    }
}

/// `u` rewritten by the raw rules from position `i` on, each pattern
/// deleting its matches from the output of the one before it.
pub open spec fn raw_from(raws: Seq<Seq<char>>, i: int, u: Seq<char>) -> Seq<char>
    decreases raws.len() - i,
{
    if i < 0 || i >= raws.len() {
        u
    } else {
        raw_from(raws, i + 1, re_replace_empty_of(raws[i], u))
    }
}

/// `u` rewritten by every raw rule, in declared order.
pub open spec fn spec_apply_raw_rules(raws: Seq<Seq<char>>, u: Seq<char>) -> Seq<char> {
    raw_from(raws, 0, u)
}

/// The serialization of the cleaned URL, given the serialization `t` the
/// raw-rewritten text parsed to: both the query pairs and the fragment
/// pairs lose every key that an effective rule matches in full, and the
/// survivors are written back in order.
pub open spec fn cleaned_url_text(
    p: ProviderView,
    t: Seq<char>,
    strip_referral_marketing: bool,
) -> Seq<char> {
    let rules = effective_rules(p, strip_referral_marketing);
    let q0 = match url_query_of(t) {
        Some(q) => form_parse(q),
        None => Seq::empty(),
    };
    let f0 = match url_fragment_of(t) {
        Some(f) => form_parse(f),
        None => Seq::empty(),
    };
    let q = spec_serialize_params(filter_pairs(rules, q0));
    let f = spec_serialize_params(filter_pairs(rules, f0));
    url_with_fragment(url_with_query(t, q), f)
}

/// Everything `remove_fields_from_url` promises about its result `r` for a
/// provider `p`, an input URL serialization `u`, and the referral-marketing
/// mode. A captured redirect target decides the outcome alone; otherwise
/// the raw-rewritten text must parse and its fields are stripped.
pub open spec fn remove_outcome(
    p: ProviderView,
    u: Seq<char>,
    strip_referral_marketing: bool,
    r: Result<Url, CleanError>,
) -> bool {
    match spec_get_redirection(p.redirections, u) {
        RedirOutcome::MissingGroup(pat) => (r matches Err(e)
            && e matches CleanError::RedirectionHasNoCapturingGroup { pattern }
            && pattern@ == pat),
        RedirOutcome::Target(t) => {
            &&& (decode_fails(t) ==> (r matches Err(e) && e is DecodeError))
            &&& (forall|d: Seq<char>|
                reaches_fixpoint(t, d) ==> match url_parse_of(add_scheme(d)) {
                    Some(out_text) => (r matches Ok(out) && url_str(out) == out_text),
                    None => (r matches Err(e) && e is InvalidUrl),
                })
        },
        RedirOutcome::NoRedirect => {
            let raw = spec_apply_raw_rules(p.raw_rules, u);
            match url_parse_of(raw) {
                None => (r matches Err(e) && e is InvalidUrl),
                Some(t) => (r matches Ok(out) && url_str(out) == cleaned_url_text(
                    p,
                    t,
                    strip_referral_marketing,
                )),
            }
        },
    }
}

/// The scheme-and-subdomain shape stripped off a URL pattern before its
/// domain key is read.
pub open spec fn spec_key_prefix() -> Seq<char> {
    "^https?://(?:[a-z0-9-]+\\.)*?"@
}

/// The domain key of a URL pattern: the pattern text with `\/` and `\-`
/// unescaped, the fixed scheme/subdomain prefix stripped, and the first
/// label of the remainder taken, splitting on the literal `\.`; `None`
/// when the pattern does not start that way.
pub open spec fn spec_domain_key(pat: Seq<char>) -> Option<Seq<char>> {
    let norm = spec_replace(spec_replace(pat, "\\/"@, "/"@), "\\-"@, "-"@);
    if spec_starts_with(norm, spec_key_prefix()) {
        let ls = spec_labels(norm.skip(spec_key_prefix().len() as int), "\\."@);
        if ls.len() > 0 {
            Some(ls[0])
        } else {
            None
        }
    } else {
        None
    }
}

/// Compiles one pattern list, reporting the provider, field and pattern
/// text of the first pattern that does not compile.
fn compile_list(patterns: &Vec<String>, provider_name: &str, field: &str) -> (r: Result<
    Vec<Regex>,
    CleanError,
>)
    ensures
        r matches Ok(v) ==> regexes_view(v@) == strings_view(patterns@),
        (r is Ok) == all_valid(strings_view(patterns@)),
        r matches Err(e) ==> (e matches CleanError::RuleLoadError { provider, field: f, pattern }
            && provider@ == provider_name@ && f@ == field@ && strings_view(patterns@).contains(
            pattern@,
        ) && !re_valid(pattern@)),
{
    let mut out: Vec<Regex> = Vec::new();
    let mut i: usize = 0;
    while i < patterns.len()
        invariant
            0 <= i <= patterns@.len(),
            out@.len() == i,
            forall|j: int| 0 <= j < i ==> regexes_view(out@)[j] == strings_view(patterns@)[j],
            forall|j: int| 0 <= j < i ==> re_valid(strings_view(patterns@)[j]),
        decreases patterns@.len() - i,
    {
        match regex_compile(patterns[i].as_str()) {
            Ok(re) => {
                out.push(re);
            },
            Err(_) => {
                proof {
                    assert(strings_view(patterns@)[i as int] == patterns@[i as int]@);
                }
                return Err(CleanError::RuleLoadError {
                    provider: provider_name.to_owned(),
                    field: field.to_owned(),
                    pattern: patterns[i].clone(),
                });
            },
        }
        i = i + 1;
    }
    proof {
        assert(regexes_view(out@) =~= strings_view(patterns@));
    }
    Ok(out)
}

impl Provider {
    /// Builds a provider from pattern text, compiling every pattern now:
    /// a pattern that does not compile is reported at once as a
    /// `RuleLoadError` naming the provider, the field, and the pattern.
    pub fn new(
        provider_name: &str,
        url_pattern: &str,
        rules: &Vec<String>,
        raw_rules: &Vec<String>,
        referral_marketing: &Vec<String>,
        exceptions: &Vec<String>,
        redirections: &Vec<String>,
    ) -> (r: Result<Provider, CleanError>)
        ensures
            r matches Ok(p) ==> p@ == (ProviderView {
                url_pattern: url_pattern@,
                rules: strings_view(rules@),
                raw_rules: strings_view(raw_rules@),
                referral_marketing: strings_view(referral_marketing@),
                exceptions: strings_view(exceptions@),
                redirections: strings_view(redirections@),
            }),
            (r is Ok) == (re_valid(url_pattern@) && all_valid(strings_view(rules@)) && all_valid(
                strings_view(raw_rules@),
            ) && all_valid(strings_view(referral_marketing@)) && all_valid(
                strings_view(exceptions@),
            ) && all_valid(strings_view(redirections@))),
            r matches Err(e) ==> (e matches CleanError::RuleLoadError {
                provider,
                field,
                pattern,
            } && provider@ == provider_name@ && !re_valid(pattern@) && ((field@ == "urlPattern"@
                && pattern@ == url_pattern@) || (field@ == "rules"@ && strings_view(
                rules@,
            ).contains(pattern@)) || (field@ == "rawRules"@ && strings_view(raw_rules@).contains(
                pattern@,
            )) || (field@ == "referralMarketing"@ && strings_view(referral_marketing@).contains(
                pattern@,
            )) || (field@ == "exceptions"@ && strings_view(exceptions@).contains(pattern@)) || (
            field@ == "redirections"@ && strings_view(redirections@).contains(pattern@)))),
    {
        let url_pattern_re = match regex_compile(url_pattern) {
            Ok(re) => re,
            Err(_) => {
                return Err(CleanError::RuleLoadError {
                    provider: provider_name.to_owned(),
                    field: String::from_str("urlPattern"),
                    pattern: url_pattern.to_owned(),
                });
            },
        };
        let rules_re = match compile_list(rules, provider_name, "rules") {
            Ok(v) => v,
            Err(e) => {
                return Err(e);
            },
        };
        let raw_rules_re = match compile_list(raw_rules, provider_name, "rawRules") {
            Ok(v) => v,
            Err(e) => {
                return Err(e);
            },
        };
        let referral_re = match compile_list(referral_marketing, provider_name, "referralMarketing") {
            Ok(v) => v,
            Err(e) => {
                return Err(e);
            },
        };
        let exceptions_re = match compile_list(exceptions, provider_name, "exceptions") {
            Ok(v) => v,
            Err(e) => {
                return Err(e);
            },
        };
        let redirections_re = match compile_list(redirections, provider_name, "redirections") {
            Ok(v) => v,
            Err(e) => {
                return Err(e);
            },
        };
        Ok(
            Provider {
                url_pattern: url_pattern_re,
                rules: rules_re,
                raw_rules: raw_rules_re,
                referral_marketing: referral_re,
                exceptions: exceptions_re,
                redirections: redirections_re,
            },
        )
    }

    /// True iff the URL pattern matches `url` and no exception overrides
    /// it. Exceptions always win over a positive match.
    pub fn match_url(&self, url: &str) -> (r: bool)
        ensures
            r == spec_match_url(self@, url@),
    {
        regex_is_match(&self.url_pattern, url) && !self.match_exception(url)
    }

    /// True iff `url` is the literal `javascript:void(0)` or some
    /// exception pattern matches it.
    pub fn match_exception(&self, url: &str) -> (r: bool)
        ensures
            r == spec_match_exception(self@, url@),
    {
        if crate::text::str_eq(url, "javascript:void(0)") {
            return true;
        }
        let mut i: usize = 0;
        while i < self.exceptions.len()
            invariant
                0 <= i <= self.exceptions@.len(),
                self@.exceptions.len() == self.exceptions@.len(),
                forall|j: int| 0 <= j < i ==> !re_is_match_of(self@.exceptions[j], url@),
                url@ != "javascript:void(0)"@,
            decreases self.exceptions@.len() - i,
        {
            if regex_is_match(&self.exceptions[i], url) {
                proof {
                    assert(re_is_match_of(self@.exceptions[i as int], url@));
                }
                return true;
            }
            i = i + 1;
        }
        false
    }

    /// The provider's domain key. When this returns `Some(k)`, the
    /// provider is meant never to match a URL whose label set lacks `k`;
    /// callers use it to skip the full pattern match. Derived from the
    /// pattern text alone.
    pub fn get_key(&self) -> (r: Option<String>)
        ensures
            r matches Some(k) ==> spec_domain_key(self@.url_pattern) == Some(k@),
            r is None ==> spec_domain_key(self@.url_pattern) is None,
    {
        proof {
            reveal_strlit("\\/");
            reveal_strlit("\\-");
        }
        let pat = regex_as_str(&self.url_pattern);
        let step1 = replace_all(pat, "\\/", "/");
        let norm = replace_all(step1.as_str(), "\\-", "-");
        let prefix = "^https?://(?:[a-z0-9-]+\\.)*?";
        if starts_with_str(norm.as_str(), prefix) {
            let pn: usize = prefix.unicode_len();
            let nn: usize = norm.as_str().unicode_len();
            let rest = norm.as_str().substring_char(pn, nn);
            proof {
                assert(rest@ =~= norm@.skip(spec_key_prefix().len() as int));
            }
            let labels = key_iter(rest, "\\.");
            if labels.len() > 0 {
                proof {
                    assert(strings_view(labels@)[0] == labels@[0]@);
                }
                Some(labels[0].clone())
            } else {
                None
            }
        } else {
            None
        }
    }

    /// Scans the redirection patterns in declared order; the first that
    /// matches `url` supplies the redirect target from its first capture
    /// group, and a matching pattern without a capture group is a fatal
    /// rule-authoring error.
    pub fn get_redirection(&self, url: &str) -> (r: Result<Option<String>, CleanError>)
        ensures
            r matches Ok(Some(t)) ==> spec_get_redirection(self@.redirections, url@)
                == RedirOutcome::Target(t@),
            r matches Ok(None) ==> spec_get_redirection(self@.redirections, url@)
                is NoRedirect,
            r matches Err(e) ==> (e matches CleanError::RedirectionHasNoCapturingGroup {
                pattern,
            } && spec_get_redirection(self@.redirections, url@) == RedirOutcome::MissingGroup(
                pattern@,
            )),
    {
        let mut i: usize = 0;
        while i < self.redirections.len()
            invariant
                0 <= i <= self.redirections@.len(),
                self@.redirections.len() == self.redirections@.len(),
                spec_get_redirection(self@.redirections, url@) == redir_from(
                    self@.redirections,
                    url@,
                    i as int,
                ),
            decreases self.redirections@.len() - i,
        {
            proof {
                assert(self@.redirections[i as int] == regex_source(self.redirections@[i as int]));
            }
            match regex_capture_one(&self.redirections[i], url) {
                None => {
                    i = i + 1;
                },
                Some(Some(t)) => {
                    return Ok(Some(t));
                },
                Some(None) => {
                    let pattern = regex_as_str(&self.redirections[i]).to_owned();
                    return Err(CleanError::RedirectionHasNoCapturingGroup { pattern });
                },
            }
        }
        Ok(None)
    }

    /// The removal patterns in force: `rules`, followed by
    /// `referral_marketing` when the caller opted in.
    pub fn get_rules(&self, strip_referral_marketing: bool) -> (r: Vec<&Regex>)
        ensures
            regex_refs_view(r@) == effective_rules(self@, strip_referral_marketing),
    {
        let mut out: Vec<&Regex> = Vec::new();
        let mut i: usize = 0;
        while i < self.rules.len()
            invariant
                0 <= i <= self.rules@.len(),
                out@.len() == i,
                forall|j: int| 0 <= j < i ==> regex_refs_view(out@)[j] == self@.rules[j],
            decreases self.rules@.len() - i,
        {
            out.push(&self.rules[i]);
            i = i + 1;
        }
        if strip_referral_marketing {
            let mut k: usize = 0;
            while k < self.referral_marketing.len()
                invariant
                    0 <= k <= self.referral_marketing@.len(),
                    out@.len() == self@.rules.len() + k,
                    forall|j: int| 0 <= j < self@.rules.len() ==> regex_refs_view(out@)[j]
                        == self@.rules[j],
                    forall|j: int| 0 <= j < k ==> regex_refs_view(out@)[self@.rules.len() + j]
                        == self@.referral_marketing[j],
                decreases self.referral_marketing@.len() - k,
            {
                out.push(&self.referral_marketing[k]);
                k = k + 1;
            }
            proof {
                assert(regex_refs_view(out@) =~= self@.rules + self@.referral_marketing);
            }
        } else {
            proof {
                assert(regex_refs_view(out@) =~= self@.rules);
            }
        }
        out
    }

    /// Cleans one URL under this provider's rules. A captured redirect
    /// target is fully percent-decoded, scheme-normalized, parsed and
    /// returned with no rule processing; otherwise the raw rules rewrite
    /// the URL text, the result is re-parsed, and every query and fragment
    /// pair whose key an effective rule matches in full is removed.
    pub fn remove_fields_from_url(&self, url: &Url, strip_referral_marketing: bool) -> (r: Result<
        Url,
        CleanError,
    >)
        ensures
            remove_outcome(self@, url_str(*url), strip_referral_marketing, r),
    {
        let url_text = url_as_str(url);
        match self.get_redirection(url_text) {
            Err(e) => {
                return Err(e);
            },
            Ok(Some(target)) => {
                let ghost t = target@;
                match repeatedly_urldecode(target.as_str()) {
                    Err(e) => {
                        proof {
                            assert forall|d: Seq<char>| reaches_fixpoint(t, d) implies false by {
                                lemma_fixpoint_no_fail(t, d);
                            }
                        }
                        return Err(e);
                    },
                    Ok(dec) => {
                        let ghost d0 = choose|d: Seq<char>|
                            reaches_fixpoint(t, d) && dec@ == add_scheme(d);
                        proof {
                            assert forall|d: Seq<char>| reaches_fixpoint(t, d) implies d == d0 by {
                                lemma_fixpoint_unique(t, d, d0);
                            }
                        }
                        match url_parse(dec.as_str()) {
                            Ok(out) => {
                                return Ok(out);
                            },
                            Err(_) => {
                                return Err(CleanError::InvalidUrl);
                            },
                        }
                    },
                }
            },
            Ok(None) => {},
        }
        let ghost u0 = url_str(*url);
        let ghost raws = self@.raw_rules;
        let mut text: String = url_text.to_owned();
        let mut i: usize = 0;
        while i < self.raw_rules.len()
            invariant
                0 <= i <= self.raw_rules@.len(),
                raws == self@.raw_rules,
                raws.len() == self.raw_rules@.len(),
                forall|j: int| 0 <= j < raws.len() ==> raws[j] == regex_source(
                    self.raw_rules@[j],
                ),
                spec_apply_raw_rules(raws, u0) == raw_from(raws, i as int, text@),
            decreases self.raw_rules@.len() - i,
        {
            let new_text = regex_replace_empty(&self.raw_rules[i], text.as_str());
            proof {
                assert(raw_from(raws, i as int, text@) == raw_from(raws, i + 1, new_text@));
            }
            text = new_text;
            i = i + 1;
        }
        let mut parsed = match url_parse(text.as_str()) {
            Ok(u) => u,
            Err(_) => {
                return Err(CleanError::InvalidUrl);
            },
        };
        let ghost t = url_str(parsed);
        let q_pairs: Vec<(String, String)> = match url_query(&parsed) {
            Some(q) => form_parse_pairs(q.as_str()),
            None => Vec::new(),
        };
        let f_pairs: Vec<(String, String)> = match url_fragment(&parsed) {
            Some(f) => form_parse_pairs(f.as_str()),
            None => Vec::new(),
        };
        proof {
            assert(pairs_view(Seq::<(String, String)>::empty()) =~= Seq::<
                (Seq<char>, Seq<char>),
            >::empty());
        }
        let rules = self.get_rules(strip_referral_marketing);
        let q_kept = retain_unmatched(&rules, q_pairs);
        let f_kept = retain_unmatched(&rules, f_pairs);
        let q_ser = serialize_params(&q_kept);
        let f_ser = serialize_params(&f_kept);
        match &q_ser {
            Some(qs) => url_set_query(&mut parsed, Some(qs.as_str())),
            None => url_set_query(&mut parsed, None),
        }
        match &f_ser {
            Some(fs) => url_set_fragment(&mut parsed, Some(fs.as_str())),
            None => url_set_fragment(&mut parsed, None),
        }
        Ok(parsed)
    }
}

/// Whether some rule in the list matches the whole of `key`.
fn rules_remove_key(rules: &Vec<&Regex>, key: &str) -> (r: bool)
    ensures
        r == key_removed(regex_refs_view(rules@), key@),
{
    let mut i: usize = 0;
    while i < rules.len()
        invariant
            0 <= i <= rules@.len(),
            forall|j: int| 0 <= j < i ==> !spec_full_match(regex_refs_view(rules@)[j], key@),
        decreases rules@.len() - i,
    {
        if is_full_match(rules[i], key) {
            proof {
                assert(spec_full_match(regex_refs_view(rules@)[i as int], key@));
            }
            return true;
        }
        i = i + 1;
    }
    false
}

/// Keeps exactly the pairs whose key no rule matches in full, in order.
fn retain_unmatched(rules: &Vec<&Regex>, pairs: Vec<(String, String)>) -> (r: Vec<
    (String, String),
>)
    ensures
        pairs_view(r@) == filter_pairs(regex_refs_view(rules@), pairs_view(pairs@)),
{
    let ghost rv = regex_refs_view(rules@);
    let ghost all = pairs_view(pairs@);
    let mut out: Vec<(String, String)> = Vec::new();
    let mut i: usize = 0;
    proof {
        assert(all.skip(0) =~= all);
        assert(pairs_view(out@) =~= Seq::<(Seq<char>, Seq<char>)>::empty());
        assert(pairs_view(out@) + filter_pairs(rv, all) =~= filter_pairs(rv, all));
    }
    while i < pairs.len()
        invariant
            0 <= i <= pairs@.len(),
            all == pairs_view(pairs@),
            rv == regex_refs_view(rules@),
            all.len() == pairs@.len(),
            filter_pairs(rv, all) == pairs_view(out@) + filter_pairs(rv, all.skip(i as int)),
        decreases pairs@.len() - i,
    {
        proof {
            assert(all.skip(i as int)[0] == all[i as int]);
            assert(all.skip(i as int).drop_first() =~= all.skip(i + 1));
            assert(all[i as int] == (pairs@[i as int].0@, pairs@[i as int].1@));
        }
        if !rules_remove_key(rules, pairs[i].0.as_str()) {
            let ghost prev = out@;
            out.push((pairs[i].0.clone(), pairs[i].1.clone()));
            proof {
                assert(pairs_view(out@) =~= pairs_view(prev) + seq![all[i as int]]);
                assert(pairs_view(prev) + (seq![all[i as int]] + filter_pairs(
                    rv,
                    all.skip(i + 1),
                )) =~= (pairs_view(prev) + seq![all[i as int]]) + filter_pairs(
                    rv,
                    all.skip(i + 1),
                ));
            }
        }
        i = i + 1;
    }
    proof {
        assert(all.skip(pairs@.len() as int) =~= Seq::<(Seq<char>, Seq<char>)>::empty());
        assert(pairs_view(out@) + filter_pairs(rv, all.skip(pairs@.len() as int)) =~= pairs_view(
            out@,
        ));
    }
    out
}

/// One provider as the rule source spells it: a name, the required URL
/// pattern, and the five optional pattern lists as raw text.
pub struct ProviderSource {
    pub name: String,
    pub url_pattern: String,
    pub rules: Vec<String>,
    pub raw_rules: Vec<String>,
    pub referral_marketing: Vec<String>,
    pub exceptions: Vec<String>,
    pub redirections: Vec<String>,
}

/// The provider a source entry describes.
pub open spec fn source_view(s: ProviderSource) -> ProviderView {
    ProviderView {
        url_pattern: s.url_pattern@,
        rules: strings_view(s.rules@),
        raw_rules: strings_view(s.raw_rules@),
        referral_marketing: strings_view(s.referral_marketing@),
        exceptions: strings_view(s.exceptions@),
        redirections: strings_view(s.redirections@),
    }
}

/// Every pattern of the source entry compiles.
pub open spec fn source_ok(s: ProviderSource) -> bool {
    &&& re_valid(s.url_pattern@)
    &&& all_valid(strings_view(s.rules@))
    &&& all_valid(strings_view(s.raw_rules@))
    &&& all_valid(strings_view(s.referral_marketing@))
    &&& all_valid(strings_view(s.exceptions@))
    &&& all_valid(strings_view(s.redirections@))
}

/// An ordered rule set: providers in source order, immutable once built.
#[derive(Debug)]
pub struct RuleSet {
    providers: Vec<Provider>,
}

impl View for RuleSet {
    type V = Seq<ProviderView>;

    closed spec fn view(&self) -> Seq<ProviderView> {
        self.providers@.map_values(|p: Provider| p@)
    }
}

impl RuleSet {
    /// The providers, in the order the source declared them.
    pub fn providers(&self) -> (r: &Vec<Provider>)
        ensures
            r@.map_values(|p: Provider| p@) == self@,
            r@.len() == self@.len(),
    {
        &self.providers
    }
}

/// Builds a rule set from source entries, preserving their order and
/// compiling every pattern now. The first pattern that does not compile is
/// reported as a `RuleLoadError` naming its provider, field and text.
pub fn load(sources: &Vec<ProviderSource>) -> (r: Result<RuleSet, CleanError>)
    ensures
        r matches Ok(rs) ==> rs@.len() == sources@.len() && forall|i: int|
            0 <= i < sources@.len() ==> rs@[i] == source_view(sources@[i]),
        (r is Ok) == (forall|i: int| 0 <= i < sources@.len() ==> source_ok(sources@[i])),
        r matches Err(e) ==> (e matches CleanError::RuleLoadError { provider, field, pattern }
            && !re_valid(pattern@) && exists|i: int|
            0 <= i < sources@.len() && sources@[i].name@ == provider@ && !source_ok(
                sources@[i],
            )),
{
    let mut providers: Vec<Provider> = Vec::new();
    let mut i: usize = 0;
    while i < sources.len()
        invariant
            0 <= i <= sources@.len(),
            providers@.len() == i,
            forall|j: int| 0 <= j < i ==> providers@.map_values(|p: Provider| p@)[j]
                == source_view(sources@[j]),
            forall|j: int| 0 <= j < i ==> source_ok(sources@[j]),
        decreases sources@.len() - i,
    {
        let s = &sources[i];
        match Provider::new(
            s.name.as_str(),
            s.url_pattern.as_str(),
            &s.rules,
            &s.raw_rules,
            &s.referral_marketing,
            &s.exceptions,
            &s.redirections,
        ) {
            Ok(p) => {
                providers.push(p);
            },
            Err(e) => {
                proof {
                    assert(!source_ok(sources@[i as int]));
                }
                return Err(e);
            },
        }
        i = i + 1;
    }
    let rs = RuleSet { providers };
    proof {
        assert(rs@.len() == sources@.len());
    }
    Ok(rs)
}

} // verus!
