//! The bridge to the `regex` crate. Compiled patterns are opaque to the
//! verifier; what each operation returns is named as a function of the
//! pattern text and the haystack, both of which determine it completely.
use vstd::prelude::*;

use regex::Regex;

verus! {

#[verifier::external_type_specification]
#[verifier::external_body]
pub struct ExRegex(Regex);

#[verifier::external_type_specification]
#[verifier::external_body]
pub struct ExRegexError(regex::Error);

/// The pattern text a compiled regex holds, as `Regex::as_str` returns it:
/// the exact string the regex was compiled from.
pub uninterp spec fn regex_source(re: Regex) -> Seq<char>;

/// Whether `Regex::new` accepts `pat`. Compilation depends on the pattern
/// text alone.
pub uninterp spec fn re_valid(pat: Seq<char>) -> bool;

/// What `Regex::is_match` returns for a pattern and a haystack: whether the
/// pattern matches somewhere in the haystack.
pub uninterp spec fn re_is_match_of(pat: Seq<char>, hay: Seq<char>) -> bool;

/// The text of the leftmost match `Regex::find` returns for a pattern and a
/// haystack, if any.
pub uninterp spec fn re_find_of(pat: Seq<char>, hay: Seq<char>) -> Option<Seq<char>>;

/// What `Regex::captures` yields for a pattern and a haystack, looked at
/// through capture group 1: `None` when the pattern does not match;
/// `Some(None)` when it matches but group 1 did not participate (in
/// particular when the pattern has no capture group); `Some(Some(t))` when
/// group 1 captured the text `t`.
pub uninterp spec fn re_capture_of(pat: Seq<char>, hay: Seq<char>) -> Option<Option<Seq<char>>>;

/// What `Regex::replace_all` returns for a pattern, a haystack, and the
/// empty replacement string: the haystack with every match deleted.
pub uninterp spec fn re_replace_empty_of(pat: Seq<char>, hay: Seq<char>) -> Seq<char>;

/// Relies on `regex::Regex::new`: it accepts or rejects a pattern on its
/// text alone, and the compiled regex reports that same text through
/// `Regex::as_str`.
#[verifier::external_body]
pub(crate) fn regex_compile(pat: &str) -> (r: Result<Regex, regex::Error>)
    ensures
        r matches Ok(re) ==> regex_source(re) == pat@,
        (r is Ok) == re_valid(pat@),
{
    Regex::new(pat)
}

/// Relies on `regex::Regex::as_str`: returns the exact pattern text the
/// regex was compiled from.
#[verifier::external_body]
pub(crate) fn regex_as_str(re: &Regex) -> (r: &str)
    ensures
        r@ == regex_source(*re),
{
    re.as_str()
}

/// Relies on `regex::Regex::is_match`: deterministic in the pattern and the
/// haystack.
#[verifier::external_body]
pub(crate) fn regex_is_match(re: &Regex, hay: &str) -> (r: bool)
    ensures
        r == re_is_match_of(regex_source(*re), hay@),
{
    re.is_match(hay)
}

/// Relies on `regex::Regex::find`: the leftmost match, deterministic in the
/// pattern and the haystack; here only its text is kept.
#[verifier::external_body]
pub(crate) fn regex_find(re: &Regex, hay: &str) -> (r: Option<String>)
    ensures
        r matches Some(m) ==> re_find_of(regex_source(*re), hay@) == Some(m@),
        r is None ==> re_find_of(regex_source(*re), hay@) is None,
{
    re.find(hay).map(|m| m.as_str().to_owned())
}

/// Relies on `regex::Regex::captures`: the captures of the first match,
/// deterministic in the pattern and the haystack; here read through group 1.
#[verifier::external_body]
pub(crate) fn regex_capture_one(re: &Regex, hay: &str) -> (r: Option<Option<String>>)
    ensures
        r matches Some(g) ==> match g {
            Some(t) => re_capture_of(regex_source(*re), hay@) == Some(Some(t@)),
            None => re_capture_of(regex_source(*re), hay@) == Some(None::<Seq<char>>),
        },
        r is None ==> re_capture_of(regex_source(*re), hay@) is None,
{
    match re.captures(hay) {
        None => None,
        Some(c) => Some(c.get(1).map(|m| m.as_str().to_owned())),
    }
}

/// Relies on `regex::Regex::replace_all` with the empty replacement:
/// deterministic in the pattern and the haystack.
#[verifier::external_body]
pub(crate) fn regex_replace_empty(re: &Regex, hay: &str) -> (r: String)
    ensures
        r@ == re_replace_empty_of(regex_source(*re), hay@),
{
    re.replace_all(hay, "").into_owned()
}

} // verus!
