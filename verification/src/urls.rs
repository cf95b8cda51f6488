//! The bridge to the `url` and `percent-encoding` crates. A `Url` value is
//! opaque to the verifier; it is fully determined by its serialization, so
//! every read and every edit is named as a function of that text.
use vstd::prelude::*;

use url::Url;

verus! {

#[verifier::external_type_specification]
#[verifier::external_body]
pub struct ExUrl(Url);

#[verifier::external_type_specification]
#[verifier::external_body]
pub struct ExParseError(url::ParseError);

#[verifier::external_type_specification]
#[verifier::external_body]
pub struct ExUtf8Error(core::str::Utf8Error);

/// The serialization of a parsed URL, as `Url::as_str` returns it. A `Url`
/// is fully determined by this text.
pub uninterp spec fn url_str(u: Url) -> Seq<char>;

/// What `Url::parse` makes of a string: the serialization of the parsed
/// URL, or `None` when the string is rejected. Deterministic in the input.
pub uninterp spec fn url_parse_of(s: Seq<char>) -> Option<Seq<char>>;

/// What `Url::query` returns for a URL with serialization `s`.
pub uninterp spec fn url_query_of(s: Seq<char>) -> Option<Seq<char>>;

/// What `Url::fragment` returns for a URL with serialization `s`.
pub uninterp spec fn url_fragment_of(s: Seq<char>) -> Option<Seq<char>>;

/// The serialization after `Url::set_query(q)` runs on a URL whose
/// serialization was `s`.
pub uninterp spec fn url_with_query(s: Seq<char>, q: Option<Seq<char>>) -> Seq<char>;

/// The serialization after `Url::set_fragment(f)` runs on a URL whose
/// serialization was `s`.
pub uninterp spec fn url_with_fragment(s: Seq<char>, f: Option<Seq<char>>) -> Seq<char>;

/// What `form_urlencoded::parse` yields on the bytes of `s`: the decoded
/// (key, value) pairs, duplicates allowed, order preserved.
pub uninterp spec fn form_parse(s: Seq<char>) -> Seq<(Seq<char>, Seq<char>)>;

/// What the `form_urlencoded` serializer produces for a sequence of pairs.
pub uninterp spec fn form_encode(pairs: Seq<(Seq<char>, Seq<char>)>) -> Seq<char>;

/// What percent-decoding `s` once and reading the bytes as UTF-8 yields:
/// `None` when the decoded bytes are not valid UTF-8.
pub uninterp spec fn pct_decode_of(s: Seq<char>) -> Option<Seq<char>>;

/// The views of a vector of string pairs.
pub open spec fn pairs_view(v: Seq<(String, String)>) -> Seq<(Seq<char>, Seq<char>)> {
    v.map_values(|p: (String, String)| (p.0@, p.1@))
}

/// The view of an optional string slice.
pub open spec fn opt_str_view(v: Option<&str>) -> Option<Seq<char>> {
    match v {
        Some(s) => Some(s@),
        None => None,
    }
}

/// Relies on `url::Url::parse`: deterministic in the input text; the parsed
/// URL serializes to a text determined by the input.
#[verifier::external_body]
pub(crate) fn url_parse(s: &str) -> (r: Result<Url, url::ParseError>)
    ensures
        r matches Ok(u) ==> url_parse_of(s@) == Some(url_str(u)),
        r is Err ==> url_parse_of(s@) is None,
{
    Url::parse(s)
}

/// Relies on `url::Url::as_str`: returns the URL's serialization.
#[verifier::external_body]
pub(crate) fn url_as_str(u: &Url) -> (r: &str)
    ensures
        r@ == url_str(*u),
{
    u.as_str()
}

/// Relies on `url::Url::query`: the query string, a function of the URL's
/// serialization.
#[verifier::external_body]
pub(crate) fn url_query(u: &Url) -> (r: Option<String>)
    ensures
        r matches Some(q) ==> url_query_of(url_str(*u)) == Some(q@),
        r is None ==> url_query_of(url_str(*u)) is None,
{
    u.query().map(|q| q.to_owned())
}

/// Relies on `url::Url::fragment`: the fragment, a function of the URL's
/// serialization.
#[verifier::external_body]
pub(crate) fn url_fragment(u: &Url) -> (r: Option<String>)
    ensures
        r matches Some(f) ==> url_fragment_of(url_str(*u)) == Some(f@),
        r is None ==> url_fragment_of(url_str(*u)) is None,
{
    u.fragment().map(|f| f.to_owned())
}

/// Relies on `url::Url::set_query`: rewrites the serialization as a
/// function of the old serialization and the new query.
#[verifier::external_body]
pub(crate) fn url_set_query(u: &mut Url, q: Option<&str>)
    ensures
        url_str(*final(u)) == url_with_query(url_str(*old(u)), opt_str_view(q)),
{
    u.set_query(q)
}

/// Relies on `url::Url::set_fragment`: rewrites the serialization as a
/// function of the old serialization and the new fragment.
#[verifier::external_body]
pub(crate) fn url_set_fragment(u: &mut Url, f: Option<&str>)
    ensures
        url_str(*final(u)) == url_with_fragment(url_str(*old(u)), opt_str_view(f)),
{
    u.set_fragment(f)
}

/// Relies on `url::form_urlencoded::parse`: decodes
/// `application/x-www-form-urlencoded` text into (key, value) pairs,
/// deterministically in the input.
#[verifier::external_body]
pub(crate) fn form_parse_pairs(s: &str) -> (r: Vec<(String, String)>)
    ensures
        pairs_view(r@) == form_parse(s@),
{
    url::form_urlencoded::parse(s.as_bytes()).into_owned().collect()
}

/// Relies on `url::form_urlencoded::Serializer`: encodes (key, value)
/// pairs, deterministically in the pairs.
#[verifier::external_body]
pub(crate) fn form_encode_pairs(pairs: &Vec<(String, String)>) -> (r: String)
    ensures
        r@ == form_encode(pairs_view(pairs@)),
{
    url::form_urlencoded::Serializer::new(String::new()).extend_pairs(pairs.iter()).finish()
}

/// Relies on `percent_encoding::percent_decode_str` and
/// `PercentDecode::decode_utf8`: decoding replaces each `%XX` escape (three
/// characters) by one byte and leaves everything else alone, so the decoded
/// text either is the input unchanged or has strictly fewer characters.
#[verifier::external_body]
pub(crate) fn percent_decode_utf8(s: &str) -> (r: Result<String, core::str::Utf8Error>)
    ensures
        r matches Ok(d) ==> pct_decode_of(s@) == Some(d@) && (d@ == s@ || d@.len() < s@.len()),
        r is Err ==> pct_decode_of(s@) is None,
{
    percent_encoding::percent_decode_str(s).decode_utf8().map(|c| c.into_owned())
}

} // verus!
