//! Field stripping helpers: full-match testing of keys, re-serialization of
//! surviving pairs, and fixed-point percent-decoding of redirect targets.
use vstd::prelude::*;

use regex::Regex;

use crate::errors::CleanError;
use crate::regexes::{re_find_of, regex_find, regex_source};
use crate::urls::{form_encode, form_encode_pairs, pairs_view, pct_decode_of, percent_decode_utf8};

verus! {

/// `pat` matches the whole of `key`, not merely a part of it: the leftmost
/// match spans the entire key.
pub open spec fn spec_full_match(pat: Seq<char>, key: Seq<char>) -> bool {
    re_find_of(pat, key) == Some(key)
}

/// Whether the leftmost match of `regex` spans all of `haystack`. A match
/// of anything less, or no match at all, does not count.
pub fn is_full_match(regex: &Regex, haystack: &str) -> (r: bool)
    ensures
        r == spec_full_match(regex_source(*regex), haystack@),
{
    match regex_find(regex, haystack) {
        None => false,
        Some(m) => {
            let eq = crate::text::str_eq(m.as_str(), haystack);
            proof {
                if eq {
                    assert(re_find_of(regex_source(*regex), haystack@) == Some(haystack@));
                }
            }
            eq
        },
    }
}

/// How a surviving pair sequence is written back into a query or fragment:
/// nothing when it is empty, the bare key when a single pair with an empty
/// value survives, the form-encoded text otherwise; an empty text is
/// treated as absent.
pub open spec fn spec_serialize_params(pairs: Seq<(Seq<char>, Seq<char>)>) -> Option<Seq<char>> {
    let raw = if pairs.len() == 0 {
        Seq::<char>::empty()
    } else if pairs.len() == 1 && pairs[0].1.len() == 0 {
        pairs[0].0
    } else {
        form_encode(pairs)
    };
    if raw.len() == 0 {
        None
    } else {
        Some(raw)
    }
}

/// Serializes surviving (key, value) pairs: `None` for an empty sequence, a
/// bare key for a single pair with an empty value, form-encoded text
/// otherwise.
pub fn serialize_params(params: &Vec<(String, String)>) -> (r: Option<String>)
    ensures
        r matches Some(s) ==> spec_serialize_params(pairs_view(params@)) == Some(s@),
        r is None ==> spec_serialize_params(pairs_view(params@)) is None,
{
    let ret: String = if params.len() == 0 {
        String::new()
    } else if params.len() == 1 && params[0].1.as_str().unicode_len() == 0 {
        params[0].0.clone()
    } else {
        form_encode_pairs(params)
    };
    proof {
        assert(pairs_view(params@).len() == params@.len());
        if params@.len() >= 1 {
            assert(pairs_view(params@)[0] == (params@[0].0@, params@[0].1@));
        }
    }
    if ret.as_str().unicode_len() == 0 {
        None
    } else {
        Some(ret)
    }
}

/// `s` percent-decoded `n` times, each pass also checking the bytes are
/// valid UTF-8; `None` once any pass fails.
pub open spec fn decode_chain(s: Seq<char>, n: nat) -> Option<Seq<char>>
    decreases n,
{
    if n == 0 {
        Some(s)
    } else {
        match decode_chain(s, (n - 1) as nat) {
            None => None,
            Some(prev) => pct_decode_of(prev),
        }
    }
}

/// Repeated decoding of `s` reaches the fixed point `d`.
pub open spec fn reaches_fixpoint(s: Seq<char>, d: Seq<char>) -> bool {
    exists|n: nat| decode_chain(s, n) == Some(d) && pct_decode_of(d) == Some(d)
}

/// Some decoding pass of `s` yields bytes that are not valid UTF-8.
pub open spec fn decode_fails(s: Seq<char>) -> bool {
    exists|n: nat| decode_chain(s, n) is None
}

/// `s` begins with the four characters `http`.
pub open spec fn spec_starts_with_http(s: Seq<char>) -> bool {
    crate::text::spec_starts_with(s, "http"@)
}

/// A decoded redirect target, reconstructed into an absolute URL: left
/// alone when it already starts with `http`, given an `http://` scheme
/// otherwise.
pub open spec fn add_scheme(s: Seq<char>) -> Seq<char> {
    if spec_starts_with_http(s) {
        s
    } else {
        "http://"@ + s
    }
}

/// Once a decoding pass fails, every longer chain fails too.
pub proof fn lemma_chain_none_persists(s: Seq<char>, m: nat, k: nat)
    requires
        decode_chain(s, m) is None,
        m <= k,
    ensures
        decode_chain(s, k) is None,
    decreases k,
{
    if k > m {
        lemma_chain_none_persists(s, m, (k - 1) as nat);
    }
}

/// Once a chain reaches a fixed point, every longer chain stays there.
pub proof fn lemma_chain_fixpoint_stable(s: Seq<char>, d: Seq<char>, n: nat, m: nat)
    requires
        decode_chain(s, n) == Some(d),
        pct_decode_of(d) == Some(d),
        n <= m,
    ensures
        decode_chain(s, m) == Some(d),
    decreases m,
{
    if m > n {
        lemma_chain_fixpoint_stable(s, d, n, (m - 1) as nat);
    }
}

/// Repeated decoding has at most one fixed point, and a chain that reaches
/// one never fails.
pub proof fn lemma_fixpoint_unique(s: Seq<char>, d1: Seq<char>, d2: Seq<char>)
    requires
        reaches_fixpoint(s, d1),
        reaches_fixpoint(s, d2),
    ensures
        d1 == d2,
{
    let n1 = choose|n: nat| decode_chain(s, n) == Some(d1) && pct_decode_of(d1) == Some(d1);
    let n2 = choose|n: nat| decode_chain(s, n) == Some(d2) && pct_decode_of(d2) == Some(d2);
    if n1 <= n2 {
        lemma_chain_fixpoint_stable(s, d1, n1, n2);
    } else {
        lemma_chain_fixpoint_stable(s, d2, n2, n1);
    }
}

/// A chain that reaches a fixed point never fails.
pub proof fn lemma_fixpoint_no_fail(s: Seq<char>, d: Seq<char>)
    requires
        reaches_fixpoint(s, d),
    ensures
        !decode_fails(s),
{
    let n = choose|n: nat| decode_chain(s, n) == Some(d) && pct_decode_of(d) == Some(d);
    assert forall|k: nat| !(decode_chain(s, k) is None) by {
        if k <= n {
            if decode_chain(s, k) is None {
                lemma_chain_none_persists(s, k, n);
            }
        } else {
            lemma_chain_fixpoint_stable(s, d, n, k);
        }
    }
}

/// Percent-decodes `s` until a pass changes nothing, then reconstructs an
/// absolute URL: the fixed point is returned as it stands when it already
/// starts with `http`, and prefixed with `http://` otherwise. A pass whose
/// bytes are not valid UTF-8 is a `DecodeError`.
pub fn repeatedly_urldecode(s: &str) -> (r: Result<String, CleanError>)
    ensures
        r matches Ok(out) ==> exists|d: Seq<char>|
            reaches_fixpoint(s@, d) && out@ == add_scheme(d),
        r matches Ok(out) ==> !decode_fails(s@),
        r matches Err(e) ==> e is DecodeError && decode_fails(s@),
{
    let mut before: String = s.to_owned();
    let ghost mut n: nat = 0;
    loop
        invariant
            decode_chain(s@, n) == Some(before@),
        decreases before@.len(),
    {
        match percent_decode_utf8(before.as_str()) {
            Err(_) => {
                proof {
                    assert(decode_chain(s@, n + 1) is None);
                }
                return Err(CleanError::DecodeError);
            },
            Ok(after) => {
                if crate::text::str_eq(after.as_str(), before.as_str()) {
                    proof {
                        assert(pct_decode_of(before@) == Some(before@));
                        assert(reaches_fixpoint(s@, before@));
                        lemma_fixpoint_no_fail(s@, before@);
                    }
                    if crate::text::starts_with_str(before.as_str(), "http") {
                        let ghost d = before@;
                        assert(before@ == add_scheme(d));
                        return Ok(before);
                    } else {
                        let mut out: String = String::from_str("http://");
                        out.append(before.as_str());
                        proof {
                            assert(out@ == add_scheme(before@));
                        }
                        return Ok(out);
                    }
                } else {
                    proof {
                        assert(decode_chain(s@, n + 1) == Some(after@));
                        assert(after@.len() < before@.len());
                    }
                    before = after;
                    proof {
                        n = n + 1;
                    }
                }
            },
        }
    }
}

} // verus!
