//! Domain keys: a cheap literal label derived from a provider's URL pattern,
//! and the label sequence of a URL, used to skip providers that cannot match.
use vstd::prelude::*;

use crate::text::{
    find_from, first_occurrence_from, lemma_first_occurrence_bounds, starts_with_str,
    spec_starts_with,
};

verus! {

/// True for the characters that may appear in a domain-name label:
/// lowercase ascii letters, ascii digits, and `-`.
pub open spec fn spec_allowed_domain_char(c: char) -> bool {
    ('a' <= c && c <= 'z') || ('0' <= c && c <= '9') || c == '-'
}

/// True for the characters that may appear in a domain-name label:
/// lowercase ascii letters, ascii digits, and `-`.
pub fn is_allowed_domain_char(c: char) -> (r: bool)
    ensures
        r == spec_allowed_domain_char(c),
{
    (c >= 'a' && c <= 'z') || (c >= '0' && c <= '9') || c == '-'
}

/// A non-empty run of allowed domain characters.
pub open spec fn valid_label(l: Seq<char>) -> bool {
    l.len() > 0 && forall|i: int| 0 <= i < l.len() ==> spec_allowed_domain_char(l[i])
}

/// The labels of `s` from position `pos` on: maximal runs before each
/// occurrence of `delim`, taken while each is a non-empty run of allowed
/// characters. A final run not closed by `delim` never counts, and the
/// first empty or otherwise invalid label ends the sequence.
pub open spec fn labels_from(s: Seq<char>, delim: Seq<char>, pos: int) -> Seq<Seq<char>>
    decreases s.len() - pos,
    via labels_from_decreases
{
    if delim.len() == 0 {
        Seq::empty()
    } else {
        match first_occurrence_from(s, delim, pos) {
            None => Seq::empty(),
            Some(at) => {
                let label = s.subrange(pos, at);
                if valid_label(label) {
                    seq![label] + labels_from(s, delim, at + delim.len())
                } else {
                    Seq::empty()
                }
            },
        }
    }
}

#[via_fn]
proof fn labels_from_decreases(s: Seq<char>, delim: Seq<char>, pos: int) {
    lemma_first_occurrence_bounds(s, delim, pos);
}

/// The label sequence of `s`, split on `delim`.
pub open spec fn spec_labels(s: Seq<char>, delim: Seq<char>) -> Seq<Seq<char>> {
    labels_from(s, delim, 0)
}

/// The views of a vector of strings.
pub open spec fn strings_view(v: Seq<String>) -> Seq<Seq<char>> {
    v.map_values(|x: String| x@)
}

/// Splits `s` on `delimiter` and yields the leading labels: each piece must
/// be closed by a `delimiter` occurrence, and collection stops at the first
/// piece that is empty or holds a character not allowed in a domain label.
pub fn key_iter(s: &str, delimiter: &str) -> (r: Vec<String>)
    ensures
        strings_view(r@) == spec_labels(s@, delimiter@),
{
    let mut out: Vec<String> = Vec::new();
    if delimiter.unicode_len() == 0 {
        proof {
            assert(strings_view(out@) =~= spec_labels(s@, delimiter@));
        }
        return out;
    }
    let sn: usize = s.unicode_len();
    let dn: usize = delimiter.unicode_len();
    let mut pos: usize = 0;
    loop
        invariant
            sn == s@.len(),
            dn == delimiter@.len(),
            dn >= 1,
            0 <= pos <= sn,
            spec_labels(s@, delimiter@) == strings_view(out@) + labels_from(
                s@,
                delimiter@,
                pos as int,
            ),
        decreases sn - pos,
    {
        match find_from(s, delimiter, pos) {
            None => {
                proof {
                    assert(strings_view(out@) + labels_from(s@, delimiter@, pos as int)
                        =~= strings_view(out@));
                }
                return out;
            },
            Some(at) => {
                proof {
                    lemma_first_occurrence_bounds(s@, delimiter@, pos as int);
                }
                let label = s.substring_char(pos, at);
                if is_valid_label(label) {
                    let ghost prev = out@;
                    out.push(label.to_owned());
                    proof {
                        assert(strings_view(out@) =~= strings_view(prev) + seq![label@]);
                        assert(strings_view(prev) + (seq![label@] + labels_from(
                            s@,
                            delimiter@,
                            at + dn,
                        )) =~= (strings_view(prev) + seq![label@]) + labels_from(
                            s@,
                            delimiter@,
                            at + dn,
                        ));
                    }
                    pos = at + dn;
                } else {
                    proof {
                        assert(strings_view(out@) + labels_from(s@, delimiter@, pos as int)
                            =~= strings_view(out@));
                    }
                    return out;
                }
            },
        }
    }
}

/// Whether `l` is a non-empty run of allowed domain characters.
fn is_valid_label(l: &str) -> (r: bool)
    ensures
        r == valid_label(l@),
{
    let n: usize = l.unicode_len();
    if n == 0 {
        return false;
    }
    let mut i: usize = 0;
    while i < n
        invariant
            n == l@.len(),
            0 <= i <= n,
            forall|j: int| 0 <= j < i ==> spec_allowed_domain_char(l@[j]),
        decreases n - i,
    {
        if !is_allowed_domain_char(l.get_char(i)) {
            return false;
        }
        i = i + 1;
    }
    true
}

/// The label sequence a URL offers for domain-key filtering: the text after
/// a leading `http://` or `https://`, split on `.` as `key_iter` does it.
/// A URL with neither prefix offers no labels.
pub open spec fn spec_keys_from_url(url: Seq<char>) -> Seq<Seq<char>> {
    if spec_starts_with(url, "https://"@) {
        spec_labels(url.skip(8), "."@)
    } else if spec_starts_with(url, "http://"@) {
        spec_labels(url.skip(7), "."@)
    } else {
        Seq::empty()
    }
}

/// The domain labels of `url`, for intersection with providers' domain keys.
pub fn keys_from_url(url: &str) -> (r: Vec<String>)
    ensures
        strings_view(r@) == spec_keys_from_url(url@),
{
    proof {
        reveal_strlit("https://");
        reveal_strlit("http://");
    }
    if starts_with_str(url, "https://") {
        let sn: usize = url.unicode_len();
        let rest = url.substring_char(8, sn);
        proof {
            assert(rest@ =~= url@.skip(8));
        }
        key_iter(rest, ".")
    } else if starts_with_str(url, "http://") {
        let sn: usize = url.unicode_len();
        let rest = url.substring_char(7, sn);
        proof {
            assert(rest@ =~= url@.skip(7));
        }
        key_iter(rest, ".")
    } else {
        let out: Vec<String> = Vec::new();
        proof {
            assert(strings_view(out@) =~= Seq::<Seq<char>>::empty());
        }
        out
    }
}

} // verus!
