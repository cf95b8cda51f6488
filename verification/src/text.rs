//! Verified character-level string operations: substring search, prefix
//! tests, and non-overlapping replacement, the pieces the domain-key
//! derivation is built from.
use vstd::prelude::*;

verus! {

/// `needle` occurs in `hay` starting at character position `at`.
pub open spec fn occurs_at(hay: Seq<char>, needle: Seq<char>, at: int) -> bool {
    &&& 0 <= at
    &&& at + needle.len() <= hay.len()
    &&& hay.subrange(at, at + needle.len() as int) == needle
}

/// The first position `>= from` where `needle` occurs in `hay`, if any.
pub open spec fn first_occurrence_from(hay: Seq<char>, needle: Seq<char>, from: int) -> Option<int>
    decreases hay.len() - from + 1,
{
    if from + needle.len() > hay.len() {
        None
    } else if hay.subrange(from, from + needle.len() as int) == needle {
        Some(from)
    } else {
        first_occurrence_from(hay, needle, from + 1)
    }
}

pub proof fn lemma_first_occurrence_bounds(hay: Seq<char>, needle: Seq<char>, from: int)
    ensures
        first_occurrence_from(hay, needle, from) matches Some(at) ==> from <= at && at
            + needle.len() <= hay.len(),
    decreases hay.len() - from + 1,
{
    if from + needle.len() > hay.len() {
    } else if hay.subrange(from, from + needle.len() as int) == needle {
    } else {
        lemma_first_occurrence_bounds(hay, needle, from + 1);
    }
}

/// `s` begins with `prefix`.
pub open spec fn spec_starts_with(s: Seq<char>, prefix: Seq<char>) -> bool {
    s.len() >= prefix.len() && s.subrange(0, prefix.len() as int) == prefix
}

/// `s` with every non-overlapping occurrence of `pat` at position `>= pos`
/// replaced by `rep`, scanning left to right; positions before `pos` are
/// kept as they are. Replacement text is never rescanned.
pub open spec fn replace_from(s: Seq<char>, pat: Seq<char>, rep: Seq<char>, pos: int) -> Seq<char>
    decreases s.len() - pos,
    via replace_from_decreases
{
    if pat.len() == 0 {
        s.subrange(pos, s.len() as int)
    } else {
        match first_occurrence_from(s, pat, pos) {
            None => s.subrange(pos, s.len() as int),
            Some(at) => s.subrange(pos, at) + rep + replace_from(s, pat, rep, at + pat.len()),
        }
    }
}

#[via_fn]
proof fn replace_from_decreases(s: Seq<char>, pat: Seq<char>, rep: Seq<char>, pos: int) {
    lemma_first_occurrence_bounds(s, pat, pos);
}

/// `s` with every non-overlapping occurrence of `pat` replaced by `rep`.
pub open spec fn spec_replace(s: Seq<char>, pat: Seq<char>, rep: Seq<char>) -> Seq<char> {
    replace_from(s, pat, rep, 0)
}

/// Character-for-character equality of two string slices.
pub fn str_eq(a: &str, b: &str) -> (r: bool)
    ensures
        r == (a@ == b@),
{
    let an: usize = a.unicode_len();
    let bn: usize = b.unicode_len();
    if an != bn {
        assert(a@ != b@);
        return false;
    }
    let mut i: usize = 0;
    while i < an
        invariant
            an == a@.len(),
            an == b@.len(),
            0 <= i <= an,
            forall|j: int| 0 <= j < i ==> a@[j] == b@[j],
        decreases an - i,
    {
        if a.get_char(i) != b.get_char(i) {
            return false;
        }
        i = i + 1;
    }
    proof {
        assert(a@ =~= b@);
    }
    true
}

/// Whether `needle` stands in `hay` at position `at`.
pub(crate) fn matches_at(hay: &str, needle: &str, at: usize) -> (r: bool)
    requires
        at + needle@.len() <= hay@.len(),
    ensures
        r == occurs_at(hay@, needle@, at as int),
{
    let n: usize = needle.unicode_len();
    let hn: usize = hay.unicode_len();
    let mut i: usize = 0;
    while i < n
        invariant
            n == needle@.len(),
            hn == hay@.len(),
            at + n <= hn,
            0 <= i <= n,
            forall|j: int| 0 <= j < i ==> hay@[at + j] == needle@[j],
        decreases n - i,
    {
        if hay.get_char(at + i) != needle.get_char(i) {
            assert(hay@.subrange(at as int, at + n) != needle@) by {
                assert(hay@.subrange(at as int, at + n)[i as int] != needle@[i as int]);
            }
            return false;
        }
        i = i + 1;
    }
    proof {
        assert(hay@.subrange(at as int, at + n) =~= needle@);
    }
    true
}

/// The first position `>= from` where `needle` occurs in `hay`, if any.
pub(crate) fn find_from(hay: &str, needle: &str, from: usize) -> (r: Option<usize>)
    requires
        from <= hay@.len(),
    ensures
        match r {
            Some(at) => first_occurrence_from(hay@, needle@, from as int) == Some(at as int),
            None => first_occurrence_from(hay@, needle@, from as int) is None,
        },
{
    let hn: usize = hay.unicode_len();
    let nn: usize = needle.unicode_len();
    if nn == 0 {
        proof {
            assert(hay@.subrange(from as int, from as int) =~= needle@);
        }
        return Some(from);
    }
    let mut i: usize = from;
    loop
        invariant
            hn == hay@.len(),
            nn == needle@.len(),
            nn >= 1,
            from <= i <= hn,
            first_occurrence_from(hay@, needle@, from as int) == first_occurrence_from(
                hay@,
                needle@,
                i as int,
            ),
        decreases hn - i,
    {
        if nn > hn - i {
            return None;
        }
        if matches_at(hay, needle, i) {
            return Some(i);
        }
        i = i + 1;
    }
}

/// `s` begins with `prefix`.
pub fn starts_with_str(s: &str, prefix: &str) -> (r: bool)
    ensures
        r == spec_starts_with(s@, prefix@),
{
    let sn: usize = s.unicode_len();
    let pn: usize = prefix.unicode_len();
    if pn > sn {
        return false;
    }
    matches_at(s, prefix, 0)
}

/// `s` with every non-overlapping occurrence of `pat` replaced by `rep`,
/// scanning left to right.
pub(crate) fn replace_all(s: &str, pat: &str, rep: &str) -> (r: String)
    requires
        pat@.len() >= 1,
    ensures
        r@ == spec_replace(s@, pat@, rep@),
{
    let sn: usize = s.unicode_len();
    let mut out = String::new();
    let mut pos: usize = 0;
    loop
        invariant
            pat@.len() >= 1,
            sn == s@.len(),
            0 <= pos <= sn,
            spec_replace(s@, pat@, rep@) == out@ + replace_from(s@, pat@, rep@, pos as int),
        decreases sn - pos,
    {
        match find_from(s, pat, pos) {
            None => {
                let tail = s.substring_char(pos, sn);
                out.append(tail);
                proof {
                    assert(replace_from(s@, pat@, rep@, pos as int) == s@.subrange(
                        pos as int,
                        sn as int,
                    ));
                }
                return out;
            },
            Some(at) => {
                proof {
                    lemma_first_occurrence_bounds(s@, pat@, pos as int);
                }
                let piece = s.substring_char(pos, at);
                out.append(piece);
                out.append(rep);
                pos = at + pat.unicode_len();
            },
        }
    }
}

} // verus!
