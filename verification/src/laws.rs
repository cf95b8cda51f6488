//! The laws the engine obeys, stated over the same spec functions its
//! contracts use and proved from them.
use vstd::prelude::*;

use url::Url;

use crate::errors::CleanError;
use crate::provider::{
    effective_rules, filter_pairs, key_removed, remove_outcome, spec_get_redirection,
    spec_match_exception, spec_match_url, ProviderView, RedirOutcome,
};
use crate::regexes::re_is_match_of;
use crate::strip::spec_full_match;

verus! {

/// Exception override: whenever some exception pattern matches a URL, the
/// provider does not claim it, even though its URL pattern matches.
pub proof fn lemma_exception_override(p: ProviderView, url: Seq<char>, i: int)
    requires
        re_is_match_of(p.url_pattern, url),
        0 <= i < p.exceptions.len(),
        re_is_match_of(p.exceptions[i], url),
    ensures
        !spec_match_url(p, url),
{
    assert(spec_match_exception(p, url));
}

/// Full-match-only removal: a pair whose key no effective rule matches in
/// its entirety survives field stripping; partial matches never remove.
pub proof fn lemma_full_match_only(
    rules: Seq<Seq<char>>,
    pairs: Seq<(Seq<char>, Seq<char>)>,
    i: int,
)
    requires
        0 <= i < pairs.len(),
        forall|j: int| 0 <= j < rules.len() ==> !spec_full_match(rules[j], pairs[i].0),
    ensures
        filter_pairs(rules, pairs).contains(pairs[i]),
    decreases pairs.len(),
{
    assert(!key_removed(rules, pairs[i].0));
    if i == 0 {
        assert(filter_pairs(rules, pairs) == seq![pairs[0]] + filter_pairs(
            rules,
            pairs.drop_first(),
        ));
        assert(filter_pairs(rules, pairs)[0] == pairs[0]);
    } else {
        assert(pairs.drop_first()[i - 1] == pairs[i]);
        lemma_full_match_only(rules, pairs.drop_first(), i - 1);
        let rest = filter_pairs(rules, pairs.drop_first());
        let k = choose|k: int| 0 <= k < rest.len() && rest[k] == pairs[i];
        if key_removed(rules, pairs[0].0) {
            assert(filter_pairs(rules, pairs)[k] == pairs[i]);
        } else {
            assert(filter_pairs(rules, pairs)[k + 1] == pairs[i]);
        }
    }
}

/// Every pair the stripping keeps comes from the input, and its key is
/// matched in full by no rule.
pub proof fn lemma_filter_pairs_sound(rules: Seq<Seq<char>>, pairs: Seq<(Seq<char>, Seq<char>)>)
    ensures
        forall|k: int| 0 <= k < filter_pairs(rules, pairs).len() ==> pairs.contains(
            #[trigger] filter_pairs(rules, pairs)[k],
        ) && !key_removed(rules, filter_pairs(rules, pairs)[k].0),
    decreases pairs.len(),
{
    if pairs.len() > 0 {
        lemma_filter_pairs_sound(rules, pairs.drop_first());
        let rest = filter_pairs(rules, pairs.drop_first());
        assert forall|k: int| 0 <= k < rest.len() implies pairs.contains(rest[k]) by {
            assert(pairs.drop_first().contains(rest[k]));
            let j = choose|j: int|
                0 <= j < pairs.drop_first().len() && pairs.drop_first()[j] == rest[k];
            assert(pairs[j + 1] == rest[k]);
        }
        if !key_removed(rules, pairs[0].0) {
            assert(filter_pairs(rules, pairs) == seq![pairs[0]] + rest);
            assert(pairs.contains(pairs[0])) by {
                assert(pairs[0] == pairs[0]);
            }
        }
    }
}

/// Removal is idempotent: stripping a pair sequence a second time with the
/// same rules changes nothing. This is the rule-level core of the
/// idempotence of URL cleaning.
pub proof fn lemma_filter_pairs_idempotent(
    rules: Seq<Seq<char>>,
    pairs: Seq<(Seq<char>, Seq<char>)>,
)
    ensures
        filter_pairs(rules, filter_pairs(rules, pairs)) == filter_pairs(rules, pairs),
    decreases pairs.len(),
{
    if pairs.len() == 0 {
    } else {
        lemma_filter_pairs_idempotent(rules, pairs.drop_first());
        let rest = filter_pairs(rules, pairs.drop_first());
        if key_removed(rules, pairs[0].0) {
        } else {
            let whole = seq![pairs[0]] + rest;
            assert(whole.drop_first() =~= rest);
            assert(filter_pairs(rules, whole) == seq![pairs[0]] + filter_pairs(rules, rest));
        }
    }
}

/// Redirection short-circuits the rules: once a redirection pattern
/// captures a target, the promised outcome is the same whatever the
/// provider's `rules`, `raw_rules` and `referral_marketing` say and
/// whatever the referral-marketing mode is.
pub proof fn lemma_redirection_short_circuit(
    p1: ProviderView,
    p2: ProviderView,
    u: Seq<char>,
    strip1: bool,
    strip2: bool,
    r: Result<Url, CleanError>,
)
    requires
        p1.redirections == p2.redirections,
        spec_get_redirection(p1.redirections, u) is Target,
    ensures
        remove_outcome(p1, u, strip1, r) == remove_outcome(p2, u, strip2, r),
{
}

} // verus!
