//! The rule engine: from a tracker URL and the ordered rules to the URL that replaces
//! it, if any rule applies.

use vstd::prelude::*;

use crate::config::{Rule, RuleView};
use crate::text::{has_substring, replace_all, str_contains, str_replace, str_trim, trim};

verus! {

/// The rule takes part: it is enabled, and its old domain is not blank.
pub open spec fn is_active(rule: RuleView) -> bool {
    rule.enabled && trim(rule.old_domain).len() > 0
}

/// The rule applies to `url`: it takes part, and its trimmed old domain is a part of
/// the URL as it is written.
pub open spec fn rule_matches(url: Seq<char>, rule: RuleView) -> bool {
    is_active(rule) && has_substring(url, trim(rule.old_domain))
}

/// `url` with every occurrence of the rule's trimmed old domain replaced by its
/// trimmed new domain.
pub open spec fn rewrite_with(url: Seq<char>, rule: RuleView) -> Seq<char> {
    replace_all(url, trim(rule.old_domain), trim(rule.new_domain))
}

/// What the rules from position `from` on make of `url`: the rewriting by the first
/// of them that applies.
pub open spec fn rewrite_from(url: Seq<char>, rules: Seq<RuleView>, from: int) -> Option<Seq<char>>
    decreases rules.len() - from,
{
    if from < 0 || from >= rules.len() {
        None
    } else if rule_matches(url, rules[from]) {
        Some(rewrite_with(url, rules[from]))
    } else {
        rewrite_from(url, rules, from + 1)
    }
}

/// What the rules make of `url`: the rewriting by the first rule that applies, and
/// nothing where none does.
pub open spec fn rewrite(url: Seq<char>, rules: Seq<RuleView>) -> Option<Seq<char>> {
    rewrite_from(url, rules, 0)
}

/// Rule `i` applies to `url` and none before it does.
pub open spec fn is_first_match(url: Seq<char>, rules: Seq<RuleView>, i: int) -> bool {
    &&& 0 <= i < rules.len()
    &&& rule_matches(url, rules[i])
    &&& forall|j: int| 0 <= j < i ==> !rule_matches(url, #[trigger] rules[j])
}

/// Applies the first rule that matches `tracker_url`.
pub fn apply_rules(tracker_url: &str, rules: &[Rule]) -> (r: Option<String>)
    ensures
        r.deep_view() == rewrite(tracker_url@, rules.deep_view()),
{
    let ghost url = tracker_url@;
    let ghost model = rules.deep_view();
    let mut i: usize = 0;
    while i < rules.len()
        invariant
            i <= rules.len(),
            url == tracker_url@,
            model == rules.deep_view(),
            rewrite(url, model) == rewrite_from(url, model, i as int),
        decreases rules.len() - i,
    {
        let rule = &rules[i];
        if rule.enabled {
            let old_domain = str_trim(rule.old_domain.as_str());
            if !old_domain.is_empty() && str_contains(tracker_url, old_domain) {
                let new_domain = str_trim(rule.new_domain.as_str());
                let replaced = str_replace(tracker_url, old_domain, new_domain);
                return Some(replaced);
            }
        }
        i = i + 1;
    }
    None
}

/// The rules from `from` on give a result exactly where one of them applies, and the
/// result is the rewriting by the first that does.
pub proof fn lemma_rewrite_from(url: Seq<char>, rules: Seq<RuleView>, from: int)
    requires
        0 <= from <= rules.len(),
    ensures
        match rewrite_from(url, rules, from) {
            Some(s) => exists|i: int|
                from <= i < rules.len() && #[trigger] rule_matches(url, rules[i]) && s
                    == rewrite_with(url, rules[i]) && forall|j: int|
                    from <= j < i ==> !rule_matches(url, #[trigger] rules[j]),
            None => forall|i: int| from <= i < rules.len() ==> !rule_matches(url, #[trigger] rules[i]),
        },
    decreases rules.len() - from,
{
    if from < rules.len() && !rule_matches(url, rules[from]) {
        lemma_rewrite_from(url, rules, from + 1);
    }
}

/// Where a rule applies to the URL, the result is there, and it is the URL with every
/// occurrence of the old domain of the first applying rule replaced by its new
/// domain. Where no rule applies, there is no result.
pub proof fn lemma_rewrite_is_first_match(url: Seq<char>, rules: Seq<RuleView>)
    ensures
        (exists|i: int| 0 <= i < rules.len() && rule_matches(url, #[trigger] rules[i])) ==> (
        rewrite(url, rules) is Some),
        (forall|i: int| 0 <= i < rules.len() ==> !rule_matches(url, #[trigger] rules[i])) ==> (
        rewrite(url, rules) is None),
        forall|i: int| #[trigger]
            is_first_match(url, rules, i) ==> rewrite(url, rules) == Some(
                rewrite_with(url, rules[i]),
            ),
{
    lemma_rewrite_from(url, rules, 0);
}

/// The first rule that applies decides: whatever rules follow it, and whether they
/// apply too, the result is its rewriting.
pub proof fn lemma_first_match_wins(url: Seq<char>, rules: Seq<RuleView>, i: int)
    requires
        is_first_match(url, rules, i),
    ensures
        rewrite(url, rules) == Some(rewrite_with(url, rules[i])),
{
    lemma_rewrite_from(url, rules, 0);
}

/// Of two rules that both apply to the URL, only the one that stands first rewrites.
pub proof fn lemma_first_of_two_wins(url: Seq<char>, first: RuleView, second: RuleView)
    requires
        rule_matches(url, first),
        rule_matches(url, second),
    ensures
        rewrite(url, seq![first, second]) == Some(rewrite_with(url, first)),
{
    let rules = seq![first, second];
    lemma_first_match_wins(url, rules, 0);
}

/// A rule that is switched off does not apply, whatever its old domain is.
pub proof fn lemma_disabled_rule_never_matches(url: Seq<char>, rule: RuleView)
    requires
        !rule.enabled,
    ensures
        !rule_matches(url, rule),
{
}

/// A rule whose old domain is blank does not apply.
pub proof fn lemma_blank_rule_never_matches(url: Seq<char>, rule: RuleView)
    requires
        trim(rule.old_domain).len() == 0,
    ensures
        !rule_matches(url, rule),
{
}

/// A rule that does not apply can be taken out of the list: the other rules give what
/// the whole list gave.
pub proof fn lemma_unmatched_rule_can_go(url: Seq<char>, rules: Seq<RuleView>, k: int)
    requires
        0 <= k < rules.len(),
        !rule_matches(url, rules[k]),
    ensures
        rewrite(url, rules.remove(k)) == rewrite(url, rules),
{
    let rest = rules.remove(k);
    lemma_rewrite_from(url, rules, 0);
    lemma_rewrite_from(url, rest, 0);
    if let Some(s) = rewrite(url, rules) {
        // the first rule that applies, and its place once rule `k` is gone
        let i = choose|i: int|
            0 <= i < rules.len() && #[trigger] rule_matches(url, rules[i]) && s == rewrite_with(
                url,
                rules[i],
            ) && forall|j: int| 0 <= j < i ==> !rule_matches(url, #[trigger] rules[j]);
        let moved = if i < k {
            i
        } else {
            i - 1
        };
        lemma_first_match_wins(url, rest, moved);
    }
}

/// A rule that is switched off can be taken out of the list without changing any
/// result.
pub proof fn lemma_disabled_rule_can_go(url: Seq<char>, rules: Seq<RuleView>, k: int)
    requires
        0 <= k < rules.len(),
        !rules[k].enabled,
    ensures
        rewrite(url, rules.remove(k)) == rewrite(url, rules),
{
    lemma_unmatched_rule_can_go(url, rules, k);
}

/// Where every rule is switched off, no URL is rewritten.
pub proof fn lemma_all_disabled_gives_none(url: Seq<char>, rules: Seq<RuleView>)
    requires
        forall|i: int| 0 <= i < rules.len() ==> !(#[trigger] rules[i]).enabled,
    ensures
        rewrite(url, rules) is None,
{
    lemma_rewrite_from(url, rules, 0);
}

} // verus!
