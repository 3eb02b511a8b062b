//! Rules: which windows they apply to.

use crate::dispatch::Actions;
use crate::dispatch::ActionsView;
use crate::matcher::Matcher;
use crate::matcher::MatcherView;
use crate::window::Window;
use crate::window::WindowView;
use vstd::prelude::*;

verus! {

/// One rule: matchers that rule a window out, matchers that rule it in, and
/// what to do with a window the rule applies to.
#[derive(Debug)]
pub struct Rule {
    pub excludes: Vec<Matcher>,
    pub includes: Vec<Matcher>,
    pub actions: Actions,
}

/// The mathematical content of a [`Rule`].
pub struct RuleView {
    pub excludes: Seq<MatcherView>,
    pub includes: Seq<MatcherView>,
    pub actions: ActionsView,
}

/// The content of a list of matchers, in order.
pub open spec fn matchers_view(matchers: Seq<Matcher>) -> Seq<MatcherView> {
    matchers.map_values(|m: Matcher| m@)
}

/// The content of a list of rules, in order.
pub open spec fn rules_view(rules: Seq<Rule>) -> Seq<RuleView> {
    rules.map_values(|r: Rule| r@)
}

/// Whether at least one of `matchers` matches `w`.
pub open spec fn any_matches(matchers: Seq<MatcherView>, w: WindowView) -> bool {
    exists|i: int| 0 <= i < matchers.len() && #[trigger] matchers[i].matches(w)
}

impl RuleView {
    /// Whether the rule applies to `w`: no exclude matcher matches it, and
    /// at least one include matcher does. With no include matcher the rule
    /// applies to nothing.
    pub open spec fn applies(self, w: WindowView) -> bool {
        !any_matches(self.excludes, w) && any_matches(self.includes, w)
    }
}

impl View for Rule {
    type V = RuleView;

    open spec fn view(&self) -> RuleView {
        RuleView {
            excludes: matchers_view(self.excludes@),
            includes: matchers_view(self.includes@),
            actions: self.actions@,
        }
    }
}

/// The indices of the rules that apply to `w`, in ascending order.
pub open spec fn applying(rules: Seq<RuleView>, w: WindowView) -> Seq<nat>
    decreases rules.len(),
{
    if rules.len() == 0 {
        Seq::empty()
    } else {
        let earlier = applying(rules.drop_last(), w);
        if rules.last().applies(w) {
            earlier.push((rules.len() - 1) as nat)
        } else {
            earlier
        }
    }
}

/// A list of indices, as numbers.
pub open spec fn indices_view(indices: Seq<usize>) -> Seq<nat> {
    indices.map_values(|i: usize| i as nat)
}

/// Whether at least one of `matchers` matches `window`.
pub fn any_matcher_matches(matchers: &Vec<Matcher>, window: &Window) -> (found: bool)
    ensures
        found == any_matches(matchers_view(matchers@), window@),
{
    let mut i: usize = 0;
    while i < matchers.len()
        invariant
            i <= matchers@.len(),
            forall|j: int| 0 <= j < i ==> !(#[trigger] matchers_view(matchers@)[j]).matches(window@),
        decreases matchers@.len() - i,
    {
        if matchers[i].matches(window) {
            assert(matchers_view(matchers@)[i as int].matches(window@));
            return true;
        }
        i += 1;
    }
    false
}

impl Rule {
    /// Whether the rule applies to `window`. Excludes come first: once one
    /// of them matches, the includes are not looked at.
    pub fn applies(&self, window: &Window) -> (applies: bool)
        ensures
            applies == self@.applies(window@),
    {
        if any_matcher_matches(&self.excludes, window) {
            return false;
        }
        any_matcher_matches(&self.includes, window)
    }
}

/// The indices of the rules that apply to `window`, in ascending order.
/// Every rule is looked at: a rule that applies does not hide a later one.
pub fn rules_that_apply(window: &Window, rules: &Vec<Rule>) -> (indices: Vec<usize>)
    ensures
        indices_view(indices@) == applying(rules_view(rules@), window@),
{
    let mut indices: Vec<usize> = Vec::new();
    let ghost all = rules_view(rules@);
    let mut i: usize = 0;
    while i < rules.len()
        invariant
            i <= rules@.len(),
            all == rules_view(rules@),
            indices_view(indices@) == applying(all.take(i as int), window@),
        decreases rules@.len() - i,
    {
        assert(all.take(i + 1).drop_last() =~= all.take(i as int));
        if rules[i].applies(window) {
            proof {
                indices@.lemma_push_map_commute(|i: usize| i as nat, i);
            }
            indices.push(i);
        }
        i += 1;
    }
    assert(all.take(i as int) =~= all);
    indices
}

/// A window that one of a rule's exclude matchers matches is never one the
/// rule applies to, whatever the include matchers say.
pub proof fn lemma_exclude_overrides_include(rule: RuleView, w: WindowView, i: int)
    requires
        0 <= i < rule.excludes.len(),
        rule.excludes[i].matches(w),
    ensures
        !rule.applies(w),
{
}

/// A rule without include matchers applies to no window.
pub proof fn lemma_no_include_never_applies(rule: RuleView, w: WindowView)
    requires
        rule.includes.len() == 0,
    ensures
        !rule.applies(w),
{
}

} // verus!
