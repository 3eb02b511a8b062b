//! From the rules as they are declared to the rules as they are evaluated:
//! every pattern is compiled once, when the rule set is built.

use crate::dispatch::Actions;
use crate::dispatch::ActionsView;
use crate::matcher::Matcher;
use crate::matcher::MatcherView;
use crate::pattern::Pattern;
use crate::pattern::PatternError;
use crate::pattern::PatternView;
use crate::rule::rules_view;
use crate::rule::Rule;
use crate::rule::RuleView;
use crate::window::text_view;
use vstd::prelude::*;

verus! {

/// The index of the first failure in `results`, or their length if there is none.
pub open spec fn first_failure<T, E>(results: Seq<Result<T, E>>) -> int
    decreases results.len(),
{
    if results.len() == 0 {
        0
    } else {
        let before = first_failure(results.drop_last());
        if before < results.len() - 1 {
            before
        } else if results.last() is Ok {
            results.len() as int
        } else {
            results.len() - 1
        }
    }
}

/// The values of `results`, in order, where all of them are successes.
pub open spec fn successes<T, E>(results: Seq<Result<T, E>>) -> Seq<T> {
    Seq::new(results.len(), |i: int| results[i]->Ok_0)
}

/// What `first_failure` finds: the index of a failure with only successes
/// before it, or the length when there are only successes.
pub proof fn lemma_first_failure<T, E>(results: Seq<Result<T, E>>)
    ensures
        0 <= first_failure(results) <= results.len(),
        forall|j: int| 0 <= j < first_failure(results) ==> (#[trigger] results[j]) is Ok,
        first_failure(results) < results.len() ==> results[first_failure(results)] is Err,
    decreases results.len(),
{
    if results.len() > 0 {
        lemma_first_failure(results.drop_last());
        assert forall|j: int| 0 <= j < first_failure(results) implies (#[trigger] results[j]) is Ok by {
            if j < results.len() - 1 {
                assert(results.drop_last()[j] == results[j]);
            }
        }
        if first_failure(results) < results.len() - 1 {
            assert(results.drop_last()[first_failure(results)] == results[first_failure(results)]);
        }
    }
}

/// Gathers the values of `results`, or gives the first failure with its index.
pub fn collect_results<T, E>(results: Vec<Result<T, E>>) -> (r: Result<Vec<T>, (usize, E)>)
    ensures
        match r {
            Ok(values) => first_failure(results@) == results@.len() && values@ == successes(
                results@,
            ),
            Err((index, error)) => index == first_failure(results@) && index < results@.len()
                && results@[index as int] == Err::<T, E>(error),
        },
{
    let mut values: Vec<T> = Vec::new();
    let ghost all = results@;
    for result in it: results
        invariant
            it.seq() == all,
            values@.len() == it.index(),
            first_failure(all.take(it.index() as int)) == it.index(),
            forall|j: int| 0 <= j < it.index() ==> all[j] == Ok::<T, E>(#[trigger] values@[j]),
    {
        let ghost i = it.index() as int;
        assert(all.take(i + 1).drop_last() =~= all.take(i));
        match result {
            Ok(value) => {
                values.push(value);
            },
            Err(error) => {
                proof {
                    lemma_first_failure_of_prefix(all, i + 1);
                }
                return Err((values.len(), error));
            },
        }
    }
    assert(all.take(all.len() as int) =~= all);
    assert(values@ =~= successes(all));
    Ok(values)
}

/// A failure found in a prefix is the first failure of the whole list.
proof fn lemma_first_failure_of_prefix<T, E>(results: Seq<Result<T, E>>, n: int)
    requires
        0 <= n <= results.len(),
        first_failure(results.take(n)) < n,
    ensures
        first_failure(results) == first_failure(results.take(n)),
    decreases results.len() - n,
{
    if n < results.len() {
        assert(results.take(n + 1).drop_last() =~= results.take(n));
        lemma_first_failure_of_prefix(results, n + 1);
    } else {
        assert(results.take(n) =~= results);
    }
}

/// A matcher as a rule file declares it: patterns as text, not yet compiled.
#[derive(Clone, Debug, PartialEq, Eq)]
pub struct MatcherDecl {
    pub app_id: Option<String>,
    pub title: Option<String>,
    pub is_focused: Option<bool>,
    pub is_floating: Option<bool>,
    pub is_urgent: Option<bool>,
}

/// The mathematical content of a [`MatcherDecl`].
pub struct MatcherDeclView {
    pub app_id: Option<Seq<char>>,
    pub title: Option<Seq<char>>,
    pub is_focused: Option<bool>,
    pub is_floating: Option<bool>,
    pub is_urgent: Option<bool>,
}

impl View for MatcherDecl {
    type V = MatcherDeclView;

    open spec fn view(&self) -> MatcherDeclView {
        MatcherDeclView {
            app_id: text_view(self.app_id),
            title: text_view(self.title),
            is_focused: self.is_focused,
            is_floating: self.is_floating,
            is_urgent: self.is_urgent,
        }
    }
}

/// A rule as a rule file declares it.
#[derive(Clone, Debug, PartialEq, Eq)]
pub struct RuleDecl {
    pub excludes: Vec<MatcherDecl>,
    pub includes: Vec<MatcherDecl>,
    pub actions: Actions,
}

/// The mathematical content of a [`RuleDecl`].
pub struct RuleDeclView {
    pub excludes: Seq<MatcherDeclView>,
    pub includes: Seq<MatcherDeclView>,
    pub actions: ActionsView,
}

/// The content of a list of declared matchers, in order.
pub open spec fn matcher_decls_view(decls: Seq<MatcherDecl>) -> Seq<MatcherDeclView> {
    decls.map_values(|d: MatcherDecl| d@)
}

/// The content of a list of declared rules, in order.
pub open spec fn rule_decls_view(decls: Seq<RuleDecl>) -> Seq<RuleDeclView> {
    decls.map_values(|d: RuleDecl| d@)
}

impl View for RuleDecl {
    type V = RuleDeclView;

    open spec fn view(&self) -> RuleDeclView {
        RuleDeclView {
            excludes: matcher_decls_view(self.excludes@),
            includes: matcher_decls_view(self.includes@),
            actions: self.actions@,
        }
    }
}

/// The two pattern fields of a matcher.
#[derive(Clone, Copy, Debug, PartialEq, Eq, Structural)]
pub enum PatternField {
    AppId,
    Title,
}

/// The two matcher lists of a rule.
#[derive(Clone, Copy, Debug, PartialEq, Eq, Structural)]
pub enum MatcherList {
    Excludes,
    Includes,
}

/// A pattern of a matcher that could not be compiled.
#[derive(Clone, Debug, PartialEq, Eq)]
pub struct FieldError {
    /// The field that holds the pattern.
    pub field: PatternField,
    /// The pattern and why it was refused.
    pub error: PatternError,
}

/// A pattern of a rule that could not be compiled.
#[derive(Clone, Debug, PartialEq, Eq)]
pub struct RuleError {
    /// The list that holds the matcher.
    pub list: MatcherList,
    /// The index of the matcher in that list.
    pub matcher_index: usize,
    /// The field of the matcher, the pattern and why it was refused.
    pub cause: FieldError,
}

/// A pattern of a rule set that could not be compiled, with its place.
#[derive(Clone, Debug, PartialEq, Eq)]
pub struct MatcherCompileError {
    /// The index of the rule.
    pub rule_index: usize,
    /// The place in the rule, the pattern and why it was refused.
    pub cause: RuleError,
}

/// The text of a pattern field of a declared matcher.
pub open spec fn declared_pattern(decl: MatcherDeclView, field: PatternField) -> Option<Seq<char>> {
    match field {
        PatternField::AppId => decl.app_id,
        PatternField::Title => decl.title,
    }
}

/// What a declared pattern field compiles to: an unset field stays unset.
pub open spec fn compiled_field(declared: Option<Seq<char>>) -> Option<PatternView> {
    match declared {
        Some(source) => Some(PatternView::compiled(source)),
        None => None,
    }
}

impl MatcherDeclView {
    /// The matcher that this declaration compiles to.
    pub open spec fn compiled(self) -> MatcherView {
        MatcherView {
            app_id: compiled_field(self.app_id),
            title: compiled_field(self.title),
            is_focused: self.is_focused,
            is_floating: self.is_floating,
            is_urgent: self.is_urgent,
        }
    }
}

/// The matchers that a list of declarations compiles to, one for one.
pub open spec fn compiled_matchers(decls: Seq<MatcherDeclView>) -> Seq<MatcherView> {
    decls.map_values(|d: MatcherDeclView| d.compiled())
}

impl RuleDeclView {
    /// The rule that this declaration compiles to.
    pub open spec fn compiled(self) -> RuleView {
        RuleView {
            excludes: compiled_matchers(self.excludes),
            includes: compiled_matchers(self.includes),
            actions: self.actions,
        }
    }
}

/// The rule set that a list of declarations compiles to, one rule for one.
pub open spec fn compiled_rules(decls: Seq<RuleDeclView>) -> Seq<RuleView> {
    decls.map_values(|d: RuleDeclView| d.compiled())
}

/// Whether an error names a pattern field that the declared matcher has set,
/// with the text that is set there.
pub open spec fn names_field(error: FieldError, decl: MatcherDeclView) -> bool {
    declared_pattern(decl, error.field) == Some(error.error.pattern@)
}

/// Whether an error names a pattern that the declared rule holds.
pub open spec fn names_matcher(error: RuleError, decl: RuleDeclView) -> bool {
    let list = match error.list {
        MatcherList::Excludes => decl.excludes,
        MatcherList::Includes => decl.includes,
    };
    error.matcher_index < list.len() && names_field(error.cause, list[error.matcher_index as int])
}

/// Whether an error names a pattern that the declared rule set holds.
pub open spec fn names_rule(error: MatcherCompileError, decls: Seq<RuleDeclView>) -> bool {
    error.rule_index < decls.len() && names_matcher(error.cause, decls[error.rule_index as int])
}

/// Whether a declared matcher has no pattern.
pub open spec fn without_pattern(decl: MatcherDeclView) -> bool {
    decl.app_id is None && decl.title is None
}

/// Whether none of the declared matchers has a pattern.
pub open spec fn all_without_pattern(decls: Seq<MatcherDeclView>) -> bool {
    forall|i: int| 0 <= i < decls.len() ==> without_pattern(#[trigger] decls[i])
}

/// Whether a declared rule set holds no pattern at all.
pub open spec fn rules_without_pattern(decls: Seq<RuleDeclView>) -> bool {
    forall|i: int|
        0 <= i < decls.len() ==> all_without_pattern((#[trigger] decls[i]).excludes)
            && all_without_pattern(decls[i].includes)
}

/// The outcome of compiling an optional pattern text: nothing for an unset
/// field, else what the compiler said.
pub fn compile_field(declared: &Option<String>) -> (outcome: Option<Result<Pattern, PatternError>>)
    ensures
        match outcome {
            Some(Ok(p)) => declared is Some && p@ == PatternView::compiled(declared->0@),
            Some(Err(e)) => text_view(*declared) == Some(e.pattern@),
            None => declared is None,
        },
{
    match declared {
        Some(source) => Some(Pattern::compile(source.as_str())),
        None => None,
    }
}

/// What the outcome of a field stands for in a matcher, where it is no failure.
pub open spec fn field_pattern(outcome: Option<Result<Pattern, PatternError>>) -> Option<Pattern> {
    match outcome {
        Some(Ok(p)) => Some(p),
        _ => None,
    }
}

/// Whether the outcome of a field is a failure.
pub open spec fn field_failed(outcome: Option<Result<Pattern, PatternError>>) -> bool {
    outcome matches Some(Err(_))
}

impl Matcher {
    /// Puts a matcher together from the flags of `decl` and the outcomes of
    /// compiling its two patterns. A failed application-identifier pattern
    /// is reported before a failed title pattern.
    pub fn assemble(
        decl: &MatcherDecl,
        app_id: Option<Result<Pattern, PatternError>>,
        title: Option<Result<Pattern, PatternError>>,
    ) -> (r: Result<Matcher, FieldError>)
        ensures
            match r {
                Ok(m) => !field_failed(app_id) && !field_failed(title) && m == (Matcher {
                    app_id: field_pattern(app_id),
                    title: field_pattern(title),
                    is_focused: decl.is_focused,
                    is_floating: decl.is_floating,
                    is_urgent: decl.is_urgent,
                }),
                Err(e) => if field_failed(app_id) {
                    app_id == Some(Err::<Pattern, PatternError>(e.error)) && e.field
                        == PatternField::AppId
                } else {
                    title == Some(Err::<Pattern, PatternError>(e.error)) && e.field
                        == PatternField::Title
                },
            },
    {
        let app_id = match app_id {
            Some(Err(error)) => {
                return Err(FieldError { field: PatternField::AppId, error });
            },
            Some(Ok(p)) => Some(p),
            None => None,
        };
        let title = match title {
            Some(Err(error)) => {
                return Err(FieldError { field: PatternField::Title, error });
            },
            Some(Ok(p)) => Some(p),
            None => None,
        };
        Ok(
            Matcher {
                app_id,
                title,
                is_focused: decl.is_focused,
                is_floating: decl.is_floating,
                is_urgent: decl.is_urgent,
            },
        )
    }

    /// Compiles a declared matcher. A matcher without patterns always
    /// compiles; whether a pattern does is for the pattern compiler to say.
    pub fn compile(decl: &MatcherDecl) -> (r: Result<Matcher, FieldError>)
        ensures
            match r {
                Ok(m) => m@ == decl@.compiled(),
                Err(e) => names_field(e, decl@),
            },
            without_pattern(decl@) ==> r is Ok,
    {
        let app_id = compile_field(&decl.app_id);
        let title = compile_field(&decl.title);
        Matcher::assemble(decl, app_id, title)
    }
}

/// The outcome of compiling each declared matcher, in order.
pub fn matcher_outcomes(decls: &Vec<MatcherDecl>) -> (outcomes: Vec<Result<Matcher, FieldError>>)
    ensures
        outcomes@.len() == decls@.len(),
        forall|j: int|
            0 <= j < decls@.len() ==> match #[trigger] outcomes@[j] {
                Ok(m) => m@ == matcher_decls_view(decls@)[j].compiled(),
                Err(e) => names_field(e, matcher_decls_view(decls@)[j]),
            },
        forall|j: int|
            0 <= j < decls@.len() && without_pattern(matcher_decls_view(decls@)[j]) ==> (
            #[trigger] outcomes@[j]) is Ok,
{
    let mut outcomes: Vec<Result<Matcher, FieldError>> = Vec::new();
    let mut i: usize = 0;
    while i < decls.len()
        invariant
            i <= decls@.len(),
            outcomes@.len() == i,
            forall|j: int|
                0 <= j < i ==> match #[trigger] outcomes@[j] {
                    Ok(m) => m@ == decls@[j]@.compiled(),
                    Err(e) => names_field(e, decls@[j]@),
                },
            forall|j: int|
                0 <= j < i && without_pattern(decls@[j]@) ==> (#[trigger] outcomes@[j]) is Ok,
        decreases decls@.len() - i,
    {
        outcomes.push(Matcher::compile(&decls[i]));
        i += 1;
    }
    outcomes
}

impl Rule {
    /// Puts a rule together from the outcomes of compiling its matchers. The
    /// first failure among the excludes is reported, else the first among
    /// the includes; with no failure the rule holds every matcher, in order.
    pub fn assemble(
        excludes: Vec<Result<Matcher, FieldError>>,
        includes: Vec<Result<Matcher, FieldError>>,
        actions: Actions,
    ) -> (r: Result<Rule, RuleError>)
        ensures
            match r {
                Ok(rule) => first_failure(excludes@) == excludes@.len() && first_failure(includes@)
                    == includes@.len() && rule.excludes@ == successes(excludes@) && rule.includes@
                    == successes(includes@) && rule.actions == actions,
                Err(e) => if first_failure(excludes@) < excludes@.len() {
                    e.list == MatcherList::Excludes && e.matcher_index == first_failure(excludes@)
                        && excludes@[e.matcher_index as int] == Err::<Matcher, FieldError>(e.cause)
                } else {
                    e.list == MatcherList::Includes && e.matcher_index == first_failure(includes@)
                        && e.matcher_index < includes@.len() && includes@[e.matcher_index as int]
                        == Err::<Matcher, FieldError>(e.cause)
                },
            },
    {
        let excludes = match collect_results(excludes) {
            Ok(matchers) => matchers,
            Err((matcher_index, cause)) => {
                return Err(RuleError { list: MatcherList::Excludes, matcher_index, cause });
            },
        };
        let includes = match collect_results(includes) {
            Ok(matchers) => matchers,
            Err((matcher_index, cause)) => {
                return Err(RuleError { list: MatcherList::Includes, matcher_index, cause });
            },
        };
        Ok(Rule { excludes, includes, actions })
    }

    /// Compiles a declared rule. A rule without patterns always compiles;
    /// whether a pattern does is for the pattern compiler to say.
    pub fn compile(decl: RuleDecl) -> (r: Result<Rule, RuleError>)
        ensures
            match r {
                Ok(rule) => rule@ == decl@.compiled(),
                Err(e) => names_matcher(e, decl@),
            },
            all_without_pattern(decl@.excludes) && all_without_pattern(decl@.includes) ==> r is Ok,
    {
        let excludes = matcher_outcomes(&decl.excludes);
        let includes = matcher_outcomes(&decl.includes);
        proof {
            lemma_first_failure(excludes@);
            lemma_first_failure(includes@);
        }
        let r = Rule::assemble(excludes, includes, decl.actions);
        proof {
            if r is Ok {
                let rule = r->Ok_0;
                assert(rule@.excludes =~= decl@.compiled().excludes) by {
                    assert forall|i: int| 0 <= i < rule@.excludes.len() implies (
                    #[trigger] rule@.excludes[i]) == decl@.compiled().excludes[i] by {
                        assert(excludes@[i] is Ok);
                    }
                }
                assert(rule@.includes =~= decl@.compiled().includes) by {
                    assert forall|i: int| 0 <= i < rule@.includes.len() implies (
                    #[trigger] rule@.includes[i]) == decl@.compiled().includes[i] by {
                        assert(includes@[i] is Ok);
                    }
                }
            }
        }
        r
    }
}

/// Builds the rule set from the rules as declared: every pattern of every
/// rule is compiled, once. A rule set without patterns is always built;
/// else the pattern compiler decides, and the error names the place of the
/// first pattern that it refused: rules in order, in a rule the excludes
/// before the includes, in a matcher the application identifier before the
/// title.
pub fn compile_rules(decls: Vec<RuleDecl>) -> (r: Result<Vec<Rule>, MatcherCompileError>)
    ensures
        match r {
            Ok(rules) => rules_view(rules@) == compiled_rules(rule_decls_view(decls@)),
            Err(e) => names_rule(e, rule_decls_view(decls@)),
        },
        rules_without_pattern(rule_decls_view(decls@)) ==> r is Ok,
{
    let mut outcomes: Vec<Result<Rule, RuleError>> = Vec::new();
    let ghost all = rule_decls_view(decls@);
    for decl in it: decls
        invariant
            rule_decls_view(it.seq()) == all,
            outcomes@.len() == it.index(),
            forall|j: int|
                0 <= j < it.index() ==> match #[trigger] outcomes@[j] {
                    Ok(rule) => rule@ == all[j].compiled(),
                    Err(e) => names_matcher(e, all[j]),
                },
            forall|j: int|
                0 <= j < it.index() && all_without_pattern(all[j].excludes) && all_without_pattern(
                    all[j].includes,
                ) ==> (#[trigger] outcomes@[j]) is Ok,
    {
        outcomes.push(Rule::compile(decl));
    }
    proof {
        lemma_first_failure(outcomes@);
    }
    match collect_results(outcomes) {
        Ok(rules) => {
            assert(rules_view(rules@) =~= compiled_rules(all)) by {
                assert forall|i: int| 0 <= i < rules@.len() implies (#[trigger] rules_view(
                    rules@,
                )[i]) == all[i].compiled() by {
                    assert(outcomes@[i] is Ok);
                }
            }
            Ok(rules)
        },
        Err((rule_index, cause)) => Err(MatcherCompileError { rule_index, cause }),
    }
}

} // verus!
