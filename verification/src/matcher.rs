//! Matchers: predicates over one window snapshot.

use crate::pattern::Pattern;
use crate::pattern::PatternView;
use crate::window::text_or_empty;
use crate::window::Window;
use crate::window::WindowView;
use vstd::prelude::*;

verus! {

/// A set of conditions on a window. A field left unset is a wildcard; the
/// matcher matches a window when every field that is set is satisfied.
#[derive(Debug)]
pub struct Matcher {
    /// Must find a match in the application identifier (the empty text if
    /// the window has none).
    pub app_id: Option<Pattern>,
    /// Must find a match in the title (the empty text if the window has none).
    pub title: Option<Pattern>,
    /// Must equal the window's focus flag.
    pub is_focused: Option<bool>,
    /// Must equal the window's floating flag.
    pub is_floating: Option<bool>,
    /// Must equal the window's urgency flag.
    pub is_urgent: Option<bool>,
}

/// The mathematical content of a [`Matcher`].
pub struct MatcherView {
    pub app_id: Option<PatternView>,
    pub title: Option<PatternView>,
    pub is_focused: Option<bool>,
    pub is_floating: Option<bool>,
    pub is_urgent: Option<bool>,
}

/// The content of an optional pattern.
pub open spec fn pattern_view(pattern: Option<Pattern>) -> Option<PatternView> {
    match pattern {
        Some(p) => Some(p@),
        None => None,
    }
}

/// Whether an optional pattern lets `text` pass: an unset one always does.
pub open spec fn pattern_passes(pattern: Option<PatternView>, text: Seq<char>) -> bool {
    match pattern {
        Some(p) => p.accepts(text),
        None => true,
    }
}

/// Whether an optional expected flag lets `actual` pass: an unset one always does.
pub open spec fn flag_passes(expected: Option<bool>, actual: bool) -> bool {
    match expected {
        Some(b) => b == actual,
        None => true,
    }
}

impl MatcherView {
    /// The matcher with no field set.
    pub open spec fn any() -> MatcherView {
        MatcherView { app_id: None, title: None, is_focused: None, is_floating: None, is_urgent: None }
    }

    /// Whether every field that is set is satisfied by `w`.
    pub open spec fn matches(self, w: WindowView) -> bool {
        &&& pattern_passes(self.app_id, text_or_empty(w.app_id))
        &&& pattern_passes(self.title, text_or_empty(w.title))
        &&& flag_passes(self.is_focused, w.is_focused)
        &&& flag_passes(self.is_floating, w.is_floating)
        &&& flag_passes(self.is_urgent, w.is_urgent)
    }
}

impl View for Matcher {
    type V = MatcherView;

    open spec fn view(&self) -> MatcherView {
        MatcherView {
            app_id: pattern_view(self.app_id),
            title: pattern_view(self.title),
            is_focused: self.is_focused,
            is_floating: self.is_floating,
            is_urgent: self.is_urgent,
        }
    }
}

/// Whether an optional pattern lets `text` pass.
fn pattern_allows(pattern: &Option<Pattern>, text: &str) -> (ok: bool)
    ensures
        ok == pattern_passes(pattern_view(*pattern), text@),
{
    match pattern {
        Some(p) => p.is_match(text),
        None => true,
    }
}

/// Whether an optional expected flag lets `actual` pass.
fn flag_allows(expected: Option<bool>, actual: bool) -> (ok: bool)
    ensures
        ok == flag_passes(expected, actual),
{
    match expected {
        Some(b) => b == actual,
        None => true,
    }
}

impl Matcher {
    /// The matcher with no field set. It matches every window.
    pub fn any() -> (m: Matcher)
        ensures
            m@ == MatcherView::any(),
    {
        Matcher { app_id: None, title: None, is_focused: None, is_floating: None, is_urgent: None }
    }

    /// Whether this matcher matches `window`.
    pub fn matches(&self, window: &Window) -> (matched: bool)
        ensures
            matched == self@.matches(window@),
    {
        pattern_allows(&self.app_id, window.app_id_text())
            && pattern_allows(&self.title, window.title_text())
            && flag_allows(self.is_focused, window.is_focused)
            && flag_allows(self.is_floating, window.is_floating)
            && flag_allows(self.is_urgent, window.is_urgent)
    }
}

/// A matcher with no field set matches every window.
pub proof fn lemma_unset_matcher_matches_every_window(w: WindowView)
    ensures
        MatcherView::any().matches(w),
{
}

} // verus!
