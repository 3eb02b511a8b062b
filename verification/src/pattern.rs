//! Compiled text patterns.
//!
//! Patterns are regular expressions of the `regex` crate. Compiling and
//! matching are that crate's work; this module states what the rest of the
//! library relies on and wraps a compiled expression in a type of its own.

use regex::Regex;
use vstd::prelude::*;
use vstd::string::StringExecFns;

verus! {

/// `regex::Regex`, a compiled expression. Nothing inside it is looked at.
#[verifier::external_type_specification]
#[verifier::external_body]
pub struct ExRegex(regex::Regex);

/// `regex::Error`, the reason why a pattern was not compiled. Nothing inside
/// it is looked at.
#[verifier::external_type_specification]
#[verifier::external_body]
pub struct ExRegexError(regex::Error);

/// The texts in which a compiled expression finds a match.
pub uninterp spec fn matched_texts(re: Regex) -> Set<Seq<char>>;

/// The pattern text that a compiled expression was built from.
pub uninterp spec fn pattern_text(re: Regex) -> Seq<char>;

/// The texts in which the expression that `Regex::new` compiles from
/// `pattern` finds a match. It says nothing of a text that is no valid
/// pattern.
pub uninterp spec fn default_language(pattern: Seq<char>) -> Set<Seq<char>>;

/// `Regex::new` compiles a pattern with the default options. Whether it
/// succeeds is the crate's decision (syntax, size limit). On success the
/// compiled expression remembers the pattern text it was given, and what it
/// matches depends on that text alone.
pub assume_specification[ Regex::new ](re: &str) -> (compiled: Result<Regex, regex::Error>)
    ensures
        compiled matches Ok(c) ==> pattern_text(c) == re@ && matched_texts(c) == default_language(
            re@,
        ),
;

/// `Regex::is_match` is true exactly when the expression finds a match
/// anywhere in the haystack.
pub assume_specification[ Regex::is_match ](re: &Regex, haystack: &str) -> (found: bool)
    ensures
        found == matched_texts(*re).contains(haystack@),
;

/// `Regex::as_str` returns the pattern text the expression was built from.
pub assume_specification<'a>[ Regex::as_str ](re: &'a Regex) -> (source: &'a str)
    ensures
        source@ == pattern_text(*re),
;

/// The message of a compile error: what `regex::Error` displays, taken by
/// `to_string`. Nothing is claimed of its content.
#[verifier::external_body]
fn error_message(error: &regex::Error) -> (message: String) {
    error.to_string()
}

/// A compiled pattern.
#[derive(Debug)]
pub struct Pattern {
    compiled: Regex,
}

/// The mathematical content of a [`Pattern`]: the text it was written as,
/// and the set of texts in which it finds a match.
pub struct PatternView {
    pub source: Seq<char>,
    pub language: Set<Seq<char>>,
}

impl PatternView {
    /// Whether the pattern finds a match somewhere in `text`.
    pub open spec fn accepts(self, text: Seq<char>) -> bool {
        self.language.contains(text)
    }

    /// The pattern that `source` compiles to with the default options.
    pub open spec fn compiled(source: Seq<char>) -> PatternView {
        PatternView { source, language: default_language(source) }
    }
}

impl View for Pattern {
    type V = PatternView;

    closed spec fn view(&self) -> PatternView {
        PatternView {
            source: pattern_text(self.compiled),
            language: matched_texts(self.compiled),
        }
    }
}

/// A pattern that could not be compiled.
#[derive(Clone, Debug, PartialEq, Eq)]
pub struct PatternError {
    /// The pattern text that was refused.
    pub pattern: String,
    /// Why it was refused.
    pub message: String,
}

impl Pattern {
    /// Wraps a compiled expression.
    pub fn from_regex(compiled: Regex) -> (p: Pattern)
        ensures
            p@.source == pattern_text(compiled),
            p@.language == matched_texts(compiled),
    {
        Pattern { compiled }
    }

    /// Turns an outcome of compiling `source` into a pattern or an error: a
    /// pattern exactly when compiling succeeded.
    pub fn from_outcome(source: &str, outcome: Result<Regex, regex::Error>) -> (r: Result<
        Pattern,
        PatternError,
    >)
        ensures
            match outcome {
                Ok(c) => r matches Ok(p) && p@.source == pattern_text(c) && p@.language
                    == matched_texts(c),
                Err(_) => r matches Err(e) && e.pattern@ == source@,
            },
    {
        match outcome {
            Ok(compiled) => Ok(Pattern { compiled }),
            Err(error) => Err(
                PatternError { pattern: String::from_str(source), message: error_message(&error) },
            ),
        }
    }

    /// Compiles `source` with the default options. Whether a text is a
    /// valid pattern is for the `regex` crate to say.
    pub fn compile(source: &str) -> (r: Result<Pattern, PatternError>)
        ensures
            match r {
                Ok(p) => p@ == PatternView::compiled(source@),
                Err(e) => e.pattern@ == source@,
            },
    {
        Pattern::from_outcome(source, Regex::new(source))
    }

    /// Whether the pattern finds a match somewhere in `text`.
    pub fn is_match(&self, text: &str) -> (found: bool)
        ensures
            found == self@.accepts(text@),
    {
        self.compiled.is_match(text)
    }

    /// The pattern text.
    pub fn as_str(&self) -> (source: &str)
        ensures
            source@ == self@.source,
    {
        self.compiled.as_str()
    }
}

} // verus!
