use regex::Regex;
use regex::RegexBuilder;
use window_rules::pattern::Pattern;

#[test]
fn compile_accepts_a_valid_pattern() {
    let p = Pattern::compile("^librewolf$").unwrap();
    assert_eq!(p.as_str(), "^librewolf$");
}

#[test]
fn compile_refuses_an_invalid_pattern() {
    let e = Pattern::compile("foo(bar").unwrap_err();
    assert_eq!(e.pattern, "foo(bar");
    assert!(!e.message.is_empty());
}

#[test]
fn compile_refuses_a_pattern_that_compiles_too_big() {
    let e = Pattern::compile(r"\w{1000}").unwrap_err();
    assert_eq!(e.pattern, r"\w{1000}");
}

#[test]
fn is_match_searches_anywhere_in_the_text() {
    let p = Pattern::compile("Bitwarden").unwrap();
    assert!(p.is_match("Bitwarden - librewolf"));
    assert!(p.is_match("my Bitwarden"));
    assert!(!p.is_match("bitwarden"));
    assert!(!p.is_match(""));
}

#[test]
fn is_match_honours_anchors() {
    let p = Pattern::compile("^librewolf$").unwrap();
    assert!(p.is_match("librewolf"));
    assert!(!p.is_match("librewolf-bin"));
    assert!(!p.is_match("org.librewolf"));
    let empty = Pattern::compile("^$").unwrap();
    assert!(empty.is_match(""));
    assert!(!empty.is_match("x"));
}

#[test]
fn from_outcome_follows_the_outcome() {
    let ok = Pattern::from_outcome("a+", Regex::new("a+"));
    assert!(ok.unwrap().is_match("caab"));
    let failed = Pattern::from_outcome("a(", Regex::new("a("));
    let e = failed.unwrap_err();
    assert_eq!(e.pattern, "a(");
    assert_eq!(e.message, Regex::new("a(").unwrap_err().to_string());
}

#[test]
fn from_regex_keeps_the_options_of_the_expression() {
    let re = RegexBuilder::new("firefox").case_insensitive(true).build().unwrap();
    let p = Pattern::from_regex(re);
    assert_eq!(p.as_str(), "firefox");
    assert!(p.is_match("FireFox"));
    assert!(!Pattern::compile("firefox").unwrap().is_match("FireFox"));
}
