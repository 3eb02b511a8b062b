use window_rules::compile::collect_results;
use window_rules::compile::compile_field;
use window_rules::compile::compile_rules;
use window_rules::compile::matcher_outcomes;
use window_rules::compile::MatcherDecl;
use window_rules::compile::MatcherList;
use window_rules::compile::PatternField;
use window_rules::compile::RuleDecl;
use window_rules::dispatch::Actions;
use window_rules::dispatch::Placement;
use window_rules::matcher::Matcher;
use window_rules::pattern::Pattern;
use window_rules::rule::Rule;
use window_rules::window::Window;

fn decl(app_id: Option<&str>, title: Option<&str>) -> MatcherDecl {
    MatcherDecl {
        app_id: app_id.map(|s| s.to_string()),
        title: title.map(|s| s.to_string()),
        is_focused: None,
        is_floating: None,
        is_urgent: None,
    }
}

fn no_actions() -> Actions {
    Actions { placement: None, column_width: None, row_height: None, spawn: None }
}

#[test]
fn collect_results_gathers_successes() {
    let all: Vec<Result<u8, &str>> = vec![Ok(1), Ok(2), Ok(3)];
    assert_eq!(collect_results(all), Ok(vec![1, 2, 3]));
    let none: Vec<Result<u8, &str>> = vec![];
    assert_eq!(collect_results(none), Ok(vec![]));
}

#[test]
fn collect_results_reports_the_first_failure() {
    let some: Vec<Result<u8, &str>> = vec![Ok(1), Err("a"), Ok(3), Err("b")];
    assert_eq!(collect_results(some), Err((1, "a")));
    let first: Vec<Result<u8, &str>> = vec![Err("x")];
    assert_eq!(collect_results(first), Err((0, "x")));
    let last: Vec<Result<u8, &str>> = vec![Ok(0), Ok(0), Err("z")];
    assert_eq!(collect_results(last), Err((2, "z")));
}

#[test]
fn compile_field_compiles_what_is_set() {
    assert!(compile_field(&None).is_none());
    let ok = compile_field(&Some("^a$".to_string())).unwrap().unwrap();
    assert_eq!(ok.as_str(), "^a$");
    let failed = compile_field(&Some("(".to_string())).unwrap().unwrap_err();
    assert_eq!(failed.pattern, "(");
}

#[test]
fn matcher_compile_keeps_flags_and_patterns() {
    let mut d = decl(Some("^foot$"), Some("shell"));
    d.is_focused = Some(true);
    d.is_floating = Some(false);
    let m = Matcher::compile(&d).unwrap();
    assert_eq!(m.app_id.as_ref().unwrap().as_str(), "^foot$");
    assert_eq!(m.title.as_ref().unwrap().as_str(), "shell");
    assert_eq!(m.is_focused, Some(true));
    assert_eq!(m.is_floating, Some(false));
    assert_eq!(m.is_urgent, None);
    let mut w = Window::new(1);
    w.app_id = Some("foot".to_string());
    w.title = Some("a shell".to_string());
    w.is_focused = true;
    assert!(m.matches(&w));
    w.is_floating = true;
    assert!(!m.matches(&w));
}

#[test]
fn matcher_without_patterns_always_compiles() {
    let mut d = decl(None, None);
    d.is_urgent = Some(true);
    let m = Matcher::compile(&d).unwrap();
    assert!(m.app_id.is_none() && m.title.is_none());
    assert_eq!(m.is_urgent, Some(true));
}

#[test]
fn matcher_compile_names_the_failed_field() {
    let e = Matcher::compile(&decl(Some("("), Some("fine"))).unwrap_err();
    assert_eq!(e.field, PatternField::AppId);
    assert_eq!(e.error.pattern, "(");
    let e = Matcher::compile(&decl(Some("fine"), Some("[z-a]"))).unwrap_err();
    assert_eq!(e.field, PatternField::Title);
    assert_eq!(e.error.pattern, "[z-a]");
    let e = Matcher::compile(&decl(Some("(a"), Some("(b"))).unwrap_err();
    assert_eq!(e.field, PatternField::AppId);
    assert_eq!(e.error.pattern, "(a");
}

#[test]
fn matcher_assemble_follows_the_outcomes() {
    let d = decl(None, None);
    let ok = Matcher::assemble(&d, Some(Pattern::compile("a")), None).unwrap();
    assert_eq!(ok.app_id.unwrap().as_str(), "a");
    assert!(ok.title.is_none());
    let e = Matcher::assemble(&d, Some(Pattern::compile("a")), Some(Pattern::compile("("))).unwrap_err();
    assert_eq!(e.field, PatternField::Title);
    let e = Matcher::assemble(&d, Some(Pattern::compile(")")), Some(Pattern::compile("("))).unwrap_err();
    assert_eq!(e.field, PatternField::AppId);
    assert_eq!(e.error.pattern, ")");
}

#[test]
fn matcher_outcomes_has_one_outcome_per_matcher() {
    let outcomes = matcher_outcomes(&vec![decl(Some("a"), None), decl(Some("("), None), decl(None, None)]);
    assert_eq!(outcomes.len(), 3);
    assert!(outcomes[0].is_ok());
    assert!(outcomes[1].is_err());
    assert!(outcomes[2].is_ok());
}

#[test]
fn rule_assemble_reports_excludes_before_includes() {
    let bad = |p: &str| Matcher::compile(&decl(Some(p), None));
    let e = Rule::assemble(vec![bad("a"), bad("(x")], vec![bad("(y")], no_actions()).unwrap_err();
    assert_eq!(e.list, MatcherList::Excludes);
    assert_eq!(e.matcher_index, 1);
    assert_eq!(e.cause.error.pattern, "(x");
    let e = Rule::assemble(vec![bad("a")], vec![bad("b"), bad("c"), bad("(y")], no_actions()).unwrap_err();
    assert_eq!(e.list, MatcherList::Includes);
    assert_eq!(e.matcher_index, 2);
    let rule = Rule::assemble(vec![bad("a")], vec![bad("b"), bad("c")], no_actions()).unwrap();
    assert_eq!(rule.excludes.len(), 1);
    assert_eq!(rule.includes.len(), 2);
    assert_eq!(rule.includes[1].app_id.as_ref().unwrap().as_str(), "c");
}

#[test]
fn compile_rules_builds_every_rule() {
    let actions = Actions {
        placement: Some(Placement::Float),
        column_width: Some(3),
        row_height: None,
        spawn: Some("echo {id}".to_string()),
    };
    let decls = vec![
        RuleDecl {
            excludes: vec![decl(None, Some("private"))],
            includes: vec![decl(Some("^librewolf$"), Some(".*Bitwarden.*"))],
            actions: actions.clone(),
        },
        RuleDecl { excludes: vec![], includes: vec![], actions: no_actions() },
    ];
    let rules = compile_rules(decls).unwrap();
    assert_eq!(rules.len(), 2);
    assert_eq!(rules[0].actions, actions);
    assert_eq!(rules[0].excludes.len(), 1);
    assert_eq!(rules[0].includes.len(), 1);
    assert_eq!(rules[0].includes[0].app_id.as_ref().unwrap().as_str(), "^librewolf$");
    assert_eq!(rules[1].actions, no_actions());
    let mut w = Window::new(42);
    w.app_id = Some("librewolf".to_string());
    w.title = Some("Bitwarden - librewolf".to_string());
    assert!(rules[0].applies(&w));
    w.title = Some("Bitwarden private".to_string());
    assert!(!rules[0].applies(&w));
    assert!(!rules[1].applies(&w));
}

#[test]
fn compile_rules_without_patterns_succeeds() {
    let mut d = decl(None, None);
    d.is_focused = Some(true);
    let rules = compile_rules(vec![
        RuleDecl { excludes: vec![d.clone()], includes: vec![d, decl(None, None)], actions: no_actions() },
    ])
    .unwrap();
    assert_eq!(rules.len(), 1);
    assert_eq!(compile_rules(vec![]).unwrap().len(), 0);
}

#[test]
fn compile_rules_names_the_place_of_the_first_bad_pattern() {
    let decls = vec![
        RuleDecl { excludes: vec![], includes: vec![decl(Some("ok"), None)], actions: no_actions() },
        RuleDecl {
            excludes: vec![decl(None, None)],
            includes: vec![decl(Some("fine"), None), decl(Some("good"), Some("bad("))],
            actions: no_actions(),
        },
        RuleDecl { excludes: vec![decl(Some("(worse"), None)], includes: vec![], actions: no_actions() },
    ];
    let e = compile_rules(decls).unwrap_err();
    assert_eq!(e.rule_index, 1);
    assert_eq!(e.cause.list, MatcherList::Includes);
    assert_eq!(e.cause.matcher_index, 1);
    assert_eq!(e.cause.cause.field, PatternField::Title);
    assert_eq!(e.cause.cause.error.pattern, "bad(");
    assert!(!e.cause.cause.error.message.is_empty());
}
