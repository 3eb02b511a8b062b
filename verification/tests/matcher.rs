use window_rules::matcher::Matcher;
use window_rules::pattern::Pattern;
use window_rules::window::Window;

fn window(id: u64, app_id: Option<&str>, title: Option<&str>) -> Window {
    let mut w = Window::new(id);
    w.app_id = app_id.map(|s| s.to_string());
    w.title = title.map(|s| s.to_string());
    w
}

fn pattern(source: &str) -> Option<Pattern> {
    Some(Pattern::compile(source).unwrap())
}

#[test]
fn unset_matcher_matches_every_window() {
    let any = Matcher::any();
    assert!(any.matches(&Window::new(1)));
    assert!(any.matches(&window(2, Some("foot"), Some("shell"))));
    let mut w = window(3, None, Some("x"));
    w.is_focused = true;
    w.is_floating = true;
    w.is_urgent = true;
    w.pid = Some(77);
    assert!(any.matches(&w));
}

#[test]
fn new_window_has_nothing_set() {
    let w = Window::new(9);
    assert_eq!(w.id, 9);
    assert_eq!(w.title, None);
    assert_eq!(w.app_id, None);
    assert_eq!(w.pid, None);
    assert!(!w.is_focused && !w.is_floating && !w.is_urgent);
    assert_eq!(w.title_text(), "");
    assert_eq!(w.app_id_text(), "");
}

#[test]
fn window_texts_are_the_fields_where_set() {
    let w = window(1, Some("foot"), Some("shell"));
    assert_eq!(w.app_id_text(), "foot");
    assert_eq!(w.title_text(), "shell");
}

#[test]
fn app_id_pattern_constrains_the_application_identifier() {
    let mut m = Matcher::any();
    m.app_id = pattern("^librewolf$");
    assert!(m.matches(&window(1, Some("librewolf"), None)));
    assert!(!m.matches(&window(1, Some("firefox"), None)));
    assert!(!m.matches(&window(1, None, Some("librewolf"))));
}

#[test]
fn title_pattern_constrains_the_title() {
    let mut m = Matcher::any();
    m.title = pattern(".*Bitwarden.*");
    assert!(m.matches(&window(1, None, Some("Bitwarden - librewolf"))));
    assert!(!m.matches(&window(1, Some("Bitwarden"), Some("mail"))));
}

#[test]
fn absent_text_is_matched_as_the_empty_text() {
    let mut m = Matcher::any();
    m.app_id = pattern("^$");
    assert!(m.matches(&window(1, None, None)));
    assert!(m.matches(&window(1, Some(""), None)));
    assert!(!m.matches(&window(1, Some("x"), None)));
    let mut t = Matcher::any();
    t.title = pattern("^$");
    assert!(t.matches(&window(1, Some("x"), None)));
    assert!(!t.matches(&window(1, None, Some("t"))));
}

#[test]
fn all_set_fields_must_hold_together() {
    let mut m = Matcher::any();
    m.app_id = pattern("^librewolf$");
    m.title = pattern("Bitwarden");
    m.is_floating = Some(false);
    let mut w = window(42, Some("librewolf"), Some("Bitwarden - librewolf"));
    assert!(m.matches(&w));
    w.is_floating = true;
    assert!(!m.matches(&w));
    w.is_floating = false;
    w.title = Some("mail".to_string());
    assert!(!m.matches(&w));
}

#[test]
fn flags_are_compared_for_equality() {
    let mut w = Window::new(1);
    for expected in [true, false] {
        for actual in [true, false] {
            let mut focused = Matcher::any();
            focused.is_focused = Some(expected);
            w.is_focused = actual;
            assert_eq!(focused.matches(&w), expected == actual);
            w.is_focused = false;

            let mut floating = Matcher::any();
            floating.is_floating = Some(expected);
            w.is_floating = actual;
            assert_eq!(floating.matches(&w), expected == actual);
            w.is_floating = false;

            let mut urgent = Matcher::any();
            urgent.is_urgent = Some(expected);
            w.is_urgent = actual;
            assert_eq!(urgent.matches(&w), expected == actual);
            w.is_urgent = false;
        }
    }
}

#[test]
fn a_flag_set_to_false_asks_for_false() {
    let mut m = Matcher::any();
    m.is_urgent = Some(false);
    let mut w = Window::new(1);
    assert!(m.matches(&w));
    w.is_urgent = true;
    assert!(!m.matches(&w));
}
