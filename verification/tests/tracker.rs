use window_rules::tracker::DedupTracker;

#[test]
fn should_fire_answers_yes_once() {
    let mut t = DedupTracker::new();
    assert!(t.should_fire(0, 42));
    assert!(!t.should_fire(0, 42));
    assert!(!t.should_fire(0, 42));
}

#[test]
fn should_fire_keeps_rules_apart() {
    let mut t = DedupTracker::new();
    assert!(t.should_fire(0, 42));
    assert!(t.should_fire(1, 42));
    assert!(!t.should_fire(0, 42));
    assert!(t.should_fire(2, 42));
    assert!(!t.should_fire(1, 42));
}

#[test]
fn should_fire_keeps_windows_apart() {
    let mut t = DedupTracker::new();
    assert!(t.should_fire(0, 1));
    assert!(t.should_fire(0, 2));
    assert!(!t.should_fire(0, 1));
    assert!(!t.should_fire(0, 2));
}

#[test]
fn forget_lets_every_rule_fire_again() {
    let mut t = DedupTracker::new();
    assert!(t.should_fire(0, 42));
    assert!(t.should_fire(1, 42));
    t.forget(42);
    assert!(t.should_fire(0, 42));
    assert!(t.should_fire(1, 42));
    assert!(!t.should_fire(0, 42));
}

#[test]
fn forget_leaves_other_windows_on_record() {
    let mut t = DedupTracker::new();
    assert!(t.should_fire(0, 1));
    assert!(t.should_fire(0, 2));
    t.forget(1);
    assert!(!t.should_fire(0, 2));
    assert!(t.should_fire(0, 1));
}

#[test]
fn forget_of_an_unknown_window_changes_nothing() {
    let mut t = DedupTracker::new();
    t.forget(7);
    assert!(t.should_fire(0, 42));
    t.forget(7);
    assert!(!t.should_fire(0, 42));
    let mut none = DedupTracker::new();
    none.forget(1);
    assert!(!none.has_fired(0, 1));
}

#[test]
fn has_fired_reads_the_record() {
    let mut t = DedupTracker::new();
    assert!(!t.has_fired(0, 42));
    assert!(t.should_fire(0, 42));
    assert!(t.has_fired(0, 42));
    assert!(!t.has_fired(1, 42));
    assert!(!t.has_fired(0, 43));
    assert!(!t.has_fired(2, 42));
    t.forget(42);
    assert!(!t.has_fired(0, 42));
}

#[test]
fn should_fire_takes_any_rule_index() {
    let mut t = DedupTracker::new();
    assert!(t.should_fire(1000, 5));
    assert!(!t.should_fire(1000, 5));
    assert!(t.should_fire(3, 5));
    assert!(!t.has_fired(999, 5));
    t.forget(5);
    assert!(t.should_fire(1000, 5));
}
