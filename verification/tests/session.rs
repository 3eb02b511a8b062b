use window_rules::delivery::Reply;
use window_rules::delivery::SendError;
use window_rules::dispatch::Actions;
use window_rules::dispatch::Command;
use window_rules::dispatch::Placement;
use window_rules::engine::Event;
use window_rules::matcher::Matcher;
use window_rules::pattern::Pattern;
use window_rules::rule::Rule;
use window_rules::session::Input;
use window_rules::session::Phase;
use window_rules::session::Session;
use window_rules::session::StartupError;
use window_rules::session::Step;
use window_rules::window::Window;

fn rules() -> Vec<Rule> {
    let mut m = Matcher::any();
    m.app_id = Some(Pattern::compile("^librewolf$").unwrap());
    m.title = Some(Pattern::compile(".*Bitwarden.*").unwrap());
    vec![Rule {
        excludes: vec![],
        includes: vec![m],
        actions: Actions { placement: Some(Placement::Float), column_width: None, row_height: None, spawn: None },
    }]
}

fn opened() -> Input {
    let mut w = Window::new(42);
    w.app_id = Some("librewolf".to_string());
    w.title = Some("Bitwarden - librewolf".to_string());
    Input::Event { event: Event::WindowOpenedOrChanged { window: w } }
}

fn streaming() -> Session {
    let mut s = Session::new(rules());
    assert!(matches!(s.step(Input::Connected), Step::Subscribe));
    assert!(matches!(s.step(Input::SubscriptionReply { reply: Reply::Handled }), Step::ReadEvent));
    assert_eq!(s.phase(), Phase::Streaming);
    s
}

fn sent(step: Step) -> Vec<Command> {
    let mut out = vec![];
    match step {
        Step::Deliver { mut outbox } => {
            while let Some(c) = outbox.next() {
                out.push(c.clone());
                assert!(outbox.settle(Reply::Handled).is_none());
            }
        }
        _ => panic!("expected a delivery"),
    }
    out
}

#[test]
fn session_starts_connecting() {
    assert_eq!(Session::new(vec![]).phase(), Phase::Connecting);
}

#[test]
fn session_runs_through_its_phases() {
    let mut s = Session::new(rules());
    assert!(matches!(s.step(Input::Connected), Step::Subscribe));
    assert_eq!(s.phase(), Phase::Subscribing);
    assert!(matches!(s.step(Input::SubscriptionReply { reply: Reply::Handled }), Step::ReadEvent));
    assert_eq!(s.phase(), Phase::Streaming);
    assert!(matches!(s.step(Input::StreamEnded), Step::Stop { error: None }));
    assert_eq!(s.phase(), Phase::Terminated);
}

#[test]
fn failed_connect_is_fatal() {
    let mut s = Session::new(rules());
    match s.step(Input::ConnectFailed { message: "no socket".to_string() }) {
        Step::Stop { error } => {
            assert_eq!(error, Some(StartupError::ConnectFailed { message: "no socket".to_string() }))
        }
        _ => panic!("expected a stop"),
    }
    assert_eq!(s.phase(), Phase::Terminated);
}

#[test]
fn rejected_subscription_is_fatal() {
    for (reply, cause) in [
        (Reply::Error { message: "denied".to_string() }, SendError::Rejected { message: "denied".to_string() }),
        (
            Reply::Unexpected { response: "Version".to_string() },
            SendError::UnexpectedResponse { response: "Version".to_string() },
        ),
        (Reply::Lost { message: "eof".to_string() }, SendError::Transport { message: "eof".to_string() }),
    ] {
        let mut s = Session::new(rules());
        s.step(Input::Connected);
        match s.step(Input::SubscriptionReply { reply }) {
            Step::Stop { error } => assert_eq!(error, Some(StartupError::SubscriptionRejected { cause })),
            _ => panic!("expected a stop"),
        }
        assert_eq!(s.phase(), Phase::Terminated);
    }
}

#[test]
fn stream_closed_before_streaming_is_fatal() {
    let mut s = Session::new(rules());
    assert!(matches!(s.step(Input::StreamEnded), Step::Stop { error: Some(StartupError::ClosedEarly) }));
    assert_eq!(s.phase(), Phase::Terminated);
    let mut s = Session::new(rules());
    s.step(Input::Connected);
    assert!(matches!(s.step(Input::StreamEnded), Step::Stop { error: Some(StartupError::ClosedEarly) }));
    assert!(matches!(
        Session::new(vec![]).step(Input::ConnectFailed { message: String::new() }),
        Step::Stop { error: Some(StartupError::ConnectFailed { .. }) }
    ));
    let mut s = Session::new(rules());
    s.step(Input::Connected);
    assert!(matches!(
        s.step(Input::ConnectFailed { message: "second".to_string() }),
        Step::Stop { error: Some(StartupError::ConnectFailed { .. }) }
    ));
}

#[test]
fn end_to_end_session_floats_bitwarden_once_per_opening() {
    let mut s = streaming();
    assert_eq!(sent(s.step(opened())), vec![Command::MoveToFloating { window_id: 42 }]);
    assert_eq!(sent(s.step(opened())), vec![]);
    assert_eq!(sent(s.step(Input::Event { event: Event::WindowClosed { id: 42 } })), vec![]);
    assert_eq!(sent(s.step(opened())), vec![Command::MoveToFloating { window_id: 42 }]);
    assert_eq!(s.phase(), Phase::Streaming);
}

#[test]
fn events_before_streaming_are_not_handled() {
    let mut s = Session::new(rules());
    assert!(matches!(s.step(opened()), Step::Connect));
    assert_eq!(s.phase(), Phase::Connecting);
    s.step(Input::Connected);
    assert!(matches!(s.step(opened()), Step::Subscribe));
    assert_eq!(s.phase(), Phase::Subscribing);
    s.step(Input::SubscriptionReply { reply: Reply::Handled });
    assert_eq!(sent(s.step(opened())), vec![Command::MoveToFloating { window_id: 42 }]);
}

#[test]
fn inputs_out_of_place_change_nothing() {
    let mut s = Session::new(rules());
    assert!(matches!(s.step(Input::SubscriptionReply { reply: Reply::Handled }), Step::Connect));
    assert_eq!(s.phase(), Phase::Connecting);
    s.step(Input::Connected);
    assert!(matches!(s.step(Input::Connected), Step::Subscribe));
    assert_eq!(s.phase(), Phase::Subscribing);
    s.step(Input::SubscriptionReply { reply: Reply::Handled });
    assert!(matches!(s.step(Input::Connected), Step::ReadEvent));
    assert!(matches!(s.step(Input::ConnectFailed { message: String::new() }), Step::ReadEvent));
    assert!(matches!(
        s.step(Input::SubscriptionReply { reply: Reply::Error { message: String::new() } }),
        Step::ReadEvent
    ));
    assert_eq!(s.phase(), Phase::Streaming);
}

#[test]
fn terminated_session_stays_terminated() {
    let mut s = streaming();
    s.step(Input::StreamEnded);
    for input in [
        Input::Connected,
        Input::ConnectFailed { message: String::new() },
        Input::SubscriptionReply { reply: Reply::Handled },
        opened(),
        Input::StreamEnded,
    ] {
        assert!(matches!(s.step(input), Step::Stop { error: None }));
        assert_eq!(s.phase(), Phase::Terminated);
    }
}
