//! The event loop as a state machine: the program around the library
//! connects, sends and reads; what follows from each outcome is decided here.

use crate::delivery::acknowledged;
use crate::delivery::progress_at_start;
use crate::delivery::Outbox;
use crate::delivery::Reply;
use crate::delivery::SendError;
use crate::engine::event_outcome;
use crate::engine::DispatchView;
use crate::engine::Engine;
use crate::engine::Event;
use crate::rule::rules_view;
use crate::rule::Rule;
use crate::rule::RuleView;
use crate::tracker::Firing;
use vstd::prelude::*;

verus! {

/// The phases of a session with the compositor.
#[derive(Clone, Copy, Debug, PartialEq, Eq, Structural)]
pub enum Phase {
    /// The transports are being opened.
    Connecting,
    /// The subscription to the event stream was sent and is not yet answered.
    Subscribing,
    /// Events are read and handled.
    Streaming,
    /// The session is over.
    Terminated,
}

/// Why a session ended before it began to stream. Each of these is fatal.
#[derive(Clone, Debug, PartialEq, Eq)]
pub enum StartupError {
    /// A transport to the compositor could not be opened.
    ConnectFailed { message: String },
    /// The subscription to the event stream was not acknowledged.
    SubscriptionRejected { cause: SendError },
    /// The transport was closed before the subscription was acknowledged.
    ClosedEarly,
}

/// What the program around the library reports to the session.
#[derive(Clone, Debug, PartialEq, Eq)]
pub enum Input {
    /// The transports are open.
    Connected,
    /// A transport could not be opened.
    ConnectFailed { message: String },
    /// The reply to the subscription request.
    SubscriptionReply { reply: Reply },
    /// The next event of the stream.
    Event { event: Event },
    /// The stream is over: the transport was closed, or cannot be read.
    StreamEnded,
}

/// What the program around the library does next.
pub enum Step {
    /// Open the transports, and report `Connected` or `ConnectFailed`.
    Connect,
    /// Send the subscription request, and report the reply.
    Subscribe,
    /// Read the next event, and report it or `StreamEnded`.
    ReadEvent,
    /// Send what the outbox holds; then read the next event.
    Deliver { outbox: Outbox },
    /// Leave the loop: with an error after a failed start, without one
    /// after the stream has ended.
    Stop { error: Option<StartupError> },
}

/// A [`Step`], with the batches of an outbox in the outbox's place.
pub enum StepView {
    Connect,
    Subscribe,
    ReadEvent,
    Deliver { batches: Seq<DispatchView> },
    Stop { error: Option<StartupError> },
}

impl View for Step {
    type V = StepView;

    open spec fn view(&self) -> StepView {
        match *self {
            Step::Connect => StepView::Connect,
            Step::Subscribe => StepView::Subscribe,
            Step::ReadEvent => StepView::ReadEvent,
            Step::Deliver { outbox } => StepView::Deliver { batches: outbox.batches() },
            Step::Stop { error } => StepView::Stop { error },
        }
    }
}

/// The phase that follows `phase` on `input`.
///
/// A session starts to stream only after its subscription was
/// acknowledged; a failure before that ends it. While it streams, only the
/// end of the stream ends it. An input that does not belong to the phase
/// changes nothing, and a session that is over stays so.
pub open spec fn next_phase(phase: Phase, input: Input) -> Phase {
    match phase {
        Phase::Connecting => match input {
            Input::Connected => Phase::Subscribing,
            Input::ConnectFailed { .. } => Phase::Terminated,
            Input::StreamEnded => Phase::Terminated,
            _ => Phase::Connecting,
        },
        Phase::Subscribing => match input {
            Input::SubscriptionReply { reply } => if acknowledged(reply) is Ok {
                Phase::Streaming
            } else {
                Phase::Terminated
            },
            Input::ConnectFailed { .. } => Phase::Terminated,
            Input::StreamEnded => Phase::Terminated,
            _ => Phase::Subscribing,
        },
        Phase::Streaming => match input {
            Input::StreamEnded => Phase::Terminated,
            _ => Phase::Streaming,
        },
        Phase::Terminated => Phase::Terminated,
    }
}

/// What a session in `phase` waits for.
pub open spec fn awaited(phase: Phase) -> StepView {
    match phase {
        Phase::Connecting => StepView::Connect,
        Phase::Subscribing => StepView::Subscribe,
        Phase::Streaming => StepView::ReadEvent,
        Phase::Terminated => StepView::Stop { error: None },
    }
}

/// The error with which a session in `phase` ends on `input`, if it ends
/// with one. The end of the stream is no error once the session streams.
pub open spec fn startup_error(phase: Phase, input: Input) -> Option<StartupError> {
    match phase {
        Phase::Connecting | Phase::Subscribing => match input {
            Input::ConnectFailed { message } => Some(StartupError::ConnectFailed { message }),
            Input::StreamEnded => Some(StartupError::ClosedEarly),
            Input::SubscriptionReply { reply } => match acknowledged(reply) {
                Err(cause) if phase == Phase::Subscribing => Some(
                    StartupError::SubscriptionRejected { cause },
                ),
                _ => None,
            },
            _ => None,
        },
        _ => None,
    }
}

/// What the session answers to `input`: the commands of an event while it
/// streams, the end when it is over, else what the next phase waits for.
pub open spec fn answer(
    phase: Phase,
    rules: Seq<RuleView>,
    fired: Set<Firing>,
    input: Input,
) -> StepView {
    if phase == Phase::Streaming && input is Event {
        StepView::Deliver { batches: event_outcome(rules, fired, input->event@).dispatches }
    } else if next_phase(phase, input) == Phase::Terminated {
        StepView::Stop { error: startup_error(phase, input) }
    } else {
        awaited(next_phase(phase, input))
    }
}

/// The records of what has fired after `input`: only an event that comes
/// while the session streams changes them.
pub open spec fn fired_after(
    phase: Phase,
    rules: Seq<RuleView>,
    fired: Set<Firing>,
    input: Input,
) -> Set<Firing> {
    if phase == Phase::Streaming && input is Event {
        event_outcome(rules, fired, input->event@).fired
    } else {
        fired
    }
}

/// One run of the daemon: the phase it is in, and the engine.
pub struct Session {
    phase: Phase,
    engine: Engine,
}

impl Session {
    /// The phase the session is in.
    pub closed spec fn spec_phase(&self) -> Phase {
        self.phase
    }

    /// The rules, in order.
    pub closed spec fn rules(&self) -> Seq<RuleView> {
        self.engine.rules()
    }

    /// The rules that have fired, each with the window it has fired for.
    pub closed spec fn fired(&self) -> Set<Firing> {
        self.engine.fired()
    }

    /// A session for `rules` that has not connected yet. Its first step is
    /// `Step::Connect`.
    pub fn new(rules: Vec<Rule>) -> (session: Session)
        ensures
            session.spec_phase() == Phase::Connecting,
            session.rules() == rules_view(rules@),
            session.fired() == Set::<Firing>::empty(),
    {
        Session { phase: Phase::Connecting, engine: Engine::new(rules) }
    }

    /// The phase the session is in.
    #[verifier::when_used_as_spec(spec_phase)]
    pub fn phase(&self) -> (phase: Phase)
        ensures
            phase == self.spec_phase(),
    {
        self.phase
    }

    /// Takes what the program reports and says what it does next.
    pub fn step(&mut self, input: Input) -> (step: Step)
        ensures
            final(self).rules() == old(self).rules(),
            final(self).spec_phase() == next_phase(old(self).spec_phase(), input),
            final(self).fired() == fired_after(
                old(self).spec_phase(),
                old(self).rules(),
                old(self).fired(),
                input,
            ),
            step@ == answer(old(self).spec_phase(), old(self).rules(), old(self).fired(), input),
            step matches Step::Deliver { outbox } ==> outbox.progress() == progress_at_start(
                outbox.batches(),
            ),
    {
        match self.phase {
            Phase::Connecting => match input {
                Input::Connected => {
                    self.phase = Phase::Subscribing;
                    Step::Subscribe
                },
                Input::ConnectFailed { message } => {
                    self.phase = Phase::Terminated;
                    Step::Stop { error: Some(StartupError::ConnectFailed { message }) }
                },
                Input::StreamEnded => {
                    self.phase = Phase::Terminated;
                    Step::Stop { error: Some(StartupError::ClosedEarly) }
                },
                _ => Step::Connect,
            },
            Phase::Subscribing => match input {
                Input::SubscriptionReply { reply } => match crate::delivery::acknowledge(reply) {
                    Ok(()) => {
                        self.phase = Phase::Streaming;
                        Step::ReadEvent
                    },
                    Err(cause) => {
                        self.phase = Phase::Terminated;
                        Step::Stop { error: Some(StartupError::SubscriptionRejected { cause }) }
                    },
                },
                Input::ConnectFailed { message } => {
                    self.phase = Phase::Terminated;
                    Step::Stop { error: Some(StartupError::ConnectFailed { message }) }
                },
                Input::StreamEnded => {
                    self.phase = Phase::Terminated;
                    Step::Stop { error: Some(StartupError::ClosedEarly) }
                },
                _ => Step::Subscribe,
            },
            Phase::Streaming => match input {
                Input::Event { event } => {
                    let dispatches = self.engine.handle_event(&event);
                    Step::Deliver { outbox: Outbox::new(dispatches) }
                },
                Input::StreamEnded => {
                    self.phase = Phase::Terminated;
                    Step::Stop { error: None }
                },
                _ => Step::ReadEvent,
            },
            Phase::Terminated => Step::Stop { error: None },
        }
    }
}

/// A session that is over stays over, whatever is reported to it.
pub proof fn lemma_terminated_is_final(input: Input)
    ensures
        next_phase(Phase::Terminated, input) == Phase::Terminated,
{
}

/// A session comes to stream in one way only: from the subscribing phase,
/// by a subscription that the compositor acknowledged.
pub proof fn lemma_streaming_needs_acknowledged_subscription(phase: Phase, input: Input)
    requires
        phase != Phase::Streaming,
        next_phase(phase, input) == Phase::Streaming,
    ensures
        phase == Phase::Subscribing,
        input == (Input::SubscriptionReply { reply: Reply::Handled }),
{
}

/// A session that ends before it streams ends with an error, and one that
/// ends while it streams ends without.
pub proof fn lemma_only_startup_fails(phase: Phase, input: Input)
    requires
        phase != Phase::Terminated,
        next_phase(phase, input) == Phase::Terminated,
    ensures
        startup_error(phase, input) is Some <==> phase != Phase::Streaming,
{
}

} // verus!
