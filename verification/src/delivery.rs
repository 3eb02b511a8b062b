//! Sending commands and reading what the compositor says to them.
//!
//! The library does not talk to the compositor. The program around it
//! sends one request at a time and hands back the reply; what a reply means
//! and what is sent next is decided here.

use crate::dispatch::Command;
use crate::dispatch::CommandView;
use crate::engine::dispatches_view;
use crate::engine::Dispatch;
use crate::engine::DispatchView;
use vstd::prelude::*;

verus! {

/// What came back for a request.
#[derive(Clone, Debug, PartialEq, Eq)]
pub enum Reply {
    /// The compositor handled the request.
    Handled,
    /// The compositor answered with an error.
    Error { message: String },
    /// The compositor answered, with something that is neither of the two.
    Unexpected { response: String },
    /// The request could not be sent, or no answer could be read.
    Lost { message: String },
}

/// Why a request counts as not acknowledged.
#[derive(Clone, Debug, PartialEq, Eq)]
pub enum SendError {
    /// The compositor answered with an error.
    Rejected { message: String },
    /// The compositor answered with something unexpected.
    UnexpectedResponse { response: String },
    /// The transport failed.
    Transport { message: String },
}

/// A command of a rule match that was not acknowledged.
#[derive(Clone, Debug, PartialEq, Eq)]
pub struct ActionDispatchError {
    /// The index of the rule that fired.
    pub rule_index: usize,
    /// The window it fired for.
    pub window_id: u64,
    /// The index of the command among the commands of that rule match.
    pub command_index: usize,
    /// What went wrong.
    pub cause: SendError,
}

/// What a reply means: only `Handled` acknowledges a request.
pub open spec fn acknowledged(reply: Reply) -> Result<(), SendError> {
    match reply {
        Reply::Handled => Ok(()),
        Reply::Error { message } => Err(SendError::Rejected { message }),
        Reply::Unexpected { response } => Err(SendError::UnexpectedResponse { response }),
        Reply::Lost { message } => Err(SendError::Transport { message }),
    }
}

/// Reads a reply: only `Handled` acknowledges a request.
pub fn acknowledge(reply: Reply) -> (r: Result<(), SendError>)
    ensures
        r == acknowledged(reply),
{
    match reply {
        Reply::Handled => Ok(()),
        Reply::Error { message } => Err(SendError::Rejected { message }),
        Reply::Unexpected { response } => Err(SendError::UnexpectedResponse { response }),
        Reply::Lost { message } => Err(SendError::Transport { message }),
    }
}

/// The index of the first batch at or after `from` that holds a command, or
/// the number of batches if there is none.
pub open spec fn next_open(batches: Seq<DispatchView>, from: int) -> int
    decreases batches.len() - from,
{
    if from < 0 || from >= batches.len() {
        batches.len() as int
    } else if batches[from].commands.len() > 0 {
        from
    } else {
        next_open(batches, from + 1)
    }
}

/// Where delivery stands: the batch in delivery and the command that is
/// sent next. When everything is delivered, `batch` is the number of batches.
pub struct Progress {
    pub batch: int,
    pub position: int,
}

/// Where delivery starts.
pub open spec fn progress_at_start(batches: Seq<DispatchView>) -> Progress {
    Progress { batch: next_open(batches, 0), position: 0 }
}

/// The command that is sent next, if any is left.
pub open spec fn command_at(batches: Seq<DispatchView>, at: Progress) -> Option<CommandView> {
    if 0 <= at.batch < batches.len() && 0 <= at.position < batches[at.batch].commands.len() {
        Some(batches[at.batch].commands[at.position])
    } else {
        None
    }
}

/// Where delivery stands after the reply to the command at `at`. After an
/// acknowledgment the next command of the batch follows, or the next batch
/// when this one is done. After anything else the rest of the batch is
/// dropped, and the next batch follows. With nothing left to send, a reply
/// changes nothing.
pub open spec fn progress_after(batches: Seq<DispatchView>, at: Progress, delivered: bool) -> Progress {
    if command_at(batches, at) is None {
        at
    } else if delivered && at.position + 1 < batches[at.batch].commands.len() {
        Progress { batch: at.batch, position: at.position + 1 }
    } else {
        Progress { batch: next_open(batches, at.batch + 1), position: 0 }
    }
}

/// The next open batch is never before the place the search starts from,
/// and never past the end.
pub proof fn lemma_next_open_bounds(batches: Seq<DispatchView>, from: int)
    requires
        0 <= from <= batches.len(),
    ensures
        from <= next_open(batches, from) <= batches.len(),
    decreases batches.len() - from,
{
    if from < batches.len() && batches[from].commands.len() == 0 {
        lemma_next_open_bounds(batches, from + 1);
    }
}

/// Every reply to a command moves delivery forward, whatever it says: to a
/// later command of the same batch, or to a later batch. So delivery comes
/// to an end after as many replies as there are commands, at most.
pub proof fn lemma_reply_moves_forward(batches: Seq<DispatchView>, at: Progress, delivered: bool)
    requires
        command_at(batches, at) is Some,
    ensures
        ({
            let then = progress_after(batches, at, delivered);
            then.batch <= batches.len() && (then.batch > at.batch || (then.batch == at.batch
                && then.position > at.position))
        }),
{
    lemma_next_open_bounds(batches, at.batch + 1);
}

/// A command that is not acknowledged ends its own batch and no other: the
/// next command, if there is one, is the first of a later batch.
pub proof fn lemma_failure_ends_batch(batches: Seq<DispatchView>, at: Progress)
    requires
        command_at(batches, at) is Some,
    ensures
        ({
            let then = progress_after(batches, at, false);
            then.batch == next_open(batches, at.batch + 1) && then.position == 0
        }),
{
}

/// The index of the first batch at or after `from` that holds a command.
fn open_from(batches: &Vec<Dispatch>, from: usize) -> (index: usize)
    requires
        from <= batches@.len(),
    ensures
        index == next_open(dispatches_view(batches@), from as int),
        from <= index <= batches@.len(),
        index < batches@.len() ==> batches@[index as int].commands@.len() > 0,
{
    let mut index: usize = from;
    while index < batches.len() && batches[index].commands.len() == 0
        invariant
            from <= index <= batches@.len(),
            next_open(dispatches_view(batches@), index as int) == next_open(
                dispatches_view(batches@),
                from as int,
            ),
        decreases batches@.len() - index,
    {
        index += 1;
    }
    index
}

/// The batches of one event on their way to the compositor.
///
/// Commands go out one at a time, in order, each after the reply to the one
/// before it. A command that is not acknowledged ends its batch: the rest
/// of that rule match is dropped and reported, and the batches of the other
/// rule matches are still sent.
pub struct Outbox {
    batches: Vec<Dispatch>,
    batch: usize,
    position: usize,
}

impl Outbox {
    /// The batches, as they were handed in.
    pub closed spec fn batches(&self) -> Seq<DispatchView> {
        dispatches_view(self.batches@)
    }

    /// Where delivery stands.
    pub closed spec fn progress(&self) -> Progress {
        Progress { batch: self.batch as int, position: self.position as int }
    }

    /// Delivery stands at a command, or at the end.
    #[verifier::type_invariant]
    spec fn at_command_or_end(&self) -> bool {
        &&& self.batch <= self.batches@.len()
        &&& self.batch < self.batches@.len() ==> self.position
            < self.batches@[self.batch as int].commands@.len()
        &&& self.batch == self.batches@.len() ==> self.position == 0
    }

    /// The command that is sent next, if any is left.
    pub open spec fn pending(&self) -> Option<CommandView> {
        command_at(self.batches(), self.progress())
    }

    /// An outbox for the batches of one event, with nothing sent yet.
    pub fn new(batches: Vec<Dispatch>) -> (outbox: Outbox)
        ensures
            outbox.batches() == dispatches_view(batches@),
            outbox.progress() == progress_at_start(dispatches_view(batches@)),
    {
        let batch = open_from(&batches, 0);
        Outbox { batches, batch, position: 0 }
    }

    /// The command to send now, or nothing when all is delivered.
    pub fn next(&self) -> (command: Option<&Command>)
        ensures
            match command {
                Some(c) => self.pending() == Some(c@),
                None => self.pending() is None,
            },
    {
        proof {
            use_type_invariant(self);
        }
        if self.batch < self.batches.len() {
            Some(&self.batches[self.batch].commands[self.position])
        } else {
            None
        }
    }

    /// Takes the reply to the command that `next` gave, and moves on. A
    /// reply other than `Handled` comes back as an error that names the
    /// command. With nothing left to send, the reply is dropped.
    pub fn settle(&mut self, reply: Reply) -> (failure: Option<ActionDispatchError>)
        ensures
            final(self).batches() == old(self).batches(),
            final(self).progress() == progress_after(
                old(self).batches(),
                old(self).progress(),
                acknowledged(reply) is Ok,
            ),
            match failure {
                Some(e) => old(self).pending() is Some && acknowledged(reply) == Err::<
                    (),
                    SendError,
                >(e.cause) && e.rule_index == old(self).batches()[old(
                    self,
                ).progress().batch].rule_index && e.window_id == old(self).batches()[old(
                    self,
                ).progress().batch].window_id && e.command_index == old(self).progress().position,
                None => old(self).pending() is None || acknowledged(reply) is Ok,
            },
    {
        proof {
            use_type_invariant(&*self);
        }
        if self.batch >= self.batches.len() {
            return None;
        }
        let size: usize = self.batches[self.batch].commands.len();
        match acknowledge(reply) {
            Ok(()) => {
                if self.position < size - 1 {
                    self.position = self.position + 1;
                } else {
                    let following = open_from(&self.batches, self.batch + 1);
                    self.position = 0;
                    self.batch = following;
                }
                None
            },
            Err(cause) => {
                let failure = ActionDispatchError {
                    rule_index: self.batches[self.batch].rule_index,
                    window_id: self.batches[self.batch].window_id,
                    command_index: self.position,
                    cause,
                };
                let following = open_from(&self.batches, self.batch + 1);
                self.position = 0;
                self.batch = following;
                Some(failure)
            },
        }
    }
}

} // verus!
