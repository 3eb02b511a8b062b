//! Rule matching and action dispatch for a tiling compositor's window events.
//!
//! A rule names the windows it is for, by matchers that rule a window in or
//! out, and what to do with them: float or tile, resize, run a command. The
//! library decides, for each window that the compositor reports, which rules
//! fire, makes sure that a rule fires once only while a window is open, and
//! gives the commands to send, in order.
//!
//! - [`window`]: the window snapshot that comes with an event.
//! - [`pattern`], [`matcher`], [`rule`]: patterns, matchers and rules, and
//!   when a rule applies to a window.
//! - [`compile`]: from the rules as a rule file declares them to rules with
//!   compiled patterns.
//! - [`tracker`]: the record of which rule has fired for which window.
//! - [`text`], [`dispatch`]: from a rule's actions to commands, with the
//!   window's attributes filled into the spawn command.
//! - [`engine`]: what an event leads to.
//! - [`delivery`], [`session`]: the order of sending, what a reply means,
//!   and the phases of a run.
//!
//! The library does no input or output. The program around it reads the
//! rule file, talks to the compositor, and hands over what it has read.

pub mod compile;
pub mod delivery;
pub mod dispatch;
pub mod engine;
pub mod matcher;
pub mod pattern;
pub mod rule;
pub mod session;
pub mod text;
pub mod tracker;
pub mod window;
