//! Control core of an editor-to-REPL bridge: a keyed registry of live REPL
//! connections and the dispatcher that turns editor events into registry
//! operations and lines for the log.
//!
//! The core performs no I/O. Every decision is taken here and handed out as
//! an [`system::Effect`]; the caller carries the effect out and, where the
//! effect has an outcome, reports it back:
//!
//! * [`system::System::handle`] takes one input and answers with an effect.
//! * After `Dial` the caller dials the address and calls
//!   [`system::System::dialed`] with the link, or with `None`.
//! * After `Send` the caller writes the request to the link of its target
//!   and calls [`system::System::sent`] with whether that worked.
//! * After `ShowLog` the caller brings up the log view and calls
//!   [`system::System::log_shown`] with the outcome.
//!
//! The registry owns the links. Its type parameter `L` is the link type: a
//! socket in a running bridge, anything at all in a test.

pub mod address;
pub mod error;
pub mod laws;
pub mod lines;
pub mod registry;
pub mod rule;
pub mod system;
pub mod text;
