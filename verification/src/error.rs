//! What can go wrong in the registry and at its boundaries.

use vstd::prelude::*;

verus! {

/// Why a connection could not be registered.
#[derive(Clone, Copy, Debug, PartialEq, Eq, Structural)]
pub enum ConnectError {
    /// The key already has a live connection.
    DuplicateKey,
    /// No connection to the address could be established.
    Unreachable,
}

/// Why a connection could not be removed.
#[derive(Clone, Copy, Debug, PartialEq, Eq, Structural)]
pub enum DisconnectError {
    /// No connection is registered under the key.
    UnknownKey,
}

/// Why a request could not be delivered.
#[derive(Clone, Copy, Debug, PartialEq, Eq, Structural)]
pub enum EvalError {
    /// No connection's rule matches the path.
    NoMatch,
    /// The matched connection could not take the request.
    ConnectionUnavailable,
}

/// Input from the editor that could not be read as an event.
#[derive(Debug, PartialEq, Eq)]
pub struct ParseError {
    pub message: String,
}

/// A failure reported by the log surface.
#[derive(Debug, PartialEq, Eq)]
pub struct SinkError {
    pub message: String,
}

/// The words that describe a `ConnectError`.
pub open spec fn connect_error_text(e: ConnectError) -> Seq<char> {
    match e {
        ConnectError::DuplicateKey => "a connection with this key exists already"@,
        ConnectError::Unreachable => "the address could not be reached"@,
    }
}

/// The words that describe a `DisconnectError`.
pub open spec fn disconnect_error_text(e: DisconnectError) -> Seq<char> {
    match e {
        DisconnectError::UnknownKey => "no connection is registered under this key"@,
    }
}

/// The words that describe an `EvalError`.
pub open spec fn eval_error_text(e: EvalError) -> Seq<char> {
    match e {
        EvalError::NoMatch => "no connection matches this path"@,
        EvalError::ConnectionUnavailable => "the matching connection is no longer usable"@,
    }
}

impl ConnectError {
    /// The error in words.
    pub fn message(&self) -> (text: &'static str)
        ensures
            text@ == connect_error_text(*self),
    {
        match self {
            ConnectError::DuplicateKey => "a connection with this key exists already",
            ConnectError::Unreachable => "the address could not be reached",
        }
    }
}

impl DisconnectError {
    /// The error in words.
    pub fn message(&self) -> (text: &'static str)
        ensures
            text@ == disconnect_error_text(*self),
    {
        match self {
            DisconnectError::UnknownKey => "no connection is registered under this key",
        }
    }
}

impl EvalError {
    /// The error in words.
    pub fn message(&self) -> (text: &'static str)
        ensures
            text@ == eval_error_text(*self),
    {
        match self {
            EvalError::NoMatch => "no connection matches this path",
            EvalError::ConnectionUnavailable => "the matching connection is no longer usable",
        }
    }
}

} // verus!
