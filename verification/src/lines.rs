//! The lines that the dispatcher writes to the log surface.

use crate::address::address_text;
use crate::error::{
    connect_error_text, disconnect_error_text, eval_error_text, ConnectError, DisconnectError,
    EvalError,
};
use crate::registry::{Connection, Entry, RequestKind};
use vstd::prelude::*;
use vstd::string::*;

verus! {

/// The tag under which lines are logged unless another is chosen.
pub const DEFAULT_TAG: &'static str = "Conjure";

/// The line that lists one connection.
pub open spec fn listing_line<L>(e: Entry<L>) -> Seq<char> {
    ";; ["@ + e.key + "] "@ + address_text(e.addr) + " for files matching '"@ + e.rule + "'"@
}

/// The lines that list the connections of `s`, one each, in order.
pub open spec fn listing_lines<L>(s: Seq<Entry<L>>) -> Seq<Seq<char>> {
    Seq::new(s.len(), |i: int| listing_line(s[i]))
}

/// The line that is logged in place of a listing when there is no
/// connection.
pub open spec fn no_connections_line() -> Seq<char> {
    ";; No connections"@
}

/// The line that reports a new connection under `key`.
pub open spec fn connected_line(key: Seq<char>) -> Seq<char> {
    ";; ["@ + key + "] Loading conjure.repl..."@
}

/// The error line for a failed `connect` of `key`.
pub open spec fn connect_failed_line(key: Seq<char>, e: ConnectError) -> Seq<char> {
    "["@ + key + "] Connection error: "@ + connect_error_text(e)
}

/// The line that reports that the connection under `key` is gone.
pub open spec fn disconnected_line(key: Seq<char>) -> Seq<char> {
    ";; ["@ + key + "] Disconnected"@
}

/// The error line for a failed `disconnect` of `key`.
pub open spec fn disconnect_failed_line(key: Seq<char>, e: DisconnectError) -> Seq<char> {
    "["@ + key + "] Disconnection error: "@ + disconnect_error_text(e)
}

/// The error line for a request of kind `kind` that failed with `e`. It
/// names no key: the target may be unknown.
pub open spec fn request_failed_line(kind: RequestKind, e: EvalError) -> Seq<char> {
    match kind {
        RequestKind::Eval => "Eval error: "@ + eval_error_text(e),
        RequestKind::Doc => "Doc error: "@ + eval_error_text(e),
    }
}

/// The error line for input that could not be read as an event.
pub open spec fn parse_failed_line(message: Seq<char>) -> Seq<char> {
    "Error parsing command: "@ + message
}

/// The error line for a log view that could not be shown.
pub open spec fn show_log_failed_line(message: Seq<char>) -> Seq<char> {
    "Failed to show the log window: "@ + message
}

/// The texts of `lines`.
pub open spec fn texts(lines: Seq<String>) -> Seq<Seq<char>> {
    Seq::new(lines.len(), |i: int| lines[i]@)
}

/// Writes the line that lists `connection`.
pub fn render_listing_line<L>(connection: &Connection<L>) -> (line: String)
    ensures
        line@ == listing_line(connection@),
{
    let mut line = String::from_str(";; [");
    line.append(connection.key());
    line.append("] ");
    let addr = connection.addr().text();
    line.append(addr.as_str());
    line.append(" for files matching '");
    line.append(connection.rule().pattern());
    line.append("'");
    line
}

/// Writes the line that is logged when there is no connection.
pub fn render_no_connections_line() -> (line: String)
    ensures
        line@ == no_connections_line(),
{
    String::from_str(";; No connections")
}

/// Writes the line that reports a new connection under `key`.
pub fn render_connected_line(key: &str) -> (line: String)
    ensures
        line@ == connected_line(key@),
{
    let mut line = String::from_str(";; [");
    line.append(key);
    line.append("] Loading conjure.repl...");
    line
}

/// Writes the error line for a failed `connect` of `key`.
pub fn render_connect_failed_line(key: &str, e: ConnectError) -> (line: String)
    ensures
        line@ == connect_failed_line(key@, e),
{
    let mut line = String::from_str("[");
    line.append(key);
    line.append("] Connection error: ");
    line.append(e.message());
    line
}

/// Writes the line that reports that the connection under `key` is gone.
pub fn render_disconnected_line(key: &str) -> (line: String)
    ensures
        line@ == disconnected_line(key@),
{
    let mut line = String::from_str(";; [");
    line.append(key);
    line.append("] Disconnected");
    line
}

/// Writes the error line for a failed `disconnect` of `key`.
pub fn render_disconnect_failed_line(key: &str, e: DisconnectError) -> (line: String)
    ensures
        line@ == disconnect_failed_line(key@, e),
{
    let mut line = String::from_str("[");
    line.append(key);
    line.append("] Disconnection error: ");
    line.append(e.message());
    line
}

/// Writes the error line for a request of kind `kind` that failed with `e`.
pub fn render_request_failed_line(kind: RequestKind, e: EvalError) -> (line: String)
    ensures
        line@ == request_failed_line(kind, e),
{
    let mut line = match kind {
        RequestKind::Eval => String::from_str("Eval error: "),
        RequestKind::Doc => String::from_str("Doc error: "),
    };
    line.append(e.message());
    line
}

/// Writes the error line for input that could not be read as an event.
pub fn render_parse_failed_line(message: &str) -> (line: String)
    ensures
        line@ == parse_failed_line(message@),
{
    let mut line = String::from_str("Error parsing command: ");
    line.append(message);
    line
}

/// Writes the error line for a log view that could not be shown.
pub fn render_show_log_failed_line(message: &str) -> (line: String)
    ensures
        line@ == show_log_failed_line(message@),
{
    let mut line = String::from_str("Failed to show the log window: ");
    line.append(message);
    line
}

} // verus!
