use conjure::address::Address;
use conjure::error::{ConnectError, DisconnectError, EvalError};
use conjure::lines::{
    render_connect_failed_line, render_connected_line, render_disconnect_failed_line,
    render_disconnected_line, render_listing_line, render_no_connections_line,
    render_parse_failed_line, render_request_failed_line, render_show_log_failed_line,
    DEFAULT_TAG,
};
use conjure::registry::{Registry, RequestKind};
use conjure::rule::MatchRule;

#[test]
fn default_tag_is_fixed() {
    assert_eq!(DEFAULT_TAG, "Conjure");
}

#[test]
fn listing_line_names_key_address_and_pattern() {
    let mut registry: Registry<u8> = Registry::new();
    let done = registry.connect(
        "a".to_string(),
        Address::new("127.0.0.1".to_string(), 7890),
        MatchRule::new("\\.clj$".to_string()).unwrap(),
        Some(0),
    );
    assert_eq!(done, Ok(()));
    assert_eq!(
        render_listing_line(registry.get(0).unwrap()),
        ";; [a] 127.0.0.1:7890 for files matching '\\.clj$'"
    );
}

#[test]
fn no_connections_line_is_fixed() {
    assert_eq!(render_no_connections_line(), ";; No connections");
}

#[test]
fn connected_and_disconnected_lines_name_the_key() {
    assert_eq!(render_connected_line("dev"), ";; [dev] Loading conjure.repl...");
    assert_eq!(render_disconnected_line("dev"), ";; [dev] Disconnected");
    assert_eq!(render_connected_line(""), ";; [] Loading conjure.repl...");
}

#[test]
fn connect_error_lines_name_key_and_reason() {
    assert_eq!(
        render_connect_failed_line("dev", ConnectError::DuplicateKey),
        "[dev] Connection error: a connection with this key exists already"
    );
    assert_eq!(
        render_connect_failed_line("dev", ConnectError::Unreachable),
        "[dev] Connection error: the address could not be reached"
    );
}

#[test]
fn disconnect_error_line_names_key_and_reason() {
    assert_eq!(
        render_disconnect_failed_line("dev", DisconnectError::UnknownKey),
        "[dev] Disconnection error: no connection is registered under this key"
    );
}

#[test]
fn request_error_lines_name_no_key() {
    assert_eq!(
        render_request_failed_line(RequestKind::Eval, EvalError::NoMatch),
        "Eval error: no connection matches this path"
    );
    assert_eq!(
        render_request_failed_line(RequestKind::Eval, EvalError::ConnectionUnavailable),
        "Eval error: the matching connection is no longer usable"
    );
    assert_eq!(
        render_request_failed_line(RequestKind::Doc, EvalError::NoMatch),
        "Doc error: no connection matches this path"
    );
    assert_eq!(
        render_request_failed_line(RequestKind::Doc, EvalError::ConnectionUnavailable),
        "Doc error: the matching connection is no longer usable"
    );
}

#[test]
fn parse_and_log_view_error_lines_carry_the_message() {
    assert_eq!(render_parse_failed_line("unexpected token"), "Error parsing command: unexpected token");
    assert_eq!(render_parse_failed_line(""), "Error parsing command: ");
    assert_eq!(
        render_show_log_failed_line("no window"),
        "Failed to show the log window: no window"
    );
}

#[test]
fn errors_describe_themselves() {
    assert_eq!(ConnectError::DuplicateKey.message(), "a connection with this key exists already");
    assert_eq!(ConnectError::Unreachable.message(), "the address could not be reached");
    assert_eq!(DisconnectError::UnknownKey.message(), "no connection is registered under this key");
    assert_eq!(EvalError::NoMatch.message(), "no connection matches this path");
    assert_eq!(EvalError::ConnectionUnavailable.message(), "the matching connection is no longer usable");
}
