//! The dispatcher: a two-state machine that takes one editor event at a
//! time, applies it to the registry and answers with the effect that the
//! caller is to carry out.

use crate::address::{Address, AddressView};
use crate::error::{ConnectError, ParseError, SinkError};
use crate::lines::{
    connect_failed_line, connected_line, disconnect_failed_line, disconnected_line,
    listing_lines, no_connections_line, parse_failed_line, render_connect_failed_line,
    render_connected_line, render_disconnect_failed_line, render_disconnected_line,
    render_listing_line, render_no_connections_line, render_parse_failed_line,
    render_request_failed_line, render_show_log_failed_line, request_failed_line,
    show_log_failed_line, texts, DEFAULT_TAG,
};
use crate::registry::{
    after_connect, after_disconnect, connect_result, delivery_result, disconnect_result,
    distinct_keys, has_key, request_for, Entry, Registry, Request, RequestKind, RequestView,
};
use crate::rule::MatchRule;
use vstd::prelude::*;
use vstd::string::*;

verus! {

/// Whether the dispatcher still takes events.
#[derive(Clone, Copy, Debug, PartialEq, Eq, Structural)]
pub enum State {
    Running,
    Terminated,
}

/// A command from the editor.
#[derive(Debug, PartialEq, Eq)]
pub enum Event {
    Quit,
    List,
    ShowLog,
    Connect { key: String, addr: Address, rule: MatchRule },
    Disconnect { key: String },
    Eval { code: String, path: String },
    Doc { name: String, path: String },
}

/// An event as plain values.
pub enum EventView {
    Quit,
    List,
    ShowLog,
    Connect { key: Seq<char>, addr: AddressView, rule: Seq<char> },
    Disconnect { key: Seq<char> },
    Eval { code: Seq<char>, path: Seq<char> },
    Doc { name: Seq<char>, path: Seq<char> },
}

impl View for Event {
    type V = EventView;

    open spec fn view(&self) -> EventView {
        match self {
            Event::Quit => EventView::Quit,
            Event::List => EventView::List,
            Event::ShowLog => EventView::ShowLog,
            Event::Connect { key, addr, rule } => EventView::Connect {
                key: key@,
                addr: addr@,
                rule: rule@,
            },
            Event::Disconnect { key } => EventView::Disconnect { key: key@ },
            Event::Eval { code, path } => EventView::Eval { code: code@, path: path@ },
            Event::Doc { name, path } => EventView::Doc { name: name@, path: path@ },
        }
    }
}

/// What the caller is to do after the dispatcher has taken an input.
#[derive(Debug, PartialEq, Eq)]
pub enum Effect {
    /// Stop taking events.
    Stop,
    /// Do nothing.
    Nothing,
    /// Log one line under a tag.
    WriteLine { tag: String, text: String },
    /// Log several lines under a tag.
    WriteLines { tag: String, lines: Vec<String> },
    /// Log one error line.
    WriteErrorLine { text: String },
    /// Bring up the log view, then report the outcome to `log_shown`.
    ShowLog,
    /// Dial the address, then report the outcome to `dialed`.
    Dial { key: String, addr: Address, rule: MatchRule },
    /// Send the request over its target's link, then report the outcome to
    /// `sent`.
    Send { request: Request },
}

/// An effect as plain values.
pub enum EffectView {
    Stop,
    Nothing,
    WriteLine { tag: Seq<char>, text: Seq<char> },
    WriteLines { tag: Seq<char>, lines: Seq<Seq<char>> },
    WriteErrorLine { text: Seq<char> },
    ShowLog,
    Dial { key: Seq<char>, addr: AddressView, rule: Seq<char> },
    Send { request: RequestView },
}

impl View for Effect {
    type V = EffectView;

    open spec fn view(&self) -> EffectView {
        match self {
            Effect::Stop => EffectView::Stop,
            Effect::Nothing => EffectView::Nothing,
            Effect::WriteLine { tag, text } => EffectView::WriteLine { tag: tag@, text: text@ },
            Effect::WriteLines { tag, lines } => EffectView::WriteLines {
                tag: tag@,
                lines: texts(lines@),
            },
            Effect::WriteErrorLine { text } => EffectView::WriteErrorLine { text: text@ },
            Effect::ShowLog => EffectView::ShowLog,
            Effect::Dial { key, addr, rule } => EffectView::Dial {
                key: key@,
                addr: addr@,
                rule: rule@,
            },
            Effect::Send { request } => EffectView::Send { request: request@ },
        }
    }
}

/// The effect of a `List` event: the listing of the connections, or the
/// one line that says there are none.
pub open spec fn list_effect<L>(registry: Seq<Entry<L>>, tag: Seq<char>) -> EffectView {
    if registry.len() > 0 {
        EffectView::WriteLines { tag, lines: listing_lines(registry) }
    } else {
        EffectView::WriteLine { tag, text: no_connections_line() }
    }
}

/// The effect of a `Connect` event: an error line if the key is taken, and
/// the order to dial otherwise.
pub open spec fn connect_effect<L>(
    registry: Seq<Entry<L>>,
    key: Seq<char>,
    addr: AddressView,
    rule: Seq<char>,
) -> EffectView {
    if has_key(registry, key) {
        EffectView::WriteErrorLine { text: connect_failed_line(key, ConnectError::DuplicateKey) }
    } else {
        EffectView::Dial { key, addr, rule }
    }
}

/// The effect of a dial that came back with `link`, on a registry that held
/// `registry` before the connection was entered: the line that reports the new
/// connection, or an error line that names the key.
pub open spec fn dialed_effect<L>(
    registry: Seq<Entry<L>>,
    tag: Seq<char>,
    key: Seq<char>,
    link: Option<L>,
) -> EffectView {
    match connect_result(registry, key, link) {
        Ok(_) => EffectView::WriteLine { tag, text: connected_line(key) },
        Err(e) => EffectView::WriteErrorLine { text: connect_failed_line(key, e) },
    }
}

/// The effect of a `Disconnect` event: the line that reports the removal,
/// or an error line that names the key.
pub open spec fn disconnect_effect<L>(
    registry: Seq<Entry<L>>,
    tag: Seq<char>,
    key: Seq<char>,
) -> EffectView {
    match disconnect_result(registry, key) {
        Ok(_) => EffectView::WriteLine { tag, text: disconnected_line(key) },
        Err(e) => EffectView::WriteErrorLine { text: disconnect_failed_line(key, e) },
    }
}

/// The effect of an `Eval` or `Doc` event: the order to send the request to
/// the connection that serves the path, or an error line if none does.
pub open spec fn request_effect<L>(
    registry: Seq<Entry<L>>,
    kind: RequestKind,
    text: Seq<char>,
    path: Seq<char>,
) -> EffectView {
    match request_for(registry, kind, text, path) {
        Ok(request) => EffectView::Send { request },
        Err(e) => EffectView::WriteErrorLine { text: request_failed_line(kind, e) },
    }
}

/// The effect of an attempt to send a request of kind `kind`: nothing if
/// the text went out, an error line if it did not.
pub open spec fn sent_effect(kind: RequestKind, delivered: bool) -> EffectView {
    match delivery_result(delivered) {
        Ok(_) => EffectView::Nothing,
        Err(e) => EffectView::WriteErrorLine { text: request_failed_line(kind, e) },
    }
}

/// The outcome of an attempt to bring up the log view as plain values: the
/// message of the failure, if it failed.
pub open spec fn outcome_view(outcome: Result<(), SinkError>) -> Result<(), Seq<char>> {
    match outcome {
        Ok(_) => Ok(()),
        Err(e) => Err(e.message@),
    }
}

/// The effect of an attempt to bring up the log view: nothing if it
/// worked, an error line if it did not. The failure is reported, and the
/// run goes on.
pub open spec fn log_shown_effect(outcome: Result<(), Seq<char>>) -> EffectView {
    match outcome {
        Ok(_) => EffectView::Nothing,
        Err(message) => EffectView::WriteErrorLine { text: show_log_failed_line(message) },
    }
}

/// The effect of `event` on a running dispatcher whose registry holds
/// `registry` and that logs under `tag`.
pub open spec fn event_effect<L>(registry: Seq<Entry<L>>, tag: Seq<char>, event: EventView) -> EffectView {
    match event {
        EventView::Quit => EffectView::Stop,
        EventView::List => list_effect(registry, tag),
        EventView::ShowLog => EffectView::ShowLog,
        EventView::Connect { key, addr, rule } => connect_effect(registry, key, addr, rule),
        EventView::Disconnect { key } => disconnect_effect(registry, tag, key),
        EventView::Eval { code, path } => request_effect(registry, RequestKind::Eval, code, path),
        EventView::Doc { name, path } => request_effect(registry, RequestKind::Doc, name, path),
    }
}

/// What the registry holds after `event`: only `Disconnect` changes it at
/// once; `Connect` changes it when the dial has come back.
pub open spec fn registry_after<L>(registry: Seq<Entry<L>>, event: EventView) -> Seq<Entry<L>> {
    match event {
        EventView::Disconnect { key } => after_disconnect(registry, key),
        _ => registry,
    }
}

/// The state after `event`: only `Quit` ends the run.
pub open spec fn state_after(event: EventView) -> State {
    match event {
        EventView::Quit => State::Terminated,
        _ => State::Running,
    }
}

/// An input as plain values: an event, or the message of the failure to
/// read one.
pub open spec fn input_view(input: Result<Event, ParseError>) -> Result<EventView, Seq<char>> {
    match input {
        Ok(event) => Ok(event@),
        Err(e) => Err(e.message@),
    }
}

/// The dispatcher as plain values.
pub struct SystemView<L> {
    pub registry: Seq<Entry<L>>,
    pub state: State,
    pub tag: Seq<char>,
}

/// One step of the dispatcher: the dispatcher after `input`, and the effect
/// that it answers with. A terminated dispatcher stays as it is and answers
/// `Stop`. A running one applies an event to its registry; input that could
/// not be read costs one error line and changes nothing.
pub open spec fn step<L>(before: SystemView<L>, input: Result<EventView, Seq<char>>) -> (
    SystemView<L>,
    EffectView,
) {
    if before.state == State::Terminated {
        (before, EffectView::Stop)
    } else {
        match input {
            Ok(event) => (
                SystemView {
                    registry: registry_after(before.registry, event),
                    state: state_after(event),
                    tag: before.tag,
                },
                event_effect(before.registry, before.tag, event),
            ),
            Err(message) => (
                before,
                EffectView::WriteErrorLine { text: parse_failed_line(message) },
            ),
        }
    }
}

/// The dispatcher: the registry, the state of the run, and the tag under
/// which it logs.
pub struct System<L> {
    registry: Registry<L>,
    state: State,
    tag: String,
}

impl<L> View for System<L> {
    type V = SystemView<L>;

    closed spec fn view(&self) -> SystemView<L> {
        SystemView { registry: self.registry@, state: self.state, tag: self.tag@ }
    }
}

impl<L> System<L> {
    /// A running dispatcher without connections that logs under the
    /// default tag.
    pub fn start() -> (system: System<L>)
        ensures
            system@ == (SystemView {
                registry: Seq::<Entry<L>>::empty(),
                state: State::Running,
                tag: DEFAULT_TAG@,
            }),
    {
        System { registry: Registry::new(), state: State::Running, tag: String::from_str(DEFAULT_TAG) }
    }

    /// A running dispatcher without connections that logs under `tag`.
    pub fn start_with_tag(tag: String) -> (system: System<L>)
        ensures
            system@ == (SystemView {
                registry: Seq::<Entry<L>>::empty(),
                state: State::Running,
                tag: tag@,
            }),
    {
        System { registry: Registry::new(), state: State::Running, tag }
    }

    /// The state of the run.
    pub fn state(&self) -> (state: State)
        ensures
            state == self@.state,
    {
        self.state
    }

    /// The registry.
    pub fn registry(&self) -> (registry: &Registry<L>)
        ensures
            registry@ == self@.registry,
    {
        &self.registry
    }

    /// The tag under which the dispatcher logs.
    pub fn tag(&self) -> (tag: &str)
        ensures
            tag@ == self@.tag,
    {
        self.tag.as_str()
    }

    /// Ends the run, as when the source of events is exhausted.
    pub fn close(&mut self)
        ensures
            final(self)@ == (SystemView { state: State::Terminated, ..old(self)@ }),
    {
        self.state = State::Terminated;
    }

    /// Takes one input and answers with the effect to carry out.
    pub fn handle(&mut self, input: Result<Event, ParseError>) -> (effect: Effect)
        ensures
            (final(self)@, effect@) == step(old(self)@, input_view(input)),
            old(self)@.state == State::Running && input is Err ==> final(self)@ == old(self)@
                && effect@ == (EffectView::WriteErrorLine {
                text: parse_failed_line(input->Err_0.message@),
            }),
    {
        if let State::Terminated = self.state {
            return Effect::Stop;
        }
        match input {
            Ok(event) => match event {
                Event::Quit => {
                    self.state = State::Terminated;
                    Effect::Stop
                },
                Event::List => self.handle_list(),
                Event::ShowLog => self.handle_show_log(),
                Event::Connect { key, addr, rule } => self.handle_connect(key, addr, rule),
                Event::Disconnect { key } => self.handle_disconnect(key),
                Event::Eval { code, path } => self.handle_eval(code, path),
                Event::Doc { name, path } => self.handle_doc(name, path),
            },
            Err(e) => Effect::WriteErrorLine { text: render_parse_failed_line(e.message.as_str()) },
        }
    }

    /// Lists the connections, one line each, or says that there are none.
    pub fn handle_list(&self) -> (effect: Effect)
        ensures
            effect@ == list_effect(self@.registry, self@.tag),
    {
        if self.registry.has_connections() {
            let all = self.registry.list();
            let mut lines: Vec<String> = Vec::new();
            let mut i: usize = 0;
            while i < all.len()
                invariant
                    i <= all@.len(),
                    all@.len() == self.registry@.len(),
                    forall|j: int| 0 <= j < all@.len() ==> (#[trigger] all@[j])@ == self.registry@[j],
                    lines@.len() == i,
                    forall|j: int| 0 <= j < i ==> (#[trigger] lines@[j])@ == listing_lines(self.registry@)[j],
                decreases all@.len() - i,
            {
                lines.push(render_listing_line(all[i]));
                i += 1;
            }
            assert(texts(lines@) =~= listing_lines(self.registry@));
            Effect::WriteLines { tag: self.tag.clone(), lines }
        } else {
            Effect::WriteLine { tag: self.tag.clone(), text: render_no_connections_line() }
        }
    }

    /// Asks for the log view to be brought up.
    pub fn handle_show_log(&self) -> (effect: Effect)
        ensures
            effect@ == EffectView::ShowLog,
    {
        Effect::ShowLog
    }

    /// Refuses a key that is taken, and orders the dial otherwise.
    pub fn handle_connect(&self, key: String, addr: Address, rule: MatchRule) -> (effect: Effect)
        ensures
            effect@ == connect_effect(self@.registry, key@, addr@, rule@),
    {
        if self.registry.contains_key(key.as_str()) {
            Effect::WriteErrorLine {
                text: render_connect_failed_line(key.as_str(), ConnectError::DuplicateKey),
            }
        } else {
            Effect::Dial { key, addr, rule }
        }
    }

    /// Removes the connection under `key` and reports how that went.
    pub fn handle_disconnect(&mut self, key: String) -> (effect: Effect)
        ensures
            effect@ == disconnect_effect(old(self)@.registry, old(self)@.tag, key@),
            final(self)@ == (SystemView {
                registry: after_disconnect(old(self)@.registry, key@),
                ..old(self)@
            }),
            distinct_keys(final(self)@.registry),
    {
        match self.registry.disconnect(key.as_str()) {
            Ok(_) => Effect::WriteLine {
                tag: self.tag.clone(),
                text: render_disconnected_line(key.as_str()),
            },
            Err(e) => Effect::WriteErrorLine {
                text: render_disconnect_failed_line(key.as_str(), e),
            },
        }
    }

    /// Routes `code` by `path` and orders it sent, or reports that no
    /// connection serves the path.
    pub fn handle_eval(&self, code: String, path: String) -> (effect: Effect)
        ensures
            effect@ == request_effect(self@.registry, RequestKind::Eval, code@, path@),
    {
        match self.registry.eval(code.as_str(), path.as_str()) {
            Ok(request) => Effect::Send { request },
            Err(e) => Effect::WriteErrorLine {
                text: render_request_failed_line(RequestKind::Eval, e),
            },
        }
    }

    /// Routes a documentation lookup for `name` by `path` and orders it
    /// sent, or reports that no connection serves the path.
    pub fn handle_doc(&self, name: String, path: String) -> (effect: Effect)
        ensures
            effect@ == request_effect(self@.registry, RequestKind::Doc, name@, path@),
    {
        match self.registry.doc(name.as_str(), path.as_str()) {
            Ok(request) => Effect::Send { request },
            Err(e) => Effect::WriteErrorLine {
                text: render_request_failed_line(RequestKind::Doc, e),
            },
        }
    }

    /// Takes the outcome of a dial that `Effect::Dial` ordered: `link` is
    /// the link to the backend, or `None` if the address could not be
    /// reached. Enters the connection in the registry and reports how that
    /// went.
    pub fn dialed(&mut self, key: String, addr: Address, rule: MatchRule, link: Option<L>) -> (effect:
        Effect)
        ensures
            effect@ == dialed_effect(old(self)@.registry, old(self)@.tag, key@, link),
            final(self)@ == (SystemView {
                registry: after_connect(old(self)@.registry, key@, addr@, rule@, link),
                ..old(self)@
            }),
            distinct_keys(final(self)@.registry),
    {
        let line_key = key.clone();
        match self.registry.connect(key, addr, rule, link) {
            Ok(_) => Effect::WriteLine {
                tag: self.tag.clone(),
                text: render_connected_line(line_key.as_str()),
            },
            Err(e) => Effect::WriteErrorLine {
                text: render_connect_failed_line(line_key.as_str(), e),
            },
        }
    }

    /// Takes the outcome of a send that `Effect::Send` ordered: whether the
    /// text of `request` went out over the link.
    pub fn sent(&self, request: &Request, delivered: bool) -> (effect: Effect)
        ensures
            effect@ == sent_effect(request@.kind, delivered),
    {
        match request.conclude(delivered) {
            Ok(_) => Effect::Nothing,
            Err(e) => Effect::WriteErrorLine { text: render_request_failed_line(request.kind, e) },
        }
    }

    /// Takes the outcome of the attempt to bring up the log view that
    /// `Effect::ShowLog` ordered.
    pub fn log_shown(&self, outcome: Result<(), SinkError>) -> (effect: Effect)
        ensures
            effect@ == log_shown_effect(outcome_view(outcome)),
    {
        match outcome {
            Ok(_) => Effect::Nothing,
            Err(e) => Effect::WriteErrorLine {
                text: render_show_log_failed_line(e.message.as_str()),
            },
        }
    }
}

} // verus!
