//! What holds of the registry and the dispatcher over whole runs of calls.

use crate::address::AddressView;
use crate::error::{ConnectError, DisconnectError, EvalError};
use crate::lines::{connect_failed_line, parse_failed_line, request_failed_line};
use crate::registry::{
    after_connect, after_disconnect, any_claims, claims, connect_result, disconnect_result,
    distinct_keys, first_claim_at, has_key, keys, lemma_first_is_route, lemma_position_unique,
    lemma_route_first, position, request_for, route, Entry, RequestKind, RequestView,
};
use crate::system::{
    dialed_effect, request_effect, step, EffectView, EventView, State, SystemView,
};
use vstd::prelude::*;

verus! {

/// A call that changes the registry.
pub enum Call<L> {
    /// `connect` with what dialing gave.
    Connect { key: Seq<char>, addr: AddressView, rule: Seq<char>, link: Option<L> },
    /// `disconnect`.
    Disconnect { key: Seq<char> },
}

/// What the registry holds after `call`.
pub open spec fn after_call<L>(s: Seq<Entry<L>>, call: Call<L>) -> Seq<Entry<L>> {
    match call {
        Call::Connect { key, addr, rule, link } => after_connect(s, key, addr, rule, link),
        Call::Disconnect { key } => after_disconnect(s, key),
    }
}

/// What the registry holds after `calls`, made in order.
pub open spec fn after_calls<L>(s: Seq<Entry<L>>, calls: Seq<Call<L>>) -> Seq<Entry<L>>
    decreases calls.len(),
{
    if calls.len() == 0 {
        s
    } else {
        after_call(after_calls(s, calls.drop_last()), calls.last())
    }
}

/// The `connect` call that registers `e`, its address reached.
pub open spec fn connect_call<L>(e: Entry<L>) -> Call<L> {
    Call::Connect { key: e.key, addr: e.addr, rule: e.rule, link: Some(e.link) }
}

/// The `connect` calls that register `entries`, in order.
pub open spec fn connect_calls<L>(entries: Seq<Entry<L>>) -> Seq<Call<L>> {
    Seq::new(entries.len(), |i: int| connect_call(entries[i]))
}

/// Every call keeps the keys distinct.
pub proof fn law_call_keeps_keys_distinct<L>(s: Seq<Entry<L>>, call: Call<L>)
    requires
        distinct_keys(s),
    ensures
        distinct_keys(after_call(s, call)),
{
    match call {
        Call::Connect { key, addr, rule, link } => {},
        Call::Disconnect { key } => {
            if has_key(s, key) {
                let p = position(s, key);
                let t = s.remove(p);
                assert forall|i: int, j: int| 0 <= i < j < t.len() implies
                    (#[trigger] t[i]).key != (#[trigger] t[j]).key
                by {
                    let a = if i < p { i } else { i + 1 };
                    let b = if j < p { j } else { j + 1 };
                    assert(t[i] == s[a]);
                    assert(t[j] == s[b]);
                }
            }
        },
    }
}

/// In every state that calls lead to from a registry with distinct keys,
/// the keys are distinct.
pub proof fn law_keys_stay_distinct<L>(s: Seq<Entry<L>>, calls: Seq<Call<L>>)
    requires
        distinct_keys(s),
    ensures
        distinct_keys(after_calls(s, calls)),
    decreases calls.len(),
{
    if calls.len() > 0 {
        law_keys_stay_distinct(s, calls.drop_last());
        law_call_keeps_keys_distinct(after_calls(s, calls.drop_last()), calls.last());
    }
}

/// Connecting under keys that differ from each other and from those
/// already registered succeeds every time, provided each address is reached,
/// and leaves the new connections behind the old ones in the order of the
/// calls.
pub proof fn law_connects_append<L>(s: Seq<Entry<L>>, entries: Seq<Entry<L>>)
    requires
        distinct_keys(s + entries),
    ensures
        after_calls(s, connect_calls(entries)) == s + entries,
        forall|k: int|
            0 <= k < entries.len() ==> connect_result(
                #[trigger] after_calls(s, connect_calls(entries.take(k))),
                entries[k].key,
                Some(entries[k].link),
            ) is Ok,
    decreases entries.len(),
{
    let all = s + entries;
    if entries.len() == 0 {
        assert(all =~= s);
    } else {
        let front = entries.drop_last();
        let last = entries.last();
        let calls = connect_calls(entries);
        assert(connect_calls(front) =~= calls.drop_last());
        assert(calls.last() == connect_call(last));
        let before = s + front;
        assert forall|i: int, j: int| 0 <= i < j < before.len() implies
            (#[trigger] before[i]).key != (#[trigger] before[j]).key
        by {
            assert(before[i] == all[i]);
            assert(before[j] == all[j]);
        }
        law_connects_append(s, front);
        assert(!has_key(before, last.key)) by {
            if has_key(before, last.key) {
                let i = choose|i: int| 0 <= i < before.len() && (#[trigger] before[i]).key == last.key;
                assert(all[i] == before[i]);
                assert(all[all.len() - 1] == last);
            }
        }
        assert(before.push(last) =~= all);
        assert forall|k: int| 0 <= k < entries.len() implies connect_result(
            #[trigger] after_calls(s, connect_calls(entries.take(k))),
            entries[k].key,
            Some(entries[k].link),
        ) is Ok by {
            if k < front.len() {
                assert(entries.take(k) =~= front.take(k));
                assert(entries[k] == front[k]);
            } else {
                assert(entries.take(k) =~= front);
            }
        }
    }
}

/// Connecting under distinct keys on an empty registry succeeds every time,
/// provided each address is reached, and the listing then shows exactly
/// those keys in the order of the calls.
pub proof fn law_distinct_connects_list_in_order<L>(entries: Seq<Entry<L>>)
    requires
        distinct_keys(entries),
    ensures
        after_calls(Seq::<Entry<L>>::empty(), connect_calls(entries)) == entries,
        keys(after_calls(Seq::<Entry<L>>::empty(), connect_calls(entries))) == keys(entries),
        forall|k: int|
            0 <= k < entries.len() ==> connect_result(
                #[trigger] after_calls(Seq::<Entry<L>>::empty(), connect_calls(entries.take(k))),
                entries[k].key,
                Some(entries[k].link),
            ) is Ok,
{
    assert(Seq::<Entry<L>>::empty() + entries =~= entries);
    law_connects_append(Seq::<Entry<L>>::empty(), entries);
}

/// Whether `calls` holds a `connect` of `key`.
pub open spec fn connects<L>(calls: Seq<Call<L>>, key: Seq<char>) -> bool {
    exists|i: int|
        0 <= i < calls.len() && (#[trigger] calls[i]) is Connect && calls[i]->Connect_key == key
}

/// Whether `calls` holds a `disconnect` of `key`.
pub open spec fn disconnects<L>(calls: Seq<Call<L>>, key: Seq<char>) -> bool {
    exists|i: int|
        0 <= i < calls.len() && (#[trigger] calls[i]) is Disconnect && calls[i]->Disconnect_key
            == key
}

/// A call that is no `disconnect` of an entry's key leaves the entry in
/// the registry.
pub proof fn law_call_keeps_entry<L>(s: Seq<Entry<L>>, call: Call<L>, e: Entry<L>)
    requires
        s.contains(e),
        !(call is Disconnect && call->Disconnect_key == e.key),
    ensures
        after_call(s, call).contains(e),
{
    let i = choose|i: int| 0 <= i < s.len() && s[i] == e;
    match call {
        Call::Connect { key, addr, rule, link } => {
            let t = after_call(s, call);
            assert(t[i] == e);
        },
        Call::Disconnect { key } => {
            if has_key(s, key) {
                let p = position(s, key);
                let t = s.remove(p);
                if i < p {
                    assert(t[i] == e);
                } else {
                    assert(t[i - 1] == e);
                }
            }
        },
    }
}

/// A call that is no `connect` of a key leaves an unregistered key
/// unregistered.
pub proof fn law_call_keeps_key_free<L>(s: Seq<Entry<L>>, call: Call<L>, key: Seq<char>)
    requires
        !has_key(s, key),
        !(call is Connect && call->Connect_key == key),
    ensures
        !has_key(after_call(s, call), key),
{
    let t = after_call(s, call);
    if has_key(t, key) {
        let i = choose|i: int| 0 <= i < t.len() && (#[trigger] t[i]).key == key;
        match call {
            Call::Connect { key: new_key, addr, rule, link } => {
                if i < s.len() {
                    assert(s[i] == t[i]);
                }
            },
            Call::Disconnect { key: old_key } => {
                if has_key(s, old_key) {
                    let p = position(s, old_key);
                    let a = if i < p { i } else { i + 1 };
                    assert(s[a] == t[i]);
                }
            },
        }
    }
}

/// A second `connect` under a key, with no `disconnect` of that key since
/// the first, is refused as a duplicate and leaves the registry as it was,
/// the first connection in it.
pub proof fn law_second_connect_is_duplicate<L>(
    s: Seq<Entry<L>>,
    first: Entry<L>,
    calls: Seq<Call<L>>,
    addr: AddressView,
    rule: Seq<char>,
    link: Option<L>,
)
    requires
        !has_key(s, first.key),
        !disconnects(calls, first.key),
    ensures
        ({
            let connected = after_call(s, connect_call(first));
            let later = after_calls(connected, calls);
            &&& later.contains(first)
            &&& connect_result(later, first.key, link) == Err::<(), ConnectError>(
                ConnectError::DuplicateKey,
            )
            &&& after_connect(later, first.key, addr, rule, link) == later
        }),
    decreases calls.len(),
{
    let connected = after_call(s, connect_call(first));
    assert(connected[s.len() as int] == first);
    if calls.len() > 0 {
        let front = calls.drop_last();
        assert forall|i: int| 0 <= i < front.len() implies
            !((#[trigger] front[i]) is Disconnect && front[i]->Disconnect_key == first.key)
        by {
            assert(front[i] == calls[i]);
        }
        law_second_connect_is_duplicate(s, first, front, addr, rule, link);
        assert(calls.last() == calls[calls.len() - 1]);
        law_call_keeps_entry(after_calls(connected, front), calls.last(), first);
    }
    let later = after_calls(connected, calls);
    let i = choose|i: int| 0 <= i < later.len() && later[i] == first;
    assert(later[i].key == first.key);
}

/// A `disconnect` of a key that no call has connected answers `UnknownKey`
/// and leaves the registry as it was.
pub proof fn law_disconnect_of_unconnected_key<L>(calls: Seq<Call<L>>, key: Seq<char>)
    requires
        !connects(calls, key),
    ensures
        ({
            let s = after_calls(Seq::<Entry<L>>::empty(), calls);
            &&& !has_key(s, key)
            &&& disconnect_result(s, key) == Err::<(), DisconnectError>(DisconnectError::UnknownKey)
            &&& after_disconnect(s, key) == s
        }),
    decreases calls.len(),
{
    if calls.len() > 0 {
        let front = calls.drop_last();
        assert forall|i: int| 0 <= i < front.len() implies
            !((#[trigger] front[i]) is Connect && front[i]->Connect_key == key)
        by {
            assert(front[i] == calls[i]);
        }
        law_disconnect_of_unconnected_key(front, key);
        assert(calls.last() == calls[calls.len() - 1]);
        law_call_keeps_key_free(after_calls(Seq::<Entry<L>>::empty(), front), calls.last(), key);
    }
}

/// After a `disconnect` the key is free: it is no longer listed, and a
/// `connect` under it succeeds if the address is reached.
pub proof fn law_disconnect_frees_key<L>(s: Seq<Entry<L>>, key: Seq<char>, link: L)
    requires
        distinct_keys(s),
    ensures
        !has_key(after_disconnect(s, key), key),
        !keys(after_disconnect(s, key)).contains(key),
        connect_result(after_disconnect(s, key), key, Some(link)) is Ok,
{
    let t = after_disconnect(s, key);
    if has_key(t, key) {
        let i = choose|i: int| 0 <= i < t.len() && (#[trigger] t[i]).key == key;
        let p = position(s, key);
        let a = if i < p { i } else { i + 1 };
        assert(s[a] == t[i]);
    }
    if keys(t).contains(key) {
        let i = choose|i: int| 0 <= i < keys(t).len() && keys(t)[i] == key;
        assert(t[i].key == key);
    }
}

/// After a `connect` under a key and a `disconnect` of that key, the key
/// is no longer listed, and the next `connect` under it succeeds if the
/// address is reached. If the first `connect` succeeded, the registry is
/// back as it was before the two calls.
pub proof fn law_connect_then_disconnect<L>(
    s: Seq<Entry<L>>,
    key: Seq<char>,
    addr: AddressView,
    rule: Seq<char>,
    link: Option<L>,
    next: L,
)
    requires
        distinct_keys(s),
    ensures
        ({
            let connected = after_connect(s, key, addr, rule, link);
            let gone = after_disconnect(connected, key);
            &&& !keys(gone).contains(key)
            &&& connect_result(gone, key, Some(next)) is Ok
            &&& connect_result(s, key, link) is Ok ==> gone == s
        }),
{
    let connected = after_connect(s, key, addr, rule, link);
    law_call_keeps_keys_distinct(s, Call::Connect { key, addr, rule, link });
    law_disconnect_frees_key(connected, key, next);
    if connect_result(s, key, link) is Ok {
        lemma_position_unique(connected, key, s.len() as int);
        assert(connected.remove(s.len() as int) =~= s);
    }
}

/// A request for a path that no rule claims fails with `NoMatch`, and the
/// dispatcher answers with an error line: nothing is sent.
pub proof fn law_unclaimed_path_sends_nothing<L>(
    registry: Seq<Entry<L>>,
    kind: RequestKind,
    text: Seq<char>,
    path: Seq<char>,
)
    requires
        !any_claims(registry, path),
    ensures
        request_for(registry, kind, text, path) == Err::<RequestView, EvalError>(
            EvalError::NoMatch,
        ),
        request_effect(registry, kind, text, path) == (EffectView::WriteErrorLine {
            text: request_failed_line(kind, EvalError::NoMatch),
        }),
        !(request_effect(registry, kind, text, path) is Send),
{
    lemma_route_first(registry, path);
}

/// A request for a path that some rule claims is made, and goes to the
/// earliest registered connection whose rule claims the path.
pub proof fn law_claimed_path_is_served<L>(
    registry: Seq<Entry<L>>,
    kind: RequestKind,
    text: Seq<char>,
    path: Seq<char>,
)
    requires
        any_claims(registry, path),
    ensures
        request_for(registry, kind, text, path) matches Ok(request) && first_claim_at(
            registry,
            path,
            request.target,
        ) && request.key == registry[request.target].key && request.kind == kind && request.text
            == text,
{
    lemma_route_first(registry, path);
}

/// Of two connections whose rules both claim a path, the later registered
/// one is never the target.
pub proof fn law_first_registered_wins<L>(s: Seq<Entry<L>>, path: Seq<char>, i: int, j: int)
    requires
        0 <= i < j < s.len(),
        claims(s[i], path),
        claims(s[j], path),
    ensures
        route(s, path) matches Some(t) && t <= i,
        route(s, path) != Some(j),
{
    lemma_route_first(s, path);
}

/// When two connections whose rules both claim a path are registered one
/// after the other, and no earlier connection claims the path, requests for
/// it go to the one that was registered first.
pub proof fn law_earlier_of_two_serves<L>(
    s: Seq<Entry<L>>,
    a: Entry<L>,
    b: Entry<L>,
    path: Seq<char>,
)
    requires
        !any_claims(s, path),
        !has_key(s, a.key),
        !has_key(s, b.key),
        a.key != b.key,
        claims(a, path),
        claims(b, path),
    ensures
        ({
            let both = after_call(after_call(s, connect_call(a)), connect_call(b));
            &&& both == s.push(a).push(b)
            &&& route(both, path) == Some(s.len() as int)
            &&& both[s.len() as int] == a
        }),
{
    let one = after_call(s, connect_call(a));
    assert(one == s.push(a));
    assert(!has_key(one, b.key)) by {
        if has_key(one, b.key) {
            let i = choose|i: int| 0 <= i < one.len() && (#[trigger] one[i]).key == b.key;
            if i < s.len() {
                assert(s[i] == one[i]);
            }
        }
    }
    let both = after_call(one, connect_call(b));
    assert(both == s.push(a).push(b));
    assert forall|j: int| 0 <= j < s.len() implies !claims(#[trigger] both[j], path) by {
        assert(both[j] == s[j]);
    }
    lemma_first_is_route(both, path, s.len() as int);
}

/// Input that could not be read costs a running dispatcher exactly one
/// error line and changes neither its state nor its registry.
pub proof fn law_malformed_input_changes_nothing<L>(before: SystemView<L>, message: Seq<char>)
    requires
        before.state == State::Running,
    ensures
        step(before, Err(message)) == (
            before,
            EffectView::WriteErrorLine { text: parse_failed_line(message) },
        ),
{
}

/// A running dispatcher keeps running on every input but `Quit`, whatever
/// becomes of the operation, and answers `Stop` to `Quit` alone.
pub proof fn law_only_quit_terminates<L>(
    before: SystemView<L>,
    input: Result<EventView, Seq<char>>,
)
    requires
        before.state == State::Running,
    ensures
        step(before, input).0.state == State::Terminated <==> input == Ok::<
            EventView,
            Seq<char>,
        >(EventView::Quit),
        step(before, input).1 == EffectView::Stop <==> input == Ok::<EventView, Seq<char>>(
            EventView::Quit,
        ),
{
}

/// A terminated dispatcher stays terminated and unchanged.
pub proof fn law_terminated_stays<L>(before: SystemView<L>, input: Result<EventView, Seq<char>>)
    requires
        before.state == State::Terminated,
    ensures
        step(before, input) == (before, EffectView::Stop),
{
}

/// No step of the dispatcher lets two connections share a key, and none
/// changes the tag.
pub proof fn law_step_keeps_keys_distinct<L>(
    before: SystemView<L>,
    input: Result<EventView, Seq<char>>,
)
    requires
        distinct_keys(before.registry),
    ensures
        distinct_keys(step(before, input).0.registry),
        step(before, input).0.tag == before.tag,
{
    match input {
        Ok(EventView::Disconnect { key }) => {
            law_call_keeps_keys_distinct(before.registry, Call::Disconnect { key });
        },
        _ => {},
    }
}

/// A dial that comes back for a key that is taken is refused as a
/// duplicate, whatever it brought.
pub proof fn law_dial_for_taken_key_is_refused<L>(
    registry: Seq<Entry<L>>,
    tag: Seq<char>,
    key: Seq<char>,
    link: Option<L>,
)
    requires
        has_key(registry, key),
    ensures
        dialed_effect(registry, tag, key, link) == (EffectView::WriteErrorLine {
            text: connect_failed_line(key, ConnectError::DuplicateKey),
        }),
{
}

/// One turn of a run: something that changes the dispatcher.
pub enum Turn<L> {
    /// An input was handled.
    Input { input: Result<EventView, Seq<char>> },
    /// A dial came back.
    Dialed { key: Seq<char>, addr: AddressView, rule: Seq<char>, link: Option<L> },
    /// The source of events was exhausted.
    Closed,
}

/// The dispatcher after `turn`.
pub open spec fn after_turn<L>(before: SystemView<L>, turn: Turn<L>) -> SystemView<L> {
    match turn {
        Turn::Input { input } => step(before, input).0,
        Turn::Dialed { key, addr, rule, link } => SystemView {
            registry: after_connect(before.registry, key, addr, rule, link),
            ..before
        },
        Turn::Closed => SystemView { state: State::Terminated, ..before },
    }
}

/// The dispatcher after `turns`, taken in order.
pub open spec fn after_turns<L>(before: SystemView<L>, turns: Seq<Turn<L>>) -> SystemView<L>
    decreases turns.len(),
{
    if turns.len() == 0 {
        before
    } else {
        after_turn(after_turns(before, turns.drop_last()), turns.last())
    }
}

/// Whether `turn` ends a run: it is a `Quit` event or the end of the
/// events.
pub open spec fn ends_run<L>(turn: Turn<L>) -> bool {
    turn is Closed || (turn matches Turn::Input { input } && input == Ok::<EventView, Seq<char>>(
        EventView::Quit,
    ))
}

/// A run that starts running is terminated exactly if one of its turns
/// ended it: no failed operation and no unreadable input stops the
/// dispatcher.
pub proof fn law_run_ends_by_quit_alone<L>(before: SystemView<L>, turns: Seq<Turn<L>>)
    requires
        before.state == State::Running,
    ensures
        after_turns(before, turns).state == State::Terminated <==> exists|i: int|
            0 <= i < turns.len() && ends_run(#[trigger] turns[i]),
    decreases turns.len(),
{
    if turns.len() > 0 {
        let front = turns.drop_last();
        law_run_ends_by_quit_alone(before, front);
        let last = turns.last();
        assert(last == turns[turns.len() - 1]);
        if exists|i: int| 0 <= i < front.len() && ends_run(#[trigger] front[i]) {
            let i = choose|i: int| 0 <= i < front.len() && ends_run(#[trigger] front[i]);
            assert(front[i] == turns[i]);
        }
        if exists|i: int| 0 <= i < turns.len() && ends_run(#[trigger] turns[i]) {
            let i = choose|i: int| 0 <= i < turns.len() && ends_run(#[trigger] turns[i]);
            if i < front.len() {
                assert(front[i] == turns[i]);
            }
        }
    }
}

/// In every state of a run that starts with distinct keys, the keys are
/// distinct, and the tag is the one the run started with.
pub proof fn law_run_keeps_keys_distinct<L>(before: SystemView<L>, turns: Seq<Turn<L>>)
    requires
        distinct_keys(before.registry),
    ensures
        distinct_keys(after_turns(before, turns).registry),
        after_turns(before, turns).tag == before.tag,
    decreases turns.len(),
{
    if turns.len() > 0 {
        law_run_keeps_keys_distinct(before, turns.drop_last());
        let middle = after_turns(before, turns.drop_last());
        match turns.last() {
            Turn::Input { input } => {
                law_step_keeps_keys_distinct(middle, input);
            },
            Turn::Dialed { key, addr, rule, link } => {
                law_call_keeps_keys_distinct(middle.registry, Call::Connect { key, addr, rule, link });
            },
            Turn::Closed => {},
        }
    }
}

} // verus!
