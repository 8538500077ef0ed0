//! What holds of every connection, from the first action to the last.
//!
//! A run is the sequence of events that a connection was told of; it fixes the sequence of actions
//! that the connection asked for. The laws below speak of every run that can come about, so also of
//! every beginning of one: what they say of the actions asked for so far holds at each moment.

use vstd::prelude::*;

use crate::connect::{ActionView, ConnectionView, EventView};
#[allow(unused_imports)]
use crate::parse_req::{decided, leftover, parsed_from_front, request_in};
use crate::parse_req::{Method, ParseErrorView, ReaderView};
#[allow(unused_imports)]
use crate::resp::{law_responses_differ, parse_error_status};
use crate::resp::Status;

verus! {

/// Where a connection is after `events`, and the actions that it has asked for on the way.
pub open spec fn run(max_headers: nat, max_header_bytes: nat, events: Seq<EventView>) -> (
    ConnectionView,
    Seq<ActionView>,
)
    decreases events.len(),
{
    if events.len() == 0 {
        let (connection, action) = ConnectionView::start(max_headers, max_header_bytes);
        (connection, seq![action])
    } else {
        let (before, actions) = run(max_headers, max_header_bytes, events.drop_last());
        let (after, action) = before.step(events.last());
        (after, actions.push(action))
    }
}

/// Whether `events` can come about: each answers the action that was asked for last.
pub open spec fn possible(
    max_headers: nat,
    max_header_bytes: nat,
    events: Seq<EventView>,
) -> bool
    decreases events.len(),
{
    events.len() > 0 ==> {
        &&& possible(max_headers, max_header_bytes, events.drop_last())
        &&& run(max_headers, max_header_bytes, events.drop_last()).0.accepts(events.last())
    }
}

/// All that the client has sent before the tunnel.
pub open spec fn received(events: Seq<EventView>) -> Seq<u8>
    decreases events.len(),
{
    if events.len() == 0 {
        Seq::empty()
    } else {
        let before = received(events.drop_last());
        match events.last() {
            EventView::Received(data) => before + data,
            _ => before,
        }
    }
}

/// What was to be written to the client, write by write.
pub open spec fn to_client(actions: Seq<ActionView>) -> Seq<Seq<u8>>
    decreases actions.len(),
{
    if actions.len() == 0 {
        Seq::empty()
    } else {
        let before = to_client(actions.drop_last());
        match actions.last() {
            ActionView::WriteClient(bytes) => before.push(bytes),
            _ => before,
        }
    }
}

/// All that was to be written to the target before the tunnel.
pub open spec fn to_upstream(actions: Seq<ActionView>) -> Seq<u8>
    decreases actions.len(),
{
    if actions.len() == 0 {
        Seq::empty()
    } else {
        let before = to_upstream(actions.drop_last());
        match actions.last() {
            ActionView::WriteUpstream(bytes) => before + bytes,
            _ => before,
        }
    }
}

/// The targets that were to be connected to, with the method of the request that named them.
pub open spec fn targets(actions: Seq<ActionView>) -> Seq<(Method, Seq<char>)>
    decreases actions.len(),
{
    if actions.len() == 0 {
        Seq::empty()
    } else {
        let before = targets(actions.drop_last());
        match actions.last() {
            ActionView::Connect(method, path) => before.push((method, path)),
            _ => before,
        }
    }
}

/// The bytes behind a head of `len` bytes.
pub open spec fn behind(bytes: Seq<u8>, len: nat) -> Seq<u8> {
    match leftover(bytes, len) {
        Some(rest) => rest,
        None => Seq::empty(),
    }
}

/// The target was reached.
pub open spec fn reached(events: Seq<EventView>) -> bool {
    exists|i: int| 0 <= i < events.len() && (#[trigger] events[i]) is Connected
}

/// The target could not be reached.
pub open spec fn unreachable(events: Seq<EventView>) -> bool {
    exists|i: int| 0 <= i < events.len() && (#[trigger] events[i]) is ConnectFailed
}

/// The client has stopped sending before its request was complete.
pub open spec fn stopped(events: Seq<EventView>) -> bool {
    exists|i: int|
        0 <= i < events.len() && (#[trigger] events[i] matches EventView::Received(data)
            && data.len() == 0)
}

/// A read has failed.
pub open spec fn read_failed(events: Seq<EventView>) -> bool {
    exists|i: int| 0 <= i < events.len() && (#[trigger] events[i]) is ReadFailed
}

/// Nothing has gone wrong: whatever was asked for was done, and the client has not stopped sending
/// before its request was complete.
pub open spec fn smooth(events: Seq<EventView>) -> bool {
    forall|i: int|
        0 <= i < events.len() ==> match #[trigger] events[i] {
            EventView::Received(data) => data.len() > 0,
            EventView::Connected | EventView::Written | EventView::TunnelClosed => true,
            _ => false,
        }
}

/// The failure to write or to copy that was the last thing to happen, if it was.
pub open spec fn failure(events: Seq<EventView>) -> Option<std::io::Error> {
    if events.len() == 0 {
        None
    } else {
        match events.last() {
            EventView::WriteFailed(e) | EventView::TunnelFailed(e) => Some(e),
            _ => None,
        }
    }
}

/// The answer to a client whose request was not served before a target was even tried.
pub open spec fn refusal(max_headers: nat, events: Seq<EventView>) -> Option<Status> {
    let got = received(events);
    if got.len() == 0 {
        if stopped(events) {
            None
        } else {
            Some(Status::BadRequest)
        }
    } else {
        match request_in(got, max_headers) {
            Err(ParseErrorView::Incomplete) => Some(Status::BadRequest),
            Err(e) => parse_error_status(e),
            Ok(_) => None,
        }
    }
}

/// The writes that carry an answer, where there is one.
pub open spec fn written(answer: Option<Status>) -> Seq<Seq<u8>> {
    match answer {
        Some(status) => seq![status.response()],
        None => Seq::empty(),
    }
}

/// No target was tried, and nothing was written to one.
spec fn untried(actions: Seq<ActionView>) -> bool {
    &&& targets(actions) == Seq::<(Method, Seq<char>)>::empty()
    &&& to_upstream(actions) == Seq::<u8>::empty()
}

/// The target of the request in `got` was tried, and no other.
spec fn tried(max_headers: nat, got: Seq<u8>, actions: Seq<ActionView>) -> bool {
    &&& got.len() > 0
    &&& request_in(got, max_headers) matches Ok((method, path, _)) && targets(actions) == seq![
        (method, path),
    ]
}

/// There is no request in what was received, and no target was tried; the client was told. If the
/// client would have sent more, there was no room for it.
spec fn refused(
    max_headers: nat,
    max_header_bytes: nat,
    events: Seq<EventView>,
    actions: Seq<ActionView>,
) -> bool {
    let got = received(events);
    &&& got.len() > 0 ==> request_in(got, max_headers) is Err
    &&& (got.len() == 0 || !decided(max_headers, got)) && !stopped(events) && !read_failed(events)
        ==> got.len() == max_header_bytes
    &&& stopped(events) || read_failed(events) ==> got.len() == 0 || !decided(max_headers, got)
    &&& !(stopped(events) && read_failed(events))
    &&& untried(actions)
    &&& to_client(actions) == written(refusal(max_headers, events))
}

spec fn request_len(max_headers: nat, got: Seq<u8>) -> nat {
    request_in(got, max_headers)->Ok_0.2
}

/// What holds after `events`, state by state.
spec fn inv(max_headers: nat, max_header_bytes: nat, events: Seq<EventView>) -> bool {
    let (connection, actions) = run(max_headers, max_header_bytes, events);
    let got = received(events);
    let rest = behind(got, request_len(max_headers, got));
    let silent = to_client(actions) == Seq::<Seq<u8>>::empty();
    &&& got.len() <= max_header_bytes
    &&& actions.len() == events.len() + 1
    &&& targets(actions).len() > 0 ==> !stopped(events) && !read_failed(events)
    &&& match connection {
        ConnectionView::Reading(reader) => {
            &&& reader == ReaderView { received: got, max_headers, max_header_bytes }
            &&& got.len() < max_header_bytes
            &&& events.len() <= got.len()
            &&& got.len() > 0 ==> request_in(got, max_headers) == Err::<
                (Method, Seq<char>, nat),
                ParseErrorView,
            >(ParseErrorView::Incomplete)
            &&& actions.last() == ActionView::Read((max_header_bytes - got.len()) as nat)
            &&& untried(actions)
            &&& silent
            &&& !stopped(events)
            &&& !read_failed(events)
            &&& !reached(events)
            &&& !unreachable(events)
        },
        ConnectionView::Connecting(waiting) => {
            &&& tried(max_headers, got, actions)
            &&& waiting == leftover(got, request_len(max_headers, got))
            &&& to_upstream(actions) == Seq::<u8>::empty()
            &&& silent
            &&& events.len() <= max_header_bytes
            &&& actions.last() is Connect
            &&& !reached(events)
            &&& !unreachable(events)
        },
        ConnectionView::Confirming(waiting) => {
            &&& tried(max_headers, got, actions)
            &&& waiting == leftover(got, request_len(max_headers, got))
            &&& to_upstream(actions) == Seq::<u8>::empty()
            &&& to_client(actions) == seq![Status::Okay.response()]
            &&& events.len() <= max_header_bytes + 1
            &&& actions.last() is WriteClient
            &&& reached(events)
            &&& !unreachable(events)
        },
        ConnectionView::Forwarding => {
            &&& tried(max_headers, got, actions)
            &&& to_upstream(actions) == rest
            &&& to_client(actions) == seq![Status::Okay.response()]
            &&& events.len() <= max_header_bytes + 2
            &&& actions.last() is WriteUpstream
            &&& reached(events)
            &&& !unreachable(events)
        },
        ConnectionView::Tunneling => {
            &&& tried(max_headers, got, actions)
            &&& to_upstream(actions) == rest
            &&& to_client(actions) == seq![Status::Okay.response()]
            &&& events.len() <= max_header_bytes + 3
            &&& actions.last() is Tunnel
            &&& reached(events)
            &&& !unreachable(events)
        },
        ConnectionView::Replying => {
            &&& events.len() <= max_header_bytes + 1
            &&& actions.last() is WriteClient
            &&& to_upstream(actions) == Seq::<u8>::empty()
            &&& !reached(events)
            &&& {
                ||| refused(max_headers, max_header_bytes, events, actions) && !unreachable(events)
                ||| tried(max_headers, got, actions) && unreachable(events) && to_client(actions)
                    == seq![Status::BadGateway.response()]
            }
        },
        ConnectionView::Finished => {
            &&& events.len() <= max_header_bytes + 4
            &&& actions.last() is Finish
            &&& {
                ||| {
                    &&& refused(max_headers, max_header_bytes, events, actions)
                    &&& !reached(events)
                    &&& !unreachable(events)
                }
                ||| {
                    &&& tried(max_headers, got, actions)
                    &&& !reached(events)
                    &&& unreachable(events)
                    &&& to_upstream(actions) == Seq::<u8>::empty()
                    &&& to_client(actions) == seq![Status::BadGateway.response()]
                }
                ||| {
                    &&& tried(max_headers, got, actions)
                    &&& reached(events)
                    &&& !unreachable(events)
                    &&& to_upstream(actions) == rest || (failure(events) is Some && to_upstream(
                        actions,
                    ) == Seq::<u8>::empty())
                    &&& to_client(actions) == seq![Status::Okay.response()]
                }
            }
        },
    }
}

/// What one more event adds to the history.
proof fn lemma_event_pushed(events: Seq<EventView>)
    requires
        events.len() > 0,
    ensures
        reached(events) == (reached(events.drop_last()) || events.last() is Connected),
        unreachable(events) == (unreachable(events.drop_last()) || events.last() is ConnectFailed),
        stopped(events) == (stopped(events.drop_last()) || (events.last() matches
            EventView::Received(data) && data.len() == 0)),
        read_failed(events) == (read_failed(events.drop_last()) || events.last() is ReadFailed),
{
    let before = events.drop_last();
    let last = events.len() - 1;
    assert(events.last() == events[last]);
    assert forall|i: int| 0 <= i < last implies #[trigger] before[i] == events[i] by {}
    if reached(before) {
        let i = choose|i: int| 0 <= i < before.len() && (#[trigger] before[i]) is Connected;
        assert(events[i] is Connected);
    }
    if unreachable(before) {
        let i = choose|i: int| 0 <= i < before.len() && (#[trigger] before[i]) is ConnectFailed;
        assert(events[i] is ConnectFailed);
    }
    if stopped(before) {
        let i = choose|i: int|
            0 <= i < before.len() && (#[trigger] before[i] matches EventView::Received(data)
                && data.len() == 0);
        assert(events[i] is Received);
    }
    if read_failed(before) {
        let i = choose|i: int| 0 <= i < before.len() && (#[trigger] before[i]) is ReadFailed;
        assert(events[i] is ReadFailed);
    }
    if read_failed(events) && !(events.last() is ReadFailed) {
        let i = choose|i: int| 0 <= i < events.len() && (#[trigger] events[i]) is ReadFailed;
        assert(before[i] is ReadFailed);
    }
    if reached(events) && !(events.last() is Connected) {
        let i = choose|i: int| 0 <= i < events.len() && (#[trigger] events[i]) is Connected;
        assert(before[i] is Connected);
    }
    if unreachable(events) && !(events.last() is ConnectFailed) {
        let i = choose|i: int| 0 <= i < events.len() && (#[trigger] events[i]) is ConnectFailed;
        assert(before[i] is ConnectFailed);
    }
    if stopped(events) && !(events.last() matches EventView::Received(data) && data.len() == 0) {
        let i = choose|i: int|
            0 <= i < events.len() && (#[trigger] events[i] matches EventView::Received(data)
                && data.len() == 0);
        assert(before[i] is Received);
    }
}

proof fn lemma_inv(max_headers: nat, max_header_bytes: nat, events: Seq<EventView>)
    requires
        possible(max_headers, max_header_bytes, events),
    ensures
        inv(max_headers, max_header_bytes, events),
    decreases events.len(),
{
    let (connection, actions) = run(max_headers, max_header_bytes, events);
    reveal_with_fuel(to_client, 2);
    reveal_with_fuel(to_upstream, 2);
    reveal_with_fuel(targets, 2);
    if events.len() == 0 {
        assert(actions.drop_last() =~= Seq::<ActionView>::empty());
        assert(!stopped(events) && !read_failed(events));
    } else {
        let before_events = events.drop_last();
        lemma_inv(max_headers, max_header_bytes, before_events);
        lemma_event_pushed(events);
        let (before, before_actions) = run(max_headers, max_header_bytes, before_events);
        assert(actions.drop_last() =~= before_actions);
    }
}

/// Reading goes on for as long as the client may send more, and has to: the limit is not reached, no
/// read has failed or come back empty, and the head is not complete. Each read is for all that there
/// is still room for.
pub proof fn law_reading(max_headers: nat, max_header_bytes: nat, events: Seq<EventView>)
    requires
        possible(max_headers, max_header_bytes, events),
    ensures
        ({
            let got = received(events);
            let action = run(max_headers, max_header_bytes, events).1.last();
            &&& run(max_headers, max_header_bytes, events).0 is Reading <==> action is Read
            &&& action is Read <==> {
                &&& got.len() < max_header_bytes
                &&& !stopped(events)
                &&& !read_failed(events)
                &&& got.len() == 0 || request_in(got, max_headers) == Err::<
                    (Method, Seq<char>, nat),
                    ParseErrorView,
                >(ParseErrorView::Incomplete)
            }
            &&& action matches ActionView::Read(room) ==> room == max_header_bytes - got.len()
        }),
{
    lemma_inv(max_headers, max_header_bytes, events);
}

/// A client is cut off, with its request not complete, by a read that fails or comes back empty, or
/// by the limit; and by nothing else.
pub proof fn law_cut_off(max_headers: nat, max_header_bytes: nat, events: Seq<EventView>)
    requires
        possible(max_headers, max_header_bytes, events),
        stopped(events) || read_failed(events),
    ensures
        !(stopped(events) && read_failed(events)),
        received(events).len() > 0 ==> request_in(received(events), max_headers) == Err::<
            (Method, Seq<char>, nat),
            ParseErrorView,
        >(ParseErrorView::Incomplete),
{
    lemma_inv(max_headers, max_header_bytes, events);
}

/// Every action can be answered, by what can come of it and by nothing else: a read by no more bytes
/// than it was for, or by its failure; an attempt to connect, a write and the tunnel by their success
/// or failure; and the last action by nothing.
pub proof fn law_answers(
    max_headers: nat,
    max_header_bytes: nat,
    events: Seq<EventView>,
    event: EventView,
)
    requires
        possible(max_headers, max_header_bytes, events),
    ensures
        possible(max_headers, max_header_bytes, events.push(event)) <==> match run(
            max_headers,
            max_header_bytes,
            events,
        ).1.last() {
            ActionView::Read(room) => match event {
                EventView::Received(data) => data.len() <= room,
                EventView::ReadFailed(_) => true,
                _ => false,
            },
            ActionView::Connect(_, _) => event is Connected || event is ConnectFailed,
            ActionView::WriteClient(_) | ActionView::WriteUpstream(_) => event is Written || event
                is WriteFailed,
            ActionView::Tunnel => event is TunnelClosed || event is TunnelFailed,
            ActionView::Finish(_) => false,
        },
{
    lemma_inv(max_headers, max_header_bytes, events);
    assert(events.push(event).drop_last() =~= events);
}

/// A client that stops before it has sent anything is let go.
pub proof fn law_silent(max_headers: nat, max_header_bytes: nat, events: Seq<EventView>)
    requires
        possible(max_headers, max_header_bytes, events),
        received(events).len() == 0,
        stopped(events),
    ensures
        run(max_headers, max_header_bytes, events).1.last() == ActionView::Finish(Ok(())),
    decreases events.len(),
{
    let actions = run(max_headers, max_header_bytes, events).1;
    lemma_inv(max_headers, max_header_bytes, events);
    law_finish(max_headers, max_header_bytes, events);
    assert(actions.last() is WriteClient ==> to_client(actions).len() > 0);
    lemma_event_pushed(events);
    if stopped(events.drop_last()) {
        law_silent(max_headers, max_header_bytes, events.drop_last());
        law_finish(max_headers, max_header_bytes, events.drop_last());
    }
}

/// While a target is tried, what the client sent behind the head waits.
pub proof fn law_waiting(max_headers: nat, max_header_bytes: nat, events: Seq<EventView>)
    requires
        possible(max_headers, max_header_bytes, events),
        run(max_headers, max_header_bytes, events).1.last() is Connect,
    ensures
        request_in(received(events), max_headers) matches Ok((_, _, len)) && run(
            max_headers,
            max_header_bytes,
            events,
        ).0 == ConnectionView::Connecting(leftover(received(events), len)),
{
    lemma_inv(max_headers, max_header_bytes, events);
}

/// The target of a request is tried, once, as soon as the request is complete; and no other target
/// ever is.
pub proof fn law_targets(max_headers: nat, max_header_bytes: nat, events: Seq<EventView>)
    requires
        possible(max_headers, max_header_bytes, events),
    ensures
        ({
            let got = received(events);
            targets(run(max_headers, max_header_bytes, events).1) == match request_in(
                got,
                max_headers,
            ) {
                Ok((method, path, _)) if got.len() > 0 => seq![(method, path)],
                _ => Seq::<(Method, Seq<char>)>::empty(),
            }
        }),
        received(events).len() > 0 && events.last() is Received ==> (request_in(
            received(events),
            max_headers,
        ) matches Ok((method, path, _)) ==> run(max_headers, max_header_bytes, events).1.last()
            == ActionView::Connect(method, path)),
{
    lemma_inv(max_headers, max_header_bytes, events);
    if events.len() > 0 {
        lemma_inv(max_headers, max_header_bytes, events.drop_last());
        if events.last() is Received && received(events).len() > 0 && !stopped(events) {
            lemma_event_pushed(events);
        }
    }
}

/// One more event, seen from the run so far.
pub(crate) proof fn lemma_pushed(
    max_headers: nat,
    max_header_bytes: nat,
    events: Seq<EventView>,
    event: EventView,
)
    requires
        possible(max_headers, max_header_bytes, events),
        run(max_headers, max_header_bytes, events).0.accepts(event),
    ensures
        possible(max_headers, max_header_bytes, events.push(event)),
        run(max_headers, max_header_bytes, events.push(event)).0 == run(
            max_headers,
            max_header_bytes,
            events,
        ).0.step(event).0,
        run(max_headers, max_header_bytes, events.push(event)).1 == run(
            max_headers,
            max_header_bytes,
            events,
        ).1.push(run(max_headers, max_header_bytes, events).0.step(event).1),
{
    assert(events.push(event).drop_last() =~= events);
}

/// The events that lead from the attempt to reach the target to the tunnel, where all goes well:
/// the target is reached, the client has its "Ok", and the target has what the client sent behind
/// the head, where it sent any.
pub open spec fn all_well(rest: Option<Seq<u8>>) -> Seq<EventView> {
    match rest {
        None => seq![EventView::Connected, EventView::Written],
        Some(_) => seq![EventView::Connected, EventView::Written, EventView::Written],
    }
}

/// A client with a request gets its tunnel, if all goes well with the target.
pub proof fn law_served(max_headers: nat, max_header_bytes: nat, events: Seq<EventView>)
    requires
        possible(max_headers, max_header_bytes, events),
        run(max_headers, max_header_bytes, events).1.last() is Connect,
    ensures
        request_in(received(events), max_headers) matches Ok((_, _, len)) && ({
            let served = events + all_well(leftover(received(events), len));
            &&& possible(max_headers, max_header_bytes, served)
            &&& run(max_headers, max_header_bytes, served).1.last() is Tunnel
        }),
{
    lemma_inv(max_headers, max_header_bytes, events);
    let rest = leftover(received(events), request_len(max_headers, received(events)));
    let one = events.push(EventView::Connected);
    let two = one.push(EventView::Written);
    lemma_pushed(max_headers, max_header_bytes, events, EventView::Connected);
    lemma_pushed(max_headers, max_header_bytes, one, EventView::Written);
    if rest is Some {
        lemma_pushed(max_headers, max_header_bytes, two, EventView::Written);
        assert(two.push(EventView::Written) =~= events + all_well(rest));
    } else {
        assert(two =~= events + all_well(rest));
    }
}

/// A client that names no target, with whatever it sent, gets the answer that its mistake calls for,
/// and no other; no target is tried, and nothing is sent to one.
///
/// A request that is not understood, or has another method than CONNECT, is answered as
/// [`parse_error_status`] says. One that is not complete when the client stops sending, when a read
/// fails or when the limit is reached is a bad request. A client that stops before it has sent
/// anything gets no answer.
pub proof fn law_refused(max_headers: nat, max_header_bytes: nat, events: Seq<EventView>)
    requires
        possible(max_headers, max_header_bytes, events),
        !(run(max_headers, max_header_bytes, events).0 is Reading),
        received(events).len() > 0 ==> request_in(received(events), max_headers) is Err,
    ensures
        ({
            let actions = run(max_headers, max_header_bytes, events).1;
            &&& to_client(actions) == written(refusal(max_headers, events))
            &&& targets(actions) == Seq::<(Method, Seq<char>)>::empty()
            &&& to_upstream(actions) == Seq::<u8>::empty()
        }),
{
    lemma_inv(max_headers, max_header_bytes, events);
}

/// A client whose target cannot be reached is told so, and nothing is sent to the target.
pub proof fn law_unreachable(max_headers: nat, max_header_bytes: nat, events: Seq<EventView>)
    requires
        possible(max_headers, max_header_bytes, events),
        unreachable(events),
    ensures
        ({
            let actions = run(max_headers, max_header_bytes, events).1;
            &&& to_client(actions) == seq![Status::BadGateway.response()]
            &&& to_upstream(actions) == Seq::<u8>::empty()
        }),
{
    lemma_inv(max_headers, max_header_bytes, events);
}

/// The proxy itself writes at most one response to the client. It says "Ok" only, and always, once
/// the target was reached, and "Bad gateway" only once it turned out that it cannot be.
pub proof fn law_one_answer(max_headers: nat, max_header_bytes: nat, events: Seq<EventView>)
    requires
        possible(max_headers, max_header_bytes, events),
    ensures
        ({
            let answers = to_client(run(max_headers, max_header_bytes, events).1);
            &&& answers.len() <= 1
            &&& answers.len() == 1 ==> exists|status: Status|
                answers[0] == #[trigger] status.response()
            &&& reached(events) <==> answers == seq![Status::Okay.response()]
            &&& unreachable(events) <==> answers == seq![Status::BadGateway.response()]
        }),
{
    lemma_inv(max_headers, max_header_bytes, events);
    assert forall|a: Status, b: Status| a != b implies #[trigger] seq![a.response()]
        != #[trigger] seq![b.response()] by {
        law_responses_differ(a, b);
        assert(seq![a.response()][0] == a.response());
        assert(seq![b.response()][0] == b.response());
    }
}

/// When the tunnel begins, the client was told "Ok", and the target was sent just what the client
/// sent behind the head: the tunnel carries on from there, with nothing lost and nothing doubled.
pub proof fn law_tunnel(max_headers: nat, max_header_bytes: nat, events: Seq<EventView>)
    requires
        possible(max_headers, max_header_bytes, events),
        run(max_headers, max_header_bytes, events).1.last() is Tunnel,
    ensures
        ({
            let actions = run(max_headers, max_header_bytes, events).1;
            &&& reached(events)
            &&& to_client(actions) == seq![Status::Okay.response()]
            &&& request_in(received(events), max_headers) matches Ok((method, path, len))
                && targets(actions) == seq![(method, path)] && to_upstream(actions) == behind(
                received(events),
                len,
            )
        }),
{
    lemma_inv(max_headers, max_header_bytes, events);
}

/// Nothing is sent to the target but what the client sent behind the head of its request, and that
/// only after the client was told "Ok".
pub proof fn law_forwarded(max_headers: nat, max_header_bytes: nat, events: Seq<EventView>)
    requires
        possible(max_headers, max_header_bytes, events),
        to_upstream(run(max_headers, max_header_bytes, events).1).len() > 0,
    ensures
        ({
            let actions = run(max_headers, max_header_bytes, events).1;
            &&& to_client(actions) == seq![Status::Okay.response()]
            &&& request_in(received(events), max_headers) matches Ok((_, _, len)) && to_upstream(
                actions,
            ) == behind(received(events), len)
        }),
{
    lemma_inv(max_headers, max_header_bytes, events);
}

/// No more than `max_header_bytes` are read before the tunnel, and every connection comes to an end
/// if its actions do: the events are limited in number.
pub proof fn law_ends(max_headers: nat, max_header_bytes: nat, events: Seq<EventView>)
    requires
        possible(max_headers, max_header_bytes, events),
    ensures
        received(events).len() <= max_header_bytes,
        events.len() <= max_header_bytes + 4,
{
    lemma_inv(max_headers, max_header_bytes, events);
}

/// A connection finishes once, and then takes no more events. It reports an I/O error if and only
/// if the last event was a failure to write or to copy, and then that one; a failure to read or to
/// connect is the client's to hear of.
pub proof fn law_finish(max_headers: nat, max_header_bytes: nat, events: Seq<EventView>)
    requires
        possible(max_headers, max_header_bytes, events),
    ensures
        ({
            let (connection, actions) = run(max_headers, max_header_bytes, events);
            &&& connection is Finished <==> actions.last() is Finish
            &&& connection is Finished ==> forall|event: EventView|
                !(#[trigger] connection.accepts(event))
            &&& failure(events) is Some ==> connection is Finished
            &&& actions.last() matches ActionView::Finish(r) ==> r == match failure(events) {
                Some(e) => Err::<(), std::io::Error>(e),
                None => Ok::<(), std::io::Error>(()),
            }
        }),
{
    lemma_inv(max_headers, max_header_bytes, events);
    if events.len() > 0 {
        lemma_inv(max_headers, max_header_bytes, events.drop_last());
    }
}

/// How the bytes of a client are split over reads makes no difference. Two connections that were
/// sent bytes of the same stream, cut in different places, and both know enough, have found the same
/// request, or the same mistake. They try the same target, or give the same answer, and the target
/// gets the same in the end: what is forwarded up front, and what then comes through the tunnel.
///
/// [`decided_after`](crate::parse_req::decided_after) shows of every stream that it is parsed from
/// the front.
pub proof fn law_split(
    max_headers: nat,
    max_header_bytes: nat,
    stream: Seq<u8>,
    a: Seq<EventView>,
    b: Seq<EventView>,
)
    requires
        possible(max_headers, max_header_bytes, a),
        possible(max_headers, max_header_bytes, b),
        received(a).is_prefix_of(stream),
        received(b).is_prefix_of(stream),
        parsed_from_front(max_headers, stream),
        received(a).len() > 0,
        received(b).len() > 0,
        decided(max_headers, received(a)),
        decided(max_headers, received(b)),
    ensures
        request_in(received(a), max_headers) == request_in(received(b), max_headers),
        ({
            let (x, y) = (received(a), received(b));
            let actions_a = run(max_headers, max_header_bytes, a).1;
            let actions_b = run(max_headers, max_header_bytes, b).1;
            &&& targets(actions_a) == targets(actions_b)
            &&& request_in(x, max_headers) is Err ==> to_client(actions_a) == to_client(actions_b)
            &&& request_in(x, max_headers) matches Ok((_, _, len)) ==> behind(x, len)
                + stream.skip(x.len() as int) == behind(y, len) + stream.skip(y.len() as int)
        }),
{
    lemma_inv(max_headers, max_header_bytes, a);
    lemma_inv(max_headers, max_header_bytes, b);
    let (x, y) = (received(a), received(b));
    assert(stream.take(x.len() as int) =~= x);
    assert(stream.take(y.len() as int) =~= y);
    if request_in(x, max_headers) is Ok {
        let len = request_len(max_headers, x);
        assert(behind(x, len) + stream.skip(x.len() as int) =~= stream.skip(len as int));
        assert(behind(y, len) + stream.skip(y.len() as int) =~= stream.skip(len as int));
    }
}

/// The beginnings of a stream that holds a request: short of the end of the head there is nothing
/// to tell yet, and from there on there is that request.
proof fn lemma_head_in_stream(max_headers: nat, stream: Seq<u8>, i: int)
    requires
        parsed_from_front(max_headers, stream),
        request_in(stream, max_headers) is Ok,
        0 <= i <= stream.len(),
    ensures
        ({
            let len = request_len(max_headers, stream);
            &&& 0 < len <= stream.len()
            &&& i < len ==> !decided(max_headers, stream.take(i))
            &&& i >= len ==> request_in(stream.take(i), max_headers) == request_in(
                stream,
                max_headers,
            )
        }),
{
    let len = request_len(max_headers, stream);
    assert(stream.take(stream.len() as int) =~= stream);
    assert(request_in(stream.take(len as int), max_headers) == request_in(stream, max_headers));
}

/// A client whose stream begins with a request, with a head of `max_header_bytes` at most, is never
/// refused, however its bytes are split over reads. As long as nothing goes wrong, the connection
/// reads on until it has the head, then tries the target of that request, answers "Ok", hands the
/// target all of the stream that follows the head, up front and through the tunnel, and finishes
/// well. None of this depends on anything but the stream.
pub proof fn law_split_served(
    max_headers: nat,
    max_header_bytes: nat,
    stream: Seq<u8>,
    events: Seq<EventView>,
)
    requires
        possible(max_headers, max_header_bytes, events),
        received(events).is_prefix_of(stream),
        parsed_from_front(max_headers, stream),
        request_in(stream, max_headers) matches Ok((_, _, len)) && len <= max_header_bytes,
        smooth(events),
    ensures
        request_in(stream, max_headers) matches Ok((method, path, len)) && ({
            let (connection, actions) = run(max_headers, max_header_bytes, events);
            let got = received(events);
            &&& connection is Reading <==> got.len() < len
            &&& targets(actions) == if got.len() < len {
                Seq::<(Method, Seq<char>)>::empty()
            } else {
                seq![(method, path)]
            }
            &&& to_client(actions) == if reached(events) {
                seq![Status::Okay.response()]
            } else {
                Seq::<Seq<u8>>::empty()
            }
            &&& actions.last() is Tunnel || actions.last() is Finish ==> {
                &&& reached(events)
                &&& to_upstream(actions) + stream.skip(got.len() as int) == stream.skip(len as int)
            }
            &&& actions.last() matches ActionView::Finish(r) ==> r == Ok::<(), std::io::Error>(())
        }),
{
    let got = received(events);
    lemma_inv(max_headers, max_header_bytes, events);
    law_finish(max_headers, max_header_bytes, events);
    lemma_head_in_stream(max_headers, stream, got.len() as int);
    assert(stream.take(got.len() as int) =~= got);
    assert(!stopped(events) && !read_failed(events) && !unreachable(events));
    assert(failure(events) is None) by {
        if events.len() > 0 {
            assert(events.last() == events[events.len() - 1]);
        }
    }
    let len = request_len(max_headers, stream);
    if got.len() >= len {
        assert(behind(got, len) + stream.skip(got.len() as int) =~= stream.skip(len as int));
    }
}

/// Two clients that send the same bytes, split over reads in different ways, are served the same, as
/// long as nothing goes wrong and the head of their request has `max_header_bytes` at most: the same
/// target is tried, the same is written to either client, the targets get the same bytes, and both
/// connections finish well.
pub proof fn law_split_alike(
    max_headers: nat,
    max_header_bytes: nat,
    stream: Seq<u8>,
    a: Seq<EventView>,
    b: Seq<EventView>,
)
    requires
        possible(max_headers, max_header_bytes, a),
        possible(max_headers, max_header_bytes, b),
        received(a).is_prefix_of(stream),
        received(b).is_prefix_of(stream),
        parsed_from_front(max_headers, stream),
        request_in(stream, max_headers) matches Ok((_, _, len)) && len <= max_header_bytes,
        smooth(a),
        smooth(b),
        run(max_headers, max_header_bytes, a).1.last() is Finish,
        run(max_headers, max_header_bytes, b).1.last() is Finish,
    ensures
        ({
            let actions_a = run(max_headers, max_header_bytes, a).1;
            let actions_b = run(max_headers, max_header_bytes, b).1;
            &&& targets(actions_a) == targets(actions_b)
            &&& to_client(actions_a) == to_client(actions_b)
            &&& to_upstream(actions_a) + stream.skip(received(a).len() as int) == to_upstream(
                actions_b,
            ) + stream.skip(received(b).len() as int)
            &&& actions_a.last() == ActionView::Finish(Ok(()))
            &&& actions_b.last() == ActionView::Finish(Ok(()))
        }),
{
    law_split_served(max_headers, max_header_bytes, stream, a);
    law_split_served(max_headers, max_header_bytes, stream, b);
}

} // verus!
