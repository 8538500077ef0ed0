//! What the proxy is for, said of the bytes that come and go.
//!
//! The laws here speak of what `httparse` finds in the bytes of the client, of the bytes that the
//! client and the target are sent, and of nothing in between.

use vstd::prelude::*;
#[allow(unused_imports)]
use vstd::utf8::encode_utf8;

use crate::connect::{
    Action, ActionView, ConnectionView, Error, ErrorView, Event, EventView, MAX_HEADERS_PER_REQ,
    MAX_HEADER_BYTES,
};
#[allow(unused_imports)]
use crate::connect::outcome_view;
#[allow(unused_imports)]
use crate::laws::{
    law_cut_off, law_one_answer, law_reading, law_refused, law_silent, law_split_served,
    law_targets, law_tunnel, law_waiting, lemma_pushed, possible, reached, read_failed, received,
    run, smooth, stopped, targets, to_client, to_upstream,
};
use crate::outside::{Head, HeadView};
#[allow(unused_imports)]
use crate::outside::{error_text, head_result_view, header_table_fits, request_head};
#[allow(unused_imports)]
use crate::parse_req::{
    decided, heads_from_front, law_method, limits_fit, parsed_from_front, parsed_view, request_in,
    request_view,
};
use crate::parse_req::{Method, ParseError, ParseErrorView, Progress, ProgressView, ReaderView};
#[allow(unused_imports)]
use crate::resp::{law_response_bytes, parse_error_status};
use crate::resp::Status;

verus! {

/// `httparse` finds a complete head in `buf`: it takes up `len` bytes, and asks with the method
/// spelt C, O, N, N, E, C, T for `target`.
pub open spec fn asks_for(
    max_headers: nat,
    buf: Seq<u8>,
    target: Seq<char>,
    len: nat,
) -> bool {
    request_head(buf, max_headers) == Ok::<HeadView, httparse::Error>(
        HeadView::Complete {
            len,
            method: Some(seq!['C', 'O', 'N', 'N', 'E', 'C', 'T']),
            path: Some(target),
        },
    )
}

/// `httparse` finds a complete head in `buf`, with another method.
pub open spec fn asks_otherwise(max_headers: nat, buf: Seq<u8>) -> bool {
    request_head(buf, max_headers) matches Ok(HeadView::Complete { method: Some(name), .. }) && name
        != seq!['C', 'O', 'N', 'N', 'E', 'C', 'T']
}

/// `httparse` finds nothing wrong in `buf`, but no complete head either.
pub open spec fn asks_nothing_yet(max_headers: nat, buf: Seq<u8>) -> bool {
    request_head(buf, max_headers) == Ok::<HeadView, httparse::Error>(HeadView::Partial)
}

/// The bytes from `len` on, where there are any.
pub open spec fn beyond(bytes: Seq<u8>, len: nat) -> Option<Seq<u8>> {
    if len < bytes.len() {
        Some(bytes.subrange(len as int, bytes.len() as int))
    } else {
        None
    }
}

/// The request in some bytes is the one that `httparse` finds there, with a table of that size: the
/// same target, the same length of the head. It is not complete if and only if `httparse` says so.
/// There is none with another method, and none where `httparse` rejects the bytes.
pub proof fn law_request(max_headers: nat, buf: Seq<u8>)
    ensures
        forall|target: Seq<char>, len: nat|
            #[trigger] asks_for(max_headers, buf, target, len) <==> request_in(buf, max_headers)
                == Ok::<(Method, Seq<char>, nat), ParseErrorView>((Method::Connect, target, len)),
        asks_otherwise(max_headers, buf) <==> request_in(buf, max_headers) == Err::<
            (Method, Seq<char>, nat),
            ParseErrorView,
        >(ParseErrorView::InvalidMethod),
        asks_nothing_yet(max_headers, buf) <==> request_in(buf, max_headers) == Err::<
            (Method, Seq<char>, nat),
            ParseErrorView,
        >(ParseErrorView::Incomplete),
        asks_nothing_yet(max_headers, buf) <==> !decided(max_headers, buf),
        request_head(buf, max_headers) matches Err(e) ==> request_in(buf, max_headers) == Err::<
            (Method, Seq<char>, nat),
            ParseErrorView,
        >(ParseErrorView::Invalid { e: error_text(e) }),
        request_in(buf, max_headers) matches Err(e) ==> {
            ||| e is InvalidMethod
            ||| e is Incomplete
            ||| e is Invalid && request_head(buf, max_headers) is Err
            ||| e is NoMethod && request_head(buf, max_headers) matches Ok(
                HeadView::Complete { method: None, .. },
            )
            ||| e is NoPath && request_head(buf, max_headers) matches Ok(
                HeadView::Complete { path: None, .. },
            )
        },
{
    if let Ok(HeadView::Complete { len, method: Some(name), path }) = request_head(
        buf,
        max_headers,
    ) {
        law_method(name);
    }
}

/// How `httparse` words its errors, letter by letter.
pub proof fn law_error_texts()
    ensures
        error_text(httparse::Error::HeaderName) == "invalid header name"@,
        error_text(httparse::Error::HeaderValue) == "invalid header value"@,
        error_text(httparse::Error::NewLine) == "invalid new line"@,
        error_text(httparse::Error::Status) == "invalid response status"@,
        error_text(httparse::Error::Token) == "invalid token"@,
        error_text(httparse::Error::TooManyHeaders) == "too many headers"@,
        error_text(httparse::Error::Version) == "invalid HTTP version"@,
{
}

/// Every mistake is answered, whatever it is put down to: another method as such, and anything else
/// as a bad request. Only a client that is gone, or has more to say, is not.
pub proof fn law_mistakes(text: Seq<char>)
    ensures
        parse_error_status(ParseErrorView::InvalidMethod) == Some(Status::MethodNotAllowed),
        parse_error_status(ParseErrorView::NoMethod) == Some(Status::BadRequest),
        parse_error_status(ParseErrorView::NoPath) == Some(Status::BadRequest),
        parse_error_status(ParseErrorView::ReqTooLarge) == Some(Status::BadRequest),
        parse_error_status(ParseErrorView::Invalid { e: text }) == Some(Status::BadRequest),
        parse_error_status(ParseErrorView::Io { e: text }) == Some(Status::BadRequest),
        parse_error_status(ParseErrorView::Closed) is None,
        parse_error_status(ParseErrorView::Incomplete) is None,
{
}

/// What a read brings the reader of a request. The bytes are kept as they came, and `httparse` looks
/// at all of them. A complete CONNECT head makes a request, with its target as it stands, and with
/// the bytes behind the head, which together with the head are all that was received. While the
/// head is not complete there is another read, for all that there is room for, unless there is
/// none. An empty read is the end.
pub proof fn law_read(reader: ReaderView, data: Seq<u8>)
    requires
        reader.wf(),
        reader.received.len() + data.len() <= reader.max_header_bytes,
    ensures
        reader.with(data) == (ReaderView {
            received: reader.received + data,
            max_headers: reader.max_headers,
            max_header_bytes: reader.max_header_bytes,
        }),
        ({
            let all = reader.received + data;
            let next = reader.after_read(data);
            &&& data.len() == 0 && reader.received.len() == 0 ==> next == ProgressView::Done(
                Err(ParseErrorView::Closed),
            )
            &&& data.len() == 0 && reader.received.len() > 0 ==> next == ProgressView::Done(
                Err(ParseErrorView::Invalid { e: seq!['e', 'o', 'f'] }),
            )
            &&& data.len() > 0 ==> {
                &&& forall|target: Seq<char>, len: nat| #[trigger]
                    asks_for(reader.max_headers, all, target, len) ==> next == ProgressView::Done(
                        Ok((Method::Connect, target, beyond(all, len))),
                    )
                &&& asks_otherwise(reader.max_headers, all) ==> next == ProgressView::Done(
                    Err(ParseErrorView::InvalidMethod),
                )
                &&& asks_nothing_yet(reader.max_headers, all) ==> next == if all.len()
                    < reader.max_header_bytes {
                    ProgressView::Read((reader.max_header_bytes - all.len()) as nat)
                } else {
                    ProgressView::Done(Err(ParseErrorView::ReqTooLarge))
                }
                &&& request_head(all, reader.max_headers) matches Err(e) ==> next
                    == ProgressView::Done(Err(ParseErrorView::Invalid { e: error_text(e) }))
            }
        }),
{
    let all = reader.received + data;
    law_request(reader.max_headers, all);
    reveal_strlit("eof");
    assert("eof"@ =~= seq!['e', 'o', 'f']);
    assert forall|target: Seq<char>, len: nat| #[trigger]
        asks_for(reader.max_headers, all, target, len) && len < all.len() implies all.skip(
        len as int,
    ) == all.subrange(len as int, all.len() as int) by {
        assert(all.skip(len as int) =~= all.subrange(len as int, all.len() as int));
    }
}

/// A reader asks for all that it has room for, and gives up where it has none.
pub proof fn law_room(reader: ReaderView)
    requires
        reader.wf(),
    ensures
        reader.received.len() < reader.max_header_bytes ==> reader.more() == ProgressView::Read(
            (reader.max_header_bytes - reader.received.len()) as nat,
        ),
        reader.received.len() == reader.max_header_bytes ==> reader.more() == ProgressView::Done(
            Err(ParseErrorView::ReqTooLarge),
        ),
{
}

/// What was found in the bytes received so far is what the reader ends with, with the rest of the
/// bytes behind the head; only where there is nothing yet does it read on.
pub proof fn law_found(
    reader: ReaderView,
    method: Method,
    path: Seq<char>,
    len: nat,
    e: ParseErrorView,
)
    requires
        reader.wf(),
    ensures
        reader.parsed(Ok((method, path, len))) == ProgressView::Done(
            Ok((method, path, beyond(reader.received, len))),
        ),
        !(e is Incomplete) ==> reader.parsed(Err(e)) == ProgressView::Done(Err(e)),
        e is Incomplete && reader.received.len() < reader.max_header_bytes ==> reader.parsed(Err(e))
            == ProgressView::Read((reader.max_header_bytes - reader.received.len()) as nat),
        e is Incomplete && reader.received.len() == reader.max_header_bytes ==> reader.parsed(
            Err(e),
        ) == ProgressView::Done(Err(ParseErrorView::ReqTooLarge)),
{
    if len < reader.received.len() {
        assert(reader.received.skip(len as int) =~= reader.received.subrange(
            len as int,
            reader.received.len() as int,
        ));
    }
}

/// How a connection goes on with a request, and how it ends: a target is tried as it stands, with
/// what is left over kept for it. Another method is answered 405, a target out of reach 502 and any
/// other mistake 400, in full. A client that is gone is not answered, and an I/O error is reported.
pub proof fn law_outcomes(path: Seq<char>, rest: Option<Seq<u8>>, e: std::io::Error)
    ensures
        ConnectionView::requested(Ok((Method::Connect, path, rest))) == (
            ConnectionView::Connecting(rest),
            ActionView::Connect(Method::Connect, path),
        ),
        forall|mistake: ParseErrorView|
            #![trigger ConnectionView::requested(Err(mistake))]
            ConnectionView::requested(Err(mistake)) == ConnectionView::concluded(
                Err(ErrorView::Parse(mistake)),
            ),
        forall|outcome: Result<(), ErrorView>|
            (#[trigger] ConnectionView::concluded(outcome)).0 == if ConnectionView::concluded(
                outcome,
            ).1 is Finish {
                ConnectionView::Finished
            } else {
                ConnectionView::Replying
            },
        ConnectionView::concluded(Ok(())).1 == ActionView::Finish(Ok(())),
        ConnectionView::concluded(Err(ErrorView::Io(e))).1 == ActionView::Finish(Err(e)),
        ConnectionView::concluded(Err(ErrorView::UpstreamConnect(e))).1 == ActionView::WriteClient(
            encode_utf8("HTTP/1.1 502 Bad gateway\r\n\r\n"@),
        ),
        forall|mistake: ParseErrorView|
            #![trigger ConnectionView::concluded(Err(ErrorView::Parse(mistake)))]
            ConnectionView::concluded(Err(ErrorView::Parse(mistake))).1 == if mistake is Closed
                || mistake is Incomplete {
                ActionView::Finish(Ok(()))
            } else if mistake is InvalidMethod {
                ActionView::WriteClient(
                    encode_utf8("HTTP/1.1 405 Method not allowed\r\n\r\n"@),
                )
            } else {
                ActionView::WriteClient(encode_utf8("HTTP/1.1 400 Bad request\r\n\r\n"@))
            },
{
    law_response_bytes();
}

/// The models leave nothing out: each says of a value what is in it.
pub proof fn law_models(
    n: usize,
    bytes: Vec<u8>,
    text: String,
    other: String,
    e: std::io::Error,
    h: httparse::Error,
)
    ensures
        Action::Read(n)@ == ActionView::Read(n as nat),
        Action::Connect(Method::Connect, text)@ == ActionView::Connect(Method::Connect, text@),
        Action::WriteClient(bytes)@ == ActionView::WriteClient(bytes@),
        Action::WriteUpstream(bytes)@ == ActionView::WriteUpstream(bytes@),
        Action::Tunnel@ == ActionView::Tunnel,
        Action::Finish(Ok(()))@ == ActionView::Finish(Ok(())),
        Action::Finish(Err(e))@ == ActionView::Finish(Err(e)),
        Event::Received(bytes)@ == EventView::Received(bytes@),
        Event::ReadFailed(e)@ == EventView::ReadFailed(e),
        Event::Connected@ == EventView::Connected,
        Event::ConnectFailed(e)@ == EventView::ConnectFailed(e),
        Event::Written@ == EventView::Written,
        Event::WriteFailed(e)@ == EventView::WriteFailed(e),
        Event::TunnelClosed@ == EventView::TunnelClosed,
        Event::TunnelFailed(e)@ == EventView::TunnelFailed(e),
        ParseError::NoMethod@ == ParseErrorView::NoMethod,
        ParseError::InvalidMethod@ == ParseErrorView::InvalidMethod,
        ParseError::NoPath@ == ParseErrorView::NoPath,
        ParseError::Incomplete@ == ParseErrorView::Incomplete,
        ParseError::Closed@ == ParseErrorView::Closed,
        ParseError::ReqTooLarge@ == ParseErrorView::ReqTooLarge,
        (ParseError::Invalid { e: text })@ == (ParseErrorView::Invalid { e: text@ }),
        (ParseError::Io { e: text })@ == (ParseErrorView::Io { e: text@ }),
        forall|p: ParseError| (#[trigger] Error::Parse(p)@) == ErrorView::Parse(p@),
        Error::UpstreamConnect(e)@ == ErrorView::UpstreamConnect(e),
        Error::Io(e)@ == ErrorView::Io(e),
        outcome_view(Ok(())) == Ok::<(), ErrorView>(()),
        forall|x: Error| (#[trigger] outcome_view(Err(x))) == Err::<(), ErrorView>(x@),
        Progress::Read(n)@ == ProgressView::Read(n as nat),
        Progress::Done(Ok((Method::Connect, text, None)))@ == ProgressView::Done(
            Ok((Method::Connect, text@, None)),
        ),
        Progress::Done(Ok((Method::Connect, text, Some(bytes))))@ == ProgressView::Done(
            Ok((Method::Connect, text@, Some(bytes@))),
        ),
        forall|p: ParseError|
            (#[trigger] Progress::Done(Err(p))@) == ProgressView::Done(Err(p@)),
        request_view(Ok((Method::Connect, text, None))) == Ok::<
            (Method, Seq<char>, Option<Seq<u8>>),
            ParseErrorView,
        >((Method::Connect, text@, None)),
        request_view(Ok((Method::Connect, text, Some(bytes)))) == Ok::<
            (Method, Seq<char>, Option<Seq<u8>>),
            ParseErrorView,
        >((Method::Connect, text@, Some(bytes@))),
        parsed_view(Ok((Method::Connect, text, n))) == Ok::<
            (Method, Seq<char>, nat),
            ParseErrorView,
        >((Method::Connect, text@, n as nat)),
        (Head::Complete { len: n, method: Some(other), path: Some(text) })@ == (
        HeadView::Complete { len: n as nat, method: Some(other@), path: Some(text@) }),
        (Head::Complete { len: n, method: None, path: Some(text) })@ == (HeadView::Complete {
            len: n as nat,
            method: None,
            path: Some(text@),
        }),
        (Head::Complete { len: n, method: Some(other), path: None })@ == (HeadView::Complete {
            len: n as nat,
            method: Some(other@),
            path: None,
        }),
        Head::Partial@ == HeadView::Partial,
        head_result_view(Err(h)) == Err::<HeadView, httparse::Error>(h),
        forall|head: Head|
            (#[trigger] head_result_view(Ok(head))) == Ok::<HeadView, httparse::Error>(head@),
{
}

/// The proxy allows 32 header fields and 8 KiB, and any limits go for which there can be memory.
pub proof fn law_limits(max_headers: nat, max_header_bytes: nat)
    ensures
        MAX_HEADERS_PER_REQ == 32,
        MAX_HEADER_BYTES == 8192,
        limits_fit(MAX_HEADERS_PER_REQ as nat, MAX_HEADER_BYTES as nat),
        max_headers * (usize::BITS as nat / 2) <= isize::MAX <==> header_table_fits(max_headers),
        limits_fit(max_headers, max_header_bytes) <==> max_headers * (usize::BITS as nat / 2)
            <= isize::MAX && max_header_bytes <= isize::MAX,
{
}

/// As long as the head is not complete, the connection reads on, for all that there is room for,
/// unless the client stops, a read fails or the limit is reached; and only then.
pub proof fn law_reads_on(max_headers: nat, max_header_bytes: nat, events: Seq<EventView>)
    requires
        possible(max_headers, max_header_bytes, events),
    ensures
        ({
            let got = received(events);
            let action = run(max_headers, max_header_bytes, events).1.last();
            &&& action is Read <==> {
                &&& got.len() < max_header_bytes
                &&& !stopped(events)
                &&& !read_failed(events)
                &&& got.len() == 0 || asks_nothing_yet(max_headers, got)
            }
            &&& action matches ActionView::Read(room) ==> room == max_header_bytes - got.len()
        }),
{
    law_reading(max_headers, max_header_bytes, events);
    law_request(max_headers, received(events));
}

/// A target is tried if and only if the client has asked for it, in a complete CONNECT head: just
/// that target, and just once. It is the next thing after the read that completed the head.
pub proof fn law_connects(max_headers: nat, max_header_bytes: nat, events: Seq<EventView>)
    requires
        possible(max_headers, max_header_bytes, events),
    ensures
        ({
            let got = received(events);
            let actions = run(max_headers, max_header_bytes, events).1;
            &&& forall|target: Seq<char>, len: nat|
                got.len() > 0 && #[trigger] asks_for(max_headers, got, target, len) ==> {
                    &&& targets(actions) == seq![(Method::Connect, target)]
                    &&& events.last() is Received ==> actions.last() == ActionView::Connect(
                        Method::Connect,
                        target,
                    )
                }
            &&& targets(actions).len() > 0 ==> got.len() > 0 && exists|
                target: Seq<char>,
                len: nat,
            | #[trigger] asks_for(max_headers, got, target, len)
        }),
{
    let got = received(events);
    law_request(max_headers, got);
    law_targets(max_headers, max_header_bytes, events);
    if let Ok((method, target, len)) = request_in(got, max_headers) {
        assert(method == Method::Connect);
        assert(asks_for(max_headers, got, target, len));
    }
}

/// A client that asks with another method than CONNECT is told "405 Method not allowed", in just
/// these bytes, and nothing else. No target is tried, and nothing is sent to one.
pub proof fn law_other_methods(max_headers: nat, max_header_bytes: nat, events: Seq<EventView>)
    requires
        possible(max_headers, max_header_bytes, events),
        received(events).len() > 0,
        asks_otherwise(max_headers, received(events)),
    ensures
        ({
            let actions = run(max_headers, max_header_bytes, events).1;
            &&& to_client(actions) == seq![
                encode_utf8("HTTP/1.1 405 Method not allowed\r\n\r\n"@),
            ]
            &&& targets(actions) == Seq::<(Method, Seq<char>)>::empty()
            &&& to_upstream(actions) == Seq::<u8>::empty()
        }),
{
    law_reading(max_headers, max_header_bytes, events);
    law_request(max_headers, received(events));
    law_refused(max_headers, max_header_bytes, events);
    law_response_bytes();
}

/// A client whose bytes `httparse` rejects, for whatever reason, is told "400 Bad request", in just
/// these bytes, and nothing else. No target is tried, and nothing is sent to one.
pub proof fn law_rejected(max_headers: nat, max_header_bytes: nat, events: Seq<EventView>)
    requires
        possible(max_headers, max_header_bytes, events),
        received(events).len() > 0,
        request_head(received(events), max_headers) is Err,
    ensures
        ({
            let actions = run(max_headers, max_header_bytes, events).1;
            &&& to_client(actions) == seq![encode_utf8("HTTP/1.1 400 Bad request\r\n\r\n"@)]
            &&& targets(actions) == Seq::<(Method, Seq<char>)>::empty()
            &&& to_upstream(actions) == Seq::<u8>::empty()
        }),
{
    law_reading(max_headers, max_header_bytes, events);
    law_request(max_headers, received(events));
    law_refused(max_headers, max_header_bytes, events);
    law_response_bytes();
}

/// A client whose head is not complete when it stops sending, when a read fails or when there is no
/// room for more is told "400 Bad request", in just these bytes, and nothing else. No target is
/// tried. Only a client that stops before it has sent anything gets no answer; then all is well.
pub proof fn law_not_complete(max_headers: nat, max_header_bytes: nat, events: Seq<EventView>)
    requires
        possible(max_headers, max_header_bytes, events),
        received(events).len() == 0 || asks_nothing_yet(max_headers, received(events)),
        stopped(events) || read_failed(events) || received(events).len() == max_header_bytes,
    ensures
        ({
            let actions = run(max_headers, max_header_bytes, events).1;
            &&& to_client(actions) == if received(events).len() == 0 && stopped(events) {
                Seq::<Seq<u8>>::empty()
            } else {
                seq![encode_utf8("HTTP/1.1 400 Bad request\r\n\r\n"@)]
            }
            &&& received(events).len() == 0 && stopped(events) ==> actions.last()
                == ActionView::Finish(Ok(()))
            &&& targets(actions) == Seq::<(Method, Seq<char>)>::empty()
            &&& to_upstream(actions) == Seq::<u8>::empty()
        }),
{
    law_reading(max_headers, max_header_bytes, events);
    law_request(max_headers, received(events));
    law_refused(max_headers, max_header_bytes, events);
    law_response_bytes();
    if received(events).len() == 0 && stopped(events) {
        law_silent(max_headers, max_header_bytes, events);
    }
}

/// A read that fails or comes back empty is the last one, and finds the head not complete: the
/// client is answered as [`law_not_complete`] says.
pub proof fn law_last_read(max_headers: nat, max_header_bytes: nat, events: Seq<EventView>)
    requires
        possible(max_headers, max_header_bytes, events),
        stopped(events) || read_failed(events),
    ensures
        received(events).len() == 0 || asks_nothing_yet(max_headers, received(events)),
        !(stopped(events) && read_failed(events)),
{
    law_cut_off(max_headers, max_header_bytes, events);
    law_request(max_headers, received(events));
}

/// A client whose target cannot be reached is told "502 Bad gateway", in just these bytes, and
/// nothing else; one whose target is reached is told "200 Ok"; and neither is told to another.
pub proof fn law_gateway(max_headers: nat, max_header_bytes: nat, events: Seq<EventView>)
    requires
        possible(max_headers, max_header_bytes, events),
    ensures
        ({
            let answers = to_client(run(max_headers, max_header_bytes, events).1);
            &&& answers.len() <= 1
            &&& crate::laws::unreachable(events) <==> answers == seq![
                encode_utf8("HTTP/1.1 502 Bad gateway\r\n\r\n"@),
            ]
            &&& reached(events) <==> answers == seq![encode_utf8("HTTP/1.1 200 Ok\r\n\r\n"@)]
        }),
{
    law_one_answer(max_headers, max_header_bytes, events);
    law_response_bytes();
}

/// From the attempt to reach the target on, event by event. The client has its "200 Ok" before the
/// target gets a byte. Then the target gets the bytes behind the head, where there are any, as they
/// came; then the tunnel begins. A target out of reach is a bad gateway. An I/O error after that, or
/// while the client is told, is what the connection ends with; otherwise it ends well.
pub proof fn law_to_the_tunnel(
    max_headers: nat,
    max_header_bytes: nat,
    events: Seq<EventView>,
    target: Seq<char>,
    len: nat,
    e: std::io::Error,
)
    requires
        possible(max_headers, max_header_bytes, events),
        run(max_headers, max_header_bytes, events).1.last() is Connect,
        asks_for(max_headers, received(events), target, len),
    ensures
        ({
            let next = |more: Seq<EventView>|
                run(max_headers, max_header_bytes, events + more).1.last();
            let can = |more: Seq<EventView>|
                possible(max_headers, max_header_bytes, events + more);
            let ok = seq![EventView::Connected];
            let told = ok.push(EventView::Written);
            let tunnel = match beyond(received(events), len) {
                Some(_) => told.push(EventView::Written),
                None => told,
            };
            let lost = seq![EventView::ConnectFailed(e)];
            &&& can(ok) && next(ok) == ActionView::WriteClient(
                encode_utf8("HTTP/1.1 200 Ok\r\n\r\n"@),
            )
            &&& can(told) && next(told) == match beyond(received(events), len) {
                Some(rest) => ActionView::WriteUpstream(rest),
                None => ActionView::Tunnel,
            }
            &&& can(tunnel) && next(tunnel) == ActionView::Tunnel
            &&& can(tunnel.push(EventView::TunnelClosed)) && next(
                tunnel.push(EventView::TunnelClosed),
            ) == ActionView::Finish(Ok(()))
            &&& can(lost) && next(lost) == ActionView::WriteClient(
                encode_utf8("HTTP/1.1 502 Bad gateway\r\n\r\n"@),
            )
            &&& can(lost.push(EventView::Written)) && next(lost.push(EventView::Written))
                == ActionView::Finish(Ok(()))
            &&& can(lost.push(EventView::WriteFailed(e))) && next(
                lost.push(EventView::WriteFailed(e)),
            ) == ActionView::Finish(Err(e))
            &&& can(ok.push(EventView::WriteFailed(e))) && next(ok.push(EventView::WriteFailed(e)))
                == ActionView::Finish(Err(e))
            &&& beyond(received(events), len) is Some ==> can(
                told.push(EventView::WriteFailed(e)),
            ) && next(told.push(EventView::WriteFailed(e))) == ActionView::Finish(Err(e))
            &&& can(tunnel.push(EventView::TunnelFailed(e))) && next(
                tunnel.push(EventView::TunnelFailed(e)),
            ) == ActionView::Finish(Err(e))
        }),
{
    let got = received(events);
    law_request(max_headers, got);
    law_waiting(max_headers, max_header_bytes, events);
    law_response_bytes();
    if len < got.len() {
        assert(got.skip(len as int) =~= got.subrange(len as int, got.len() as int));
    }
    let h = max_headers;
    let b = max_header_bytes;
    let s_ok = seq![EventView::Connected];
    let s_told = s_ok.push(EventView::Written);
    let s_lost = seq![EventView::ConnectFailed(e)];
    let ok = events.push(EventView::Connected);
    let told = ok.push(EventView::Written);
    let lost = events.push(EventView::ConnectFailed(e));
    lemma_pushed(h, b, events, EventView::Connected);
    lemma_pushed(h, b, ok, EventView::Written);
    lemma_pushed(h, b, ok, EventView::WriteFailed(e));
    lemma_pushed(h, b, events, EventView::ConnectFailed(e));
    lemma_pushed(h, b, lost, EventView::Written);
    lemma_pushed(h, b, lost, EventView::WriteFailed(e));
    assert(ok =~= events + s_ok);
    assert(told =~= events + s_told);
    assert(ok.push(EventView::WriteFailed(e)) =~= events + s_ok.push(EventView::WriteFailed(e)));
    assert(lost =~= events + s_lost);
    assert(lost.push(EventView::Written) =~= events + s_lost.push(EventView::Written));
    assert(lost.push(EventView::WriteFailed(e)) =~= events + s_lost.push(
        EventView::WriteFailed(e),
    ));
    let (tunnel, s_tunnel) = if len < got.len() {
        lemma_pushed(h, b, told, EventView::Written);
        lemma_pushed(h, b, told, EventView::WriteFailed(e));
        assert(told.push(EventView::WriteFailed(e)) =~= events + s_told.push(
            EventView::WriteFailed(e),
        ));
        (told.push(EventView::Written), s_told.push(EventView::Written))
    } else {
        (told, s_told)
    };
    assert(tunnel =~= events + s_tunnel);
    lemma_pushed(h, b, tunnel, EventView::TunnelClosed);
    lemma_pushed(h, b, tunnel, EventView::TunnelFailed(e));
    assert(tunnel.push(EventView::TunnelClosed) =~= events + s_tunnel.push(
        EventView::TunnelClosed,
    ));
    assert(tunnel.push(EventView::TunnelFailed(e)) =~= events + s_tunnel.push(
        EventView::TunnelFailed(e),
    ));
}

/// What is parsed from the front is the request, too.
proof fn lemma_from_front(max_headers: nat, stream: Seq<u8>)
    requires
        heads_from_front(max_headers, stream),
    ensures
        parsed_from_front(max_headers, stream),
{
    assert forall|i: int| 0 <= i <= stream.len() implies (request_in(
        #[trigger] stream.take(i),
        max_headers,
    ) matches Ok((_, _, len)) ==> 0 < len <= i && request_in(stream.take(len as int), max_headers)
        == request_in(stream.take(i), max_headers)) by {
        law_request(max_headers, stream.take(i));
        if let Ok((method, path, len)) = request_in(stream.take(i), max_headers) {
            assert(asks_for(max_headers, stream.take(i), path, len));
        }
    }
    assert forall|i: int, j: int|
        #![trigger stream.take(i), stream.take(j)]
        0 <= i <= j <= stream.len() && decided(max_headers, stream.take(i)) implies request_in(
        stream.take(j),
        max_headers,
    ) == request_in(stream.take(i), max_headers) by {
        law_request(max_headers, stream.take(i));
    }
}

/// A client that sends a complete CONNECT head, of `max_header_bytes` at most, is served, however
/// its bytes are split over reads. As long as nothing goes wrong, the connection reads until it has
/// the head, and no further; tries the target that the head asks for; says "200 Ok"; hands the
/// target every byte of the stream behind the head, up front and through the tunnel; and ends well.
pub proof fn law_stream_served(
    max_headers: nat,
    max_header_bytes: nat,
    stream: Seq<u8>,
    target: Seq<char>,
    len: nat,
    events: Seq<EventView>,
)
    requires
        possible(max_headers, max_header_bytes, events),
        received(events).is_prefix_of(stream),
        heads_from_front(max_headers, stream),
        asks_for(max_headers, stream, target, len),
        len <= max_header_bytes,
        smooth(events),
    ensures
        ({
            let actions = run(max_headers, max_header_bytes, events).1;
            let got = received(events);
            &&& actions.last() is Read <==> got.len() < len
            &&& targets(actions) == if got.len() < len {
                Seq::<(Method, Seq<char>)>::empty()
            } else {
                seq![(Method::Connect, target)]
            }
            &&& to_client(actions) == if reached(events) {
                seq![encode_utf8("HTTP/1.1 200 Ok\r\n\r\n"@)]
            } else {
                Seq::<Seq<u8>>::empty()
            }
            &&& actions.last() is Tunnel || actions.last() is Finish ==> {
                &&& reached(events)
                &&& to_upstream(actions) + stream.skip(got.len() as int) == stream.skip(len as int)
            }
            &&& actions.last() matches ActionView::Finish(r) ==> r == Ok::<(), std::io::Error>(())
        }),
{
    lemma_from_front(max_headers, stream);
    law_request(max_headers, stream);
    law_split_served(max_headers, max_header_bytes, stream, events);
    law_reading(max_headers, max_header_bytes, events);
    law_response_bytes();
}

/// When the tunnel begins, the target was sent exactly the bytes behind the head that was found.
pub proof fn law_nothing_lost(
    max_headers: nat,
    max_header_bytes: nat,
    events: Seq<EventView>,
    target: Seq<char>,
    len: nat,
)
    requires
        possible(max_headers, max_header_bytes, events),
        run(max_headers, max_header_bytes, events).1.last() is Tunnel,
        asks_for(max_headers, received(events), target, len),
        len <= received(events).len(),
    ensures
        ({
            let actions = run(max_headers, max_header_bytes, events).1;
            &&& received(events).take(len as int) + to_upstream(actions) == received(events)
            &&& targets(actions) == seq![(Method::Connect, target)]
            &&& to_client(actions) == seq![encode_utf8("HTTP/1.1 200 Ok\r\n\r\n"@)]
        }),
{
    let got = received(events);
    law_tunnel(max_headers, max_header_bytes, events);
    law_request(max_headers, got);
    law_response_bytes();
    assert(got.take(len as int) + to_upstream(run(max_headers, max_header_bytes, events).1) =~= got);
}

} // verus!
