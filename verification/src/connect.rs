//! Serving one client connection: from the request to the tunnel.

use vstd::prelude::*;

use crate::parse_req::{Method, ParseError, Progress, RequestReader};
#[allow(unused_imports)]
use crate::parse_req::{
    bytes_view, limits_fit, request_view, ParseErrorView, ProgressView, ReaderView, RequestView,
};
use crate::resp::{status_from_upstream_connect_error, Status};
#[allow(unused_imports)]
use crate::resp::parse_error_status;

verus! {

/// How many header fields a request may have.
pub const MAX_HEADERS_PER_REQ: usize = 32;

/// How many bytes may be read before the head of the request has to be complete.
pub const MAX_HEADER_BYTES: usize = 8 * 1024;

/// Why a connection did not become a tunnel, or why the tunnel broke.
#[derive(Debug)]
pub enum Error {
    Parse(ParseError),
    UpstreamConnect(std::io::Error),
    /// An I/O error after the request was read and the target was reached.
    Io(std::io::Error),
}

/// The model of an [`Error`].
pub enum ErrorView {
    Parse(ParseErrorView),
    UpstreamConnect(std::io::Error),
    Io(std::io::Error),
}

impl View for Error {
    type V = ErrorView;

    open spec fn view(&self) -> ErrorView {
        match *self {
            Error::Parse(e) => ErrorView::Parse(e@),
            Error::UpstreamConnect(e) => ErrorView::UpstreamConnect(e),
            Error::Io(e) => ErrorView::Io(e),
        }
    }
}

/// The model of the outcome of an attempt to serve a request.
pub open spec fn outcome_view(outcome: Result<(), Error>) -> Result<(), ErrorView> {
    match outcome {
        Ok(()) => Ok(()),
        Err(e) => Err(e@),
    }
}

impl vstd::std_specs::convert::FromSpecImpl<ParseError> for Error {
    open spec fn obeys_from_spec() -> bool {
        true
    }

    open spec fn from_spec(e: ParseError) -> Self {
        Error::Parse(e)
    }
}

impl From<ParseError> for Error {
    fn from(e: ParseError) -> (r: Self)
        ensures
            r == Error::Parse(e),
    {
        Error::Parse(e)
    }
}

impl vstd::std_specs::convert::FromSpecImpl<std::io::Error> for Error {
    open spec fn obeys_from_spec() -> bool {
        true
    }

    open spec fn from_spec(e: std::io::Error) -> Self {
        Error::Io(e)
    }
}

impl From<std::io::Error> for Error {
    fn from(e: std::io::Error) -> (r: Self)
        ensures
            r == Error::Io(e),
    {
        Error::Io(e)
    }
}

/// What a connection wants done.
#[derive(Debug)]
pub enum Action {
    /// Read from the client, this many bytes at most. Answered by [`Event::Received`] or
    /// [`Event::ReadFailed`].
    Read(usize),
    /// Connect to the target of a request with this method. Answered by [`Event::Connected`] or
    /// [`Event::ConnectFailed`].
    Connect(Method, String),
    /// Write all of this to the client. Answered by [`Event::Written`] or [`Event::WriteFailed`].
    WriteClient(Vec<u8>),
    /// Write all of this to the target. Answered by [`Event::Written`] or [`Event::WriteFailed`].
    WriteUpstream(Vec<u8>),
    /// Copy between the client and the target, both ways, until both are done. Answered by
    /// [`Event::TunnelClosed`] or [`Event::TunnelFailed`].
    Tunnel,
    /// Drop the connection: it ends like this.
    Finish(Result<(), std::io::Error>),
}

/// What came of an [`Action`].
#[derive(Debug)]
pub enum Event {
    /// The client sent this; nothing, where it has stopped sending.
    Received(Vec<u8>),
    ReadFailed(std::io::Error),
    Connected,
    ConnectFailed(std::io::Error),
    Written,
    WriteFailed(std::io::Error),
    TunnelClosed,
    TunnelFailed(std::io::Error),
}

/// The model of an [`Action`].
pub enum ActionView {
    Read(nat),
    Connect(Method, Seq<char>),
    WriteClient(Seq<u8>),
    WriteUpstream(Seq<u8>),
    Tunnel,
    Finish(Result<(), std::io::Error>),
}

impl View for Action {
    type V = ActionView;

    open spec fn view(&self) -> ActionView {
        match *self {
            Action::Read(n) => ActionView::Read(n as nat),
            Action::Connect(method, path) => ActionView::Connect(method, path@),
            Action::WriteClient(bytes) => ActionView::WriteClient(bytes@),
            Action::WriteUpstream(bytes) => ActionView::WriteUpstream(bytes@),
            Action::Tunnel => ActionView::Tunnel,
            Action::Finish(r) => ActionView::Finish(r),
        }
    }
}

/// The model of an [`Event`].
pub enum EventView {
    Received(Seq<u8>),
    ReadFailed(std::io::Error),
    Connected,
    ConnectFailed(std::io::Error),
    Written,
    WriteFailed(std::io::Error),
    TunnelClosed,
    TunnelFailed(std::io::Error),
}

impl View for Event {
    type V = EventView;

    open spec fn view(&self) -> EventView {
        match *self {
            Event::Received(data) => EventView::Received(data@),
            Event::ReadFailed(e) => EventView::ReadFailed(e),
            Event::Connected => EventView::Connected,
            Event::ConnectFailed(e) => EventView::ConnectFailed(e),
            Event::Written => EventView::Written,
            Event::WriteFailed(e) => EventView::WriteFailed(e),
            Event::TunnelClosed => EventView::TunnelClosed,
            Event::TunnelFailed(e) => EventView::TunnelFailed(e),
        }
    }
}

/// The model of a [`Connection`].
pub enum ConnectionView {
    /// The request is being read.
    Reading(ReaderView),
    /// The target is being connected to. What the client sent behind the head waits.
    Connecting(Option<Seq<u8>>),
    /// The client is being told that the target was reached.
    Confirming(Option<Seq<u8>>),
    /// What the client sent behind the head is being written to the target.
    Forwarding,
    /// Bytes are being copied both ways.
    Tunneling,
    /// The client is being told why it is not served.
    Replying,
    /// All is over.
    Finished,
}

impl ConnectionView {
    pub open spec fn wf(self) -> bool {
        self matches ConnectionView::Reading(reader) ==> reader.wf()
    }

    /// Whether `event` can come of what the connection has last asked for.
    pub open spec fn accepts(self, event: EventView) -> bool {
        match self {
            ConnectionView::Reading(reader) => match event {
                EventView::Received(data) => data.len() <= reader.room(),
                EventView::ReadFailed(_) => true,
                _ => false,
            },
            ConnectionView::Connecting(_) => event is Connected || event is ConnectFailed,
            ConnectionView::Confirming(_) | ConnectionView::Forwarding
            | ConnectionView::Replying => event is Written || event is WriteFailed,
            ConnectionView::Tunneling => event is TunnelClosed || event is TunnelFailed,
            ConnectionView::Finished => false,
        }
    }

    /// The end of an attempt to serve a request: the client is told of what went wrong before the
    /// target was reached, unless it is gone. What went wrong later is reported to the caller.
    pub open spec fn concluded(outcome: Result<(), ErrorView>) -> (ConnectionView, ActionView) {
        let finish = |r: Result<(), std::io::Error>|
            (ConnectionView::Finished, ActionView::Finish(r));
        let reply = |status: Status|
            (ConnectionView::Replying, ActionView::WriteClient(status.response()));
        match outcome {
            Ok(()) => finish(Ok(())),
            Err(ErrorView::Parse(e)) => match parse_error_status(e) {
                Some(status) => reply(status),
                None => finish(Ok(())),
            },
            Err(ErrorView::UpstreamConnect(_)) => reply(Status::BadGateway),
            Err(ErrorView::Io(e)) => finish(Err(e)),
        }
    }

    /// A request has come in, or none will.
    pub open spec fn requested(request: Result<RequestView, ParseErrorView>) -> (
        ConnectionView,
        ActionView,
    ) {
        match request {
            Ok((method, path, leftover)) => (
                ConnectionView::Connecting(leftover),
                ActionView::Connect(method, path),
            ),
            Err(e) => ConnectionView::concluded(Err(ErrorView::Parse(e))),
        }
    }

    /// The reader has something to say.
    pub open spec fn progressed(reader: ReaderView, progress: ProgressView) -> (
        ConnectionView,
        ActionView,
    ) {
        match progress {
            ProgressView::Read(n) => (ConnectionView::Reading(reader), ActionView::Read(n)),
            ProgressView::Done(request) => ConnectionView::requested(request),
        }
    }

    /// A connection that was just accepted.
    pub open spec fn start(max_headers: nat, max_header_bytes: nat) -> (
        ConnectionView,
        ActionView,
    ) {
        let reader = ReaderView { received: Seq::empty(), max_headers, max_header_bytes };
        ConnectionView::progressed(reader, reader.more())
    }

    /// What is next after an event.
    pub open spec fn step(self, event: EventView) -> (ConnectionView, ActionView) {
        match (self, event) {
            (ConnectionView::Reading(reader), EventView::Received(data)) => {
                ConnectionView::progressed(reader.with(data), reader.after_read(data))
            },
            (ConnectionView::Reading(_), EventView::ReadFailed(_)) => (
                ConnectionView::Replying,
                ActionView::WriteClient(Status::BadRequest.response()),
            ),
            (ConnectionView::Connecting(leftover), EventView::Connected) => (
                ConnectionView::Confirming(leftover),
                ActionView::WriteClient(Status::Okay.response()),
            ),
            (ConnectionView::Connecting(_), EventView::ConnectFailed(e)) => {
                ConnectionView::concluded(Err(ErrorView::UpstreamConnect(e)))
            },
            (ConnectionView::Confirming(Some(leftover)), EventView::Written) => (
                ConnectionView::Forwarding,
                ActionView::WriteUpstream(leftover),
            ),
            (ConnectionView::Confirming(None), EventView::Written) => (
                ConnectionView::Tunneling,
                ActionView::Tunnel,
            ),
            (ConnectionView::Forwarding, EventView::Written) => (
                ConnectionView::Tunneling,
                ActionView::Tunnel,
            ),
            (ConnectionView::Tunneling, EventView::TunnelClosed) => {
                ConnectionView::concluded(Ok(()))
            },
            (ConnectionView::Confirming(_), EventView::WriteFailed(e))
            | (ConnectionView::Forwarding, EventView::WriteFailed(e))
            | (ConnectionView::Tunneling, EventView::TunnelFailed(e)) => {
                ConnectionView::concluded(Err(ErrorView::Io(e)))
            },
            (ConnectionView::Replying, EventView::Written) => (
                ConnectionView::Finished,
                ActionView::Finish(Ok(())),
            ),
            (ConnectionView::Replying, EventView::WriteFailed(e)) => (
                ConnectionView::Finished,
                ActionView::Finish(Err(e)),
            ),
            // No connection in this state accepts this event.
            _ => (ConnectionView::Finished, ActionView::Finish(Ok(()))),
        }
    }
}

#[derive(Debug)]
enum State {
    Reading(RequestReader),
    Connecting(Option<Vec<u8>>),
    Confirming(Option<Vec<u8>>),
    Forwarding,
    Tunneling,
    Replying,
    Finished,
}

/// The proxy's side of one client connection.
///
/// A connection does no I/O of its own. It asks for an [`Action`], is told the [`Event`] that came
/// of it, and asks for the next, until it asks to [`Action::Finish`].
#[derive(Debug)]
pub struct Connection {
    state: State,
}

impl View for Connection {
    type V = ConnectionView;

    closed spec fn view(&self) -> ConnectionView {
        match self.state {
            State::Reading(reader) => ConnectionView::Reading(reader@),
            State::Connecting(leftover) => ConnectionView::Connecting(bytes_view(leftover)),
            State::Confirming(leftover) => ConnectionView::Confirming(bytes_view(leftover)),
            State::Forwarding => ConnectionView::Forwarding,
            State::Tunneling => ConnectionView::Tunneling,
            State::Replying => ConnectionView::Replying,
            State::Finished => ConnectionView::Finished,
        }
    }
}

impl Connection {
    /// A connection that was just accepted, and the first thing to do for it.
    pub fn start(max_headers: usize, max_header_bytes: usize) -> (r: (Connection, Action))
        requires
            limits_fit(max_headers as nat, max_header_bytes as nat),
        ensures
            (r.0@, r.1@) == ConnectionView::start(max_headers as nat, max_header_bytes as nat),
            r.0@.wf(),
    {
        let reader = RequestReader::new(max_headers, max_header_bytes);
        let progress = reader.more();
        Connection::progressed(reader, progress)
    }

    /// Goes on with what the reader of the request says.
    fn progressed(reader: RequestReader, progress: Progress) -> (r: (Connection, Action))
        requires
            reader@.wf(),
        ensures
            (r.0@, r.1@) == ConnectionView::progressed(reader@, progress@),
            r.0@.wf(),
    {
        match progress {
            Progress::Read(n) => (
                Connection { state: State::Reading(reader) },
                Action::Read(n),
            ),
            Progress::Done(request) => Connection::requested(request),
        }
    }

    /// Goes on with a request: connects to its target. Without one, tells the client why.
    pub fn requested(request: Result<(Method, String, Option<Vec<u8>>), ParseError>) -> (r: (
        Connection,
        Action,
    ))
        ensures
            (r.0@, r.1@) == ConnectionView::requested(request_view(request)),
            r.0@.wf(),
    {
        match request {
            Ok((method, path, leftover)) => (
                Connection { state: State::Connecting(leftover) },
                Action::Connect(method, path),
            ),
            Err(e) => Connection::concluded(Err(Error::from(e))),
        }
    }

    /// Ends the attempt to serve a request, with the client told of what went wrong before the
    /// target was reached.
    pub fn concluded(outcome: Result<(), Error>) -> (r: (Connection, Action))
        ensures
            (r.0@, r.1@) == ConnectionView::concluded(outcome_view(outcome)),
            r.0@.wf(),
    {
        match outcome {
            Ok(()) => (Connection { state: State::Finished }, Action::Finish(Ok(()))),
            Err(Error::Parse(e)) => match Status::try_from(e) {
                Ok(status) => Connection::reply(status),
                Err(()) => (Connection { state: State::Finished }, Action::Finish(Ok(()))),
            },
            Err(Error::UpstreamConnect(e)) => {
                Connection::reply(status_from_upstream_connect_error(&e))
            },
            // The connection is more likely to be dead by now, so nothing is written back.
            Err(Error::Io(e)) => (Connection { state: State::Finished }, Action::Finish(Err(e))),
        }
    }

    /// Tells the client why it is not served.
    fn reply(status: Status) -> (r: (Connection, Action))
        ensures
            r.0@ == ConnectionView::Replying,
            r.1@ == ActionView::WriteClient(status.response()),
    {
        (Connection { state: State::Replying }, Action::WriteClient(status.as_http_resp()))
    }

    /// Takes in what came of the last action, and says what to do next.
    pub fn step(self, event: Event) -> (r: (Connection, Action))
        requires
            self@.wf(),
            self@.accepts(event@),
        ensures
            (r.0@, r.1@) == self@.step(event@),
            r.0@.wf(),
            // The head of a request lies within what was received.
            match (self@, event@) {
                (ConnectionView::Reading(reader), EventView::Received(data)) => data.len() > 0
                    ==> reader.with(data).head_within(),
                _ => true,
            },
    {
        match (self.state, event) {
            (State::Reading(reader), Event::Received(data)) => {
                let mut reader = reader;
                let progress = reader.after_read(data);
                Connection::progressed(reader, progress)
            },
            (State::Reading(reader), Event::ReadFailed(e)) => {
                let progress = reader.read_failed(&e);
                Connection::progressed(reader, progress)
            },
            (State::Connecting(leftover), Event::Connected) => (
                Connection { state: State::Confirming(leftover) },
                Action::WriteClient(Status::Okay.as_http_resp()),
            ),
            (State::Connecting(_), Event::ConnectFailed(e)) => {
                Connection::concluded(Err(Error::UpstreamConnect(e)))
            },
            (State::Confirming(Some(leftover)), Event::Written) => (
                Connection { state: State::Forwarding },
                Action::WriteUpstream(leftover),
            ),
            (State::Confirming(None), Event::Written) => (
                Connection { state: State::Tunneling },
                Action::Tunnel,
            ),
            (State::Forwarding, Event::Written) => (
                Connection { state: State::Tunneling },
                Action::Tunnel,
            ),
            (State::Tunneling, Event::TunnelClosed) => Connection::concluded(Ok(())),
            (State::Confirming(_), Event::WriteFailed(e)) => {
                Connection::concluded(Err(Error::from(e)))
            },
            (State::Forwarding, Event::WriteFailed(e)) => {
                Connection::concluded(Err(Error::Io(e)))
            },
            (State::Tunneling, Event::TunnelFailed(e)) => {
                Connection::concluded(Err(Error::Io(e)))
            },
            (State::Replying, Event::Written) => (
                Connection { state: State::Finished },
                Action::Finish(Ok(())),
            ),
            (State::Replying, Event::WriteFailed(e)) => (
                Connection { state: State::Finished },
                Action::Finish(Err(e)),
            ),
            _ => vstd::pervasive::unreached(),
        }
    }
}

} // verus!
