//! The responses that the proxy itself gives.

use vstd::prelude::*;
use vstd::string::*;
use vstd::utf8::*;

use crate::parse_req::{ParseError, ParseErrorView};

verus! {

/// The statuses that the proxy answers with.
#[derive(Debug, Clone, Copy, PartialEq, Eq, Structural)]
pub enum Status {
    Okay,
    BadRequest,
    MethodNotAllowed,
    BadGateway,
}

impl Status {
    /// The number of the status.
    pub open spec fn number(self) -> u16 {
        match self {
            Status::Okay => 200,
            Status::BadRequest => 400,
            Status::MethodNotAllowed => 405,
            Status::BadGateway => 502,
        }
    }

    /// The phrase that goes with the number.
    pub open spec fn phrase(self) -> Seq<char> {
        match self {
            Status::Okay => "Ok"@,
            Status::BadRequest => "Bad request"@,
            Status::MethodNotAllowed => "Method not allowed"@,
            Status::BadGateway => "Bad gateway"@,
        }
    }

    /// The bytes of the response with this status: a status line and no header fields.
    pub open spec fn response(self) -> Seq<u8> {
        encode_utf8("HTTP/1.1 "@) + decimal(self.number() as nat) + encode_utf8(" "@)
            + encode_utf8(self.phrase()) + encode_utf8("\r\n\r\n"@)
    }

    /// The status as a number.
    pub fn code(&self) -> (r: u16)
        ensures
            r == self.number(),
    {
        match self {
            Status::Okay => 200,
            Status::BadRequest => 400,
            Status::MethodNotAllowed => 405,
            Status::BadGateway => 502,
        }
    }

    /// The status in words.
    pub fn description(&self) -> (r: &str)
        ensures
            r@ == self.phrase(),
    {
        match self {
            Status::Okay => "Ok",
            Status::BadRequest => "Bad request",
            Status::MethodNotAllowed => "Method not allowed",
            Status::BadGateway => "Bad gateway",
        }
    }

    /// The response with this status, as it goes over the wire.
    pub fn as_http_resp(self) -> (r: Vec<u8>)
        ensures
            r@ == self.response(),
    {
        let mut out: Vec<u8> = Vec::new();
        push_text(&mut out, "HTTP/1.1 ");
        push_decimal(&mut out, self.code());
        push_text(&mut out, " ");
        push_text(&mut out, self.description());
        push_text(&mut out, "\r\n\r\n");
        assert(out@ =~= self.response());
        out
    }
}

/// `n` in decimal, in ASCII digits, without leading zeros.
pub open spec fn decimal(n: nat) -> Seq<u8>
    decreases n,
{
    let digit = (48 + n % 10) as u8;
    if n < 10 {
        seq![digit]
    } else {
        decimal(n / 10).push(digit)
    }
}

/// Appends the UTF-8 encoding of a string.
fn push_text(out: &mut Vec<u8>, s: &str)
    ensures
        final(out)@ == old(out)@ + encode_utf8(s@),
{
    let mut bytes = s.as_bytes_vec();
    out.append(&mut bytes);
}

/// Appends a number in decimal.
fn push_decimal(out: &mut Vec<u8>, n: u16)
    ensures
        final(out)@ == old(out)@ + decimal(n as nat),
    decreases n,
{
    if n >= 10 {
        push_decimal(out, n / 10);
    }
    out.push(48 + (n % 10) as u8);
    assert(out@ =~= old(out)@ + decimal(n as nat));
}

/// The response with a status, as it goes over the wire.
pub fn make_status_response(status: Status) -> (r: Vec<u8>)
    ensures
        r@ == status.response(),
{
    status.as_http_resp()
}

/// The status that answers a client from whom no request came, where there is anything to answer.
pub open spec fn parse_error_status(err: ParseErrorView) -> Option<Status> {
    match err {
        ParseErrorView::InvalidMethod => Some(Status::MethodNotAllowed),
        ParseErrorView::NoMethod
        | ParseErrorView::NoPath
        | ParseErrorView::Invalid { .. }
        | ParseErrorView::ReqTooLarge
        | ParseErrorView::Io { .. } => Some(Status::BadRequest),
        ParseErrorView::Closed | ParseErrorView::Incomplete => None,
    }
}

/// Picks the status that answers a client from whom no request came.
pub fn status_from_parse_error(err: &ParseError) -> (r: Option<Status>)
    ensures
        r == parse_error_status(err@),
        // Only a client that is gone, or has more to say, gets no answer.
        r is None <==> *err is Closed || *err is Incomplete,
        r == Some(Status::MethodNotAllowed) <==> *err is InvalidMethod,
        r == Some(Status::BadRequest) <==> {
            ||| *err is NoMethod
            ||| *err is NoPath
            ||| *err is Invalid
            ||| *err is ReqTooLarge
            ||| *err is Io
        },
{
    match err {
        ParseError::InvalidMethod => Some(Status::MethodNotAllowed),
        ParseError::NoMethod
        | ParseError::NoPath
        | ParseError::Invalid { .. }
        | ParseError::ReqTooLarge => Some(Status::BadRequest),
        // The client is gone, or has more to say: nothing to send back.
        ParseError::Closed | ParseError::Incomplete => None,
        ParseError::Io { .. } => Some(Status::BadRequest),
    }
}

impl vstd::std_specs::convert::TryFromSpecImpl<ParseError> for Status {
    open spec fn obeys_try_from_spec() -> bool {
        true
    }

    open spec fn try_from_spec(v: ParseError) -> Result<Self, Self::Error> {
        match parse_error_status(v@) {
            Some(status) => Ok(status),
            None => Err(()),
        }
    }
}

impl TryFrom<ParseError> for Status {
    type Error = ();

    fn try_from(err: ParseError) -> (r: Result<Self, Self::Error>)
        ensures
            r is Err <==> err is Closed || err is Incomplete,
            r == Ok::<Status, ()>(Status::MethodNotAllowed) <==> err is InvalidMethod,
            r is Ok ==> r->Ok_0 == Status::MethodNotAllowed || r->Ok_0 == Status::BadRequest,
    {
        match status_from_parse_error(&err) {
            Some(status) => Ok(status),
            None => Err(()),
        }
    }
}

/// Picks the status that answers a client whose target could not be reached.
pub fn status_from_upstream_connect_error(_e: &std::io::Error) -> (r: Status)
    ensures
        r == Status::BadGateway,
{
    Status::BadGateway
}

/// Reveals the bytes that every response begins and ends with.
proof fn lemma_fixed_parts()
    ensures
        encode_utf8("HTTP/1.1 "@) == seq![72u8, 84, 84, 80, 47, 49, 46, 49, 32],
        encode_utf8(" "@) == seq![32u8],
        encode_utf8("\r\n\r\n"@) == seq![13u8, 10, 13, 10],
{
    reveal_strlit("HTTP/1.1 ");
    reveal_strlit(" ");
    reveal_strlit("\r\n\r\n");
    is_ascii_chars_encode_utf8("HTTP/1.1 "@);
    is_ascii_chars_encode_utf8(" "@);
    is_ascii_chars_encode_utf8("\r\n\r\n"@);
    assert(encode_utf8("HTTP/1.1 "@) =~= seq![72u8, 84, 84, 80, 47, 49, 46, 49, 32]);
    assert(encode_utf8(" "@) =~= seq![32u8]);
    assert(encode_utf8("\r\n\r\n"@) =~= seq![13u8, 10, 13, 10]);
}

/// The phrases are ASCII and hold no line break.
proof fn lemma_phrase(status: Status)
    ensures
        forall|i: int|
            0 <= i < encode_utf8(status.phrase()).len() ==> 32 <= #[trigger] encode_utf8(
                status.phrase(),
            )[i] < 127,
{
    reveal_strlit("Ok");
    reveal_strlit("Bad request");
    reveal_strlit("Method not allowed");
    reveal_strlit("Bad gateway");
    let phrase = status.phrase();
    assert(forall|i: int| 0 <= i < phrase.len() ==> 32 <= #[trigger] phrase[i] < 127);
    is_ascii_chars_encode_utf8(phrase);
}

/// The numbers have three digits.
proof fn lemma_number(status: Status)
    ensures
        decimal(status.number() as nat) == seq![
            (48 + status.number() / 100) as u8,
            (48 + status.number() / 10 % 10) as u8,
            (48 + status.number() % 10) as u8,
        ],
{
    let n = status.number() as nat;
    reveal_with_fuel(decimal, 3);
    assert(decimal(n) =~= seq![
        (48 + n / 100) as u8,
        (48 + n / 10 % 10) as u8,
        (48 + n % 10) as u8,
    ]);
}

/// A response is a status line, with the version and the number in front, and an empty line, which
/// ends it: the first empty line in it is its end, so it has no header fields and no body.
pub proof fn law_response_form(status: Status)
    ensures
        status.response().take(12) == encode_utf8("HTTP/1.1 "@) + decimal(status.number() as nat),
        forall|i: int|
            0 <= i <= status.response().len() - 4 ==> (#[trigger] status.response().subrange(
                i,
                i + 4,
            ) == encode_utf8("\r\n\r\n"@) <==> i == status.response().len() - 4),
{
    lemma_fixed_parts();
    lemma_phrase(status);
    lemma_number(status);
    let r = status.response();
    let end = r.len() - 4;
    assert(r.take(12) =~= encode_utf8("HTTP/1.1 "@) + decimal(status.number() as nat));
    assert(r.subrange(end, end + 4) =~= encode_utf8("\r\n\r\n"@));
    assert(forall|i: int| 0 <= i < end ==> 32 <= #[trigger] r[i]);
    assert forall|i: int|
        0 <= i < end implies #[trigger] r.subrange(i, i + 4) != encode_utf8("\r\n\r\n"@) by {
        assert(r.subrange(i, i + 4)[0] == r[i]);
    }
}

/// A response tells which status it carries.
pub proof fn law_responses_differ(a: Status, b: Status)
    requires
        a != b,
    ensures
        a.response() != b.response(),
{
    law_response_form(a);
    law_response_form(b);
    lemma_fixed_parts();
    lemma_number(a);
    lemma_number(b);
    if a.response() == b.response() {
        let x = a.response().take(12);
        assert(x[9] == 48 + a.number() / 100 && x[9] == 48 + b.number() / 100);
        assert(x[11] == 48 + a.number() % 10 && x[11] == 48 + b.number() % 10);
    }
}

/// The responses, written out in full.
pub proof fn law_response_bytes()
    ensures
        Status::Okay.response() == encode_utf8("HTTP/1.1 200 Ok\r\n\r\n"@),
        Status::BadRequest.response() == encode_utf8("HTTP/1.1 400 Bad request\r\n\r\n"@),
        Status::MethodNotAllowed.response() == encode_utf8(
            "HTTP/1.1 405 Method not allowed\r\n\r\n"@,
        ),
        Status::BadGateway.response() == encode_utf8("HTTP/1.1 502 Bad gateway\r\n\r\n"@),
{
    lemma_fixed_parts();
    reveal_strlit("Ok");
    reveal_strlit("Bad request");
    reveal_strlit("Method not allowed");
    reveal_strlit("Bad gateway");
    reveal_strlit("HTTP/1.1 200 Ok\r\n\r\n");
    reveal_strlit("HTTP/1.1 400 Bad request\r\n\r\n");
    reveal_strlit("HTTP/1.1 405 Method not allowed\r\n\r\n");
    reveal_strlit("HTTP/1.1 502 Bad gateway\r\n\r\n");
    assert(is_ascii_chars("Ok"@) && is_ascii_chars("HTTP/1.1 200 Ok\r\n\r\n"@));
    assert(is_ascii_chars("Bad request"@) && is_ascii_chars(
        "HTTP/1.1 400 Bad request\r\n\r\n"@,
    ));
    assert(is_ascii_chars("Method not allowed"@) && is_ascii_chars(
        "HTTP/1.1 405 Method not allowed\r\n\r\n"@,
    ));
    assert(is_ascii_chars("Bad gateway"@) && is_ascii_chars(
        "HTTP/1.1 502 Bad gateway\r\n\r\n"@,
    ));
    lemma_number(Status::Okay);
    lemma_number(Status::BadRequest);
    lemma_number(Status::MethodNotAllowed);
    lemma_number(Status::BadGateway);
    is_ascii_chars_encode_utf8("Ok"@);
    is_ascii_chars_encode_utf8("Bad request"@);
    is_ascii_chars_encode_utf8("Method not allowed"@);
    is_ascii_chars_encode_utf8("Bad gateway"@);
    is_ascii_chars_encode_utf8("HTTP/1.1 200 Ok\r\n\r\n"@);
    is_ascii_chars_encode_utf8("HTTP/1.1 400 Bad request\r\n\r\n"@);
    is_ascii_chars_encode_utf8("HTTP/1.1 405 Method not allowed\r\n\r\n"@);
    is_ascii_chars_encode_utf8("HTTP/1.1 502 Bad gateway\r\n\r\n"@);
    assert(Status::Okay.response() =~= encode_utf8("HTTP/1.1 200 Ok\r\n\r\n"@));
    assert(Status::BadRequest.response() =~= encode_utf8("HTTP/1.1 400 Bad request\r\n\r\n"@));
    assert(Status::MethodNotAllowed.response() =~= encode_utf8(
        "HTTP/1.1 405 Method not allowed\r\n\r\n"@,
    ));
    assert(Status::BadGateway.response() =~= encode_utf8("HTTP/1.1 502 Bad gateway\r\n\r\n"@));
}

} // verus!
