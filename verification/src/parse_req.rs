//! Reading the head of a proxy request.

use std::str::FromStr;

use vstd::prelude::*;
use vstd::slice::{slice_subrange, slice_to_vec};
use vstd::utf8::*;

use crate::outside::{head_error_text, parse_head, Head};
#[allow(unused_imports)]
use crate::outside::{
    error_text, head_result_view, header_table_fits, request_head, text_view, HeadView,
};

verus! {

/// The methods that the proxy serves.
#[derive(Debug, Clone, Copy, PartialEq, Eq, Structural)]
pub enum Method {
    Connect,
}

/// The name of a method that the proxy does not serve was given.
#[derive(Debug, Clone, Copy, PartialEq, Eq, Structural)]
pub struct InvalidMethod;

/// The method that goes by a name.
pub open spec fn method_named(name: Seq<char>) -> Result<Method, InvalidMethod> {
    if name == "CONNECT"@ {
        Ok(Method::Connect)
    } else {
        Err(InvalidMethod)
    }
}

/// The one name that a method goes by, letter by letter.
proof fn lemma_connect_name()
    ensures
        "CONNECT"@ == seq!['C', 'O', 'N', 'N', 'E', 'C', 'T'],
{
    reveal_strlit("CONNECT");
    assert("CONNECT"@ =~= seq!['C', 'O', 'N', 'N', 'E', 'C', 'T']);
}

/// A method is served if and only if its name is spelt C, O, N, N, E, C, T.
pub proof fn law_method(name: Seq<char>)
    ensures
        method_named(name) is Ok <==> name == seq!['C', 'O', 'N', 'N', 'E', 'C', 'T'],
        method_named(name) == Ok::<Method, InvalidMethod>(Method::Connect) || method_named(name)
            == Err::<Method, InvalidMethod>(InvalidMethod),
{
    lemma_connect_name();
}

/// Whether two strings hold the same characters.
fn same_text(a: &str, b: &str) -> (r: bool)
    ensures
        r == (a@ == b@),
{
    let x = a.as_bytes();
    let y = b.as_bytes();
    if x.len() != y.len() {
        return false;
    }
    let mut i: usize = 0;
    while i < x.len()
        invariant
            i <= x@.len(),
            x@.len() == y@.len(),
            x@ == encode_utf8(a@),
            y@ == encode_utf8(b@),
            forall|j: int| 0 <= j < i ==> x@[j] == y@[j],
        decreases x@.len() - i,
    {
        if x[i] != y[i] {
            return false;
        }
        i += 1;
    }
    proof {
        assert(x@ =~= y@);
        encode_utf8_decode_utf8(a@);
        encode_utf8_decode_utf8(b@);
    }
    true
}

impl vstd::std_specs::convert::TryFromSpecImpl<&str> for Method {
    open spec fn obeys_try_from_spec() -> bool {
        true
    }

    open spec fn try_from_spec(v: &str) -> Result<Self, Self::Error> {
        method_named(v@)
    }
}

impl TryFrom<&str> for Method {
    type Error = InvalidMethod;

    fn try_from(val: &str) -> (r: Result<Self, Self::Error>)
        ensures
            r is Ok <==> val@ == seq!['C', 'O', 'N', 'N', 'E', 'C', 'T'],
    {
        proof {
            lemma_connect_name();
        }
        if same_text(val, "CONNECT") {
            Ok(Method::Connect)
        } else {
            Err(InvalidMethod)
        }
    }
}

impl FromStr for Method {
    type Err = InvalidMethod;

    fn from_str(s: &str) -> (r: Result<Self, Self::Err>)
        ensures
            r == method_named(s@),
            r is Ok <==> s@ == seq!['C', 'O', 'N', 'N', 'E', 'C', 'T'],
    {
        Method::try_from(s)
    }
}

/// Why no request came out of what the client sent.
#[derive(PartialEq, Debug)]
pub enum ParseError {
    NoMethod,
    InvalidMethod,
    NoPath,
    Incomplete,
    Closed,
    Invalid { e: String },
    ReqTooLarge,
    Io { e: String },
}

/// The model of a [`ParseError`].
pub enum ParseErrorView {
    NoMethod,
    InvalidMethod,
    NoPath,
    Incomplete,
    Closed,
    Invalid { e: Seq<char> },
    ReqTooLarge,
    Io { e: Seq<char> },
}

impl View for ParseError {
    type V = ParseErrorView;

    open spec fn view(&self) -> ParseErrorView {
        match *self {
            ParseError::NoMethod => ParseErrorView::NoMethod,
            ParseError::InvalidMethod => ParseErrorView::InvalidMethod,
            ParseError::NoPath => ParseErrorView::NoPath,
            ParseError::Incomplete => ParseErrorView::Incomplete,
            ParseError::Closed => ParseErrorView::Closed,
            ParseError::Invalid { e } => ParseErrorView::Invalid { e: e@ },
            ParseError::ReqTooLarge => ParseErrorView::ReqTooLarge,
            ParseError::Io { e } => ParseErrorView::Io { e: e@ },
        }
    }
}

impl vstd::std_specs::convert::FromSpecImpl<InvalidMethod> for ParseError {
    open spec fn obeys_from_spec() -> bool {
        true
    }

    open spec fn from_spec(_v: InvalidMethod) -> Self {
        ParseError::InvalidMethod
    }
}

impl From<InvalidMethod> for ParseError {
    fn from(_val: InvalidMethod) -> (r: Self)
        ensures
            r is InvalidMethod,
    {
        ParseError::InvalidMethod
    }
}

/// The model of a parsed head: the method, the path and the number of bytes that the head takes up.
pub type ParsedView = (Method, Seq<char>, nat);

/// The model of what [`parse_req_from_buf`] returns.
pub open spec fn parsed_view(r: Result<(Method, String, usize), ParseError>) -> Result<
    ParsedView,
    ParseErrorView,
> {
    match r {
        Ok((method, path, len)) => Ok((method, path@, len as nat)),
        Err(e) => Err(e@),
    }
}

/// What the proxy makes of a head that `httparse` has looked at.
pub open spec fn request_in_head(head: Result<HeadView, httparse::Error>) -> Result<
    ParsedView,
    ParseErrorView,
> {
    match head {
        Ok(HeadView::Complete { len, method, path }) => match method {
            None => Err(ParseErrorView::NoMethod),
            Some(name) => match method_named(name) {
                Err(_) => Err(ParseErrorView::InvalidMethod),
                Ok(method) => match path {
                    None => Err(ParseErrorView::NoPath),
                    Some(path) => Ok((method, path, len)),
                },
            },
        },
        Ok(HeadView::Partial) => Err(ParseErrorView::Incomplete),
        Err(e) => Err(ParseErrorView::Invalid { e: error_text(e) }),
    }
}

/// The request at the start of `buf`.
pub open spec fn request_in(buf: Seq<u8>, max_headers: nat) -> Result<ParsedView, ParseErrorView> {
    request_in_head(request_head(buf, max_headers))
}

/// Turns a head that `httparse` has looked at into a request.
pub fn request_from_head(head: Result<Head, httparse::Error>) -> (r: Result<
    (Method, String, usize),
    ParseError,
>)
    ensures
        parsed_view(r) == request_in_head(head_result_view(head)),
        // A complete head gives the request that it names, and that one only.
        match head {
            Ok(Head::Complete { len, method: None, path: _ }) => r matches Err(
                ParseError::NoMethod,
            ),
            Ok(Head::Complete { len, method: Some(name), path }) => if name@ != seq![
                'C',
                'O',
                'N',
                'N',
                'E',
                'C',
                'T',
            ] {
                r matches Err(ParseError::InvalidMethod)
            } else {
                match path {
                    None => r matches Err(ParseError::NoPath),
                    Some(target) => r matches Ok((Method::Connect, p, n)) && p@ == target@ && n
                        == len,
                }
            },
            Ok(Head::Partial) => r matches Err(ParseError::Incomplete),
            Err(e) => r matches Err(ParseError::Invalid { e: text }) && text@ == error_text(e),
        },
{
    proof {
        lemma_connect_name();
    }
    match head {
        Ok(Head::Complete { len, method, path }) => {
            // `httparse` does not report a head complete without these two.
            let name = match method {
                Some(name) => name,
                None => return Err(ParseError::NoMethod),
            };
            let method = match Method::from_str(name.as_str()) {
                Ok(method) => method,
                Err(e) => return Err(ParseError::from(e)),
            };
            match path {
                Some(path) => Ok((method, path, len)),
                None => Err(ParseError::NoPath),
            }
        },
        Ok(Head::Partial) => Err(ParseError::Incomplete),
        Err(e) => Err(ParseError::Invalid { e: head_error_text(&e) }),
    }
}

/// Looks for a request at the start of `buf`, and returns its method, its path and the number of
/// bytes that its head takes up.
///
/// The path is the target of a CONNECT request, `host:port`; it is handed on as it stands.
pub fn parse_req_from_buf(buf: &[u8], max_headers: usize) -> (r: Result<
    (Method, String, usize),
    ParseError,
>)
    requires
        header_table_fits(max_headers as nat),
    ensures
        parsed_view(r) == request_in(buf@, max_headers as nat),
        // What `httparse` finds in these bytes, with a table of this size, is what comes out.
        match request_head(buf@, max_headers as nat) {
            Ok(HeadView::Complete { len, method, path }) => if method == Some(
                seq!['C', 'O', 'N', 'N', 'E', 'C', 'T'],
            ) {
                r matches Ok((Method::Connect, p, n)) && path == Some(p@) && n == len
            } else {
                r matches Err(ParseError::InvalidMethod)
            },
            Ok(HeadView::Partial) => r matches Err(ParseError::Incomplete),
            Err(e) => r matches Err(ParseError::Invalid { e: text }) && text@ == error_text(e),
        },
        head_settled(max_headers as nat, buf@),
        // A request has a target, and its head lies within the bytes.
        r matches Ok((_, path, len)) ==> path@.len() > 0 && 0 < len <= buf@.len(),
        // A head that lacks its method or its path is rejected by `httparse` already.
        r matches Err(e) ==> e is InvalidMethod || e is Invalid || e is Incomplete,
        // Once there is enough to tell, bytes that follow change nothing.
        !(r matches Err(ParseError::Incomplete)) ==> forall|more: Seq<u8>|
            #[trigger] request_in(buf@ + more, max_headers as nat) == parsed_view(r),
        // The head of a request is enough, without anything behind it.
        r matches Ok((_, _, len)) ==> request_in(buf@.take(len as int), max_headers as nat)
            == parsed_view(r),
{
    request_from_head(parse_head(buf, max_headers))
}

/// Where `httparse` has come to a conclusion on `buf`, bytes that follow do not change it. Where it
/// is that a head is complete, the head lies within `buf`, and is complete on its own.
pub open spec fn head_settled(max_headers: nat, buf: Seq<u8>) -> bool {
    let head = request_head(buf, max_headers);
    &&& head != Ok::<HeadView, httparse::Error>(HeadView::Partial) ==> forall|more: Seq<u8>|
        #[trigger] request_head(buf + more, max_headers) == head
    &&& head matches Ok(HeadView::Complete { len, .. }) ==> 0 < len <= buf.len() && request_head(
        buf.take(len as int),
        max_headers,
    ) == head
}

/// Whether every beginning of `stream` is settled within `stream`: what `httparse` concludes of a
/// beginning, it concludes of every longer one, and a complete head is complete on its own.
pub open spec fn heads_from_front(max_headers: nat, stream: Seq<u8>) -> bool {
    &&& forall|i: int, j: int|
        #![trigger stream.take(i), stream.take(j)]
        0 <= i <= j <= stream.len() && request_head(stream.take(i), max_headers) != Ok::<
            HeadView,
            httparse::Error,
        >(HeadView::Partial) ==> request_head(stream.take(j), max_headers) == request_head(
            stream.take(i),
            max_headers,
        )
    &&& forall|i: int|
        0 <= i <= stream.len() ==> (request_head(
            #[trigger] stream.take(i),
            max_headers,
        ) matches Ok(HeadView::Complete { len, .. }) ==> 0 < len <= i && request_head(
            stream.take(len as int),
            max_headers,
        ) == request_head(stream.take(i), max_headers))
}

/// Whether the bytes sent so far are enough to tell what they ask for.
pub open spec fn decided(max_headers: nat, bytes: Seq<u8>) -> bool {
    !(request_in(bytes, max_headers) matches Err(ParseErrorView::Incomplete))
}

/// Whether `stream` is parsed from the front. Once the bytes up to some point are enough to tell,
/// those that follow change nothing. Where they hold a request, its head lies within them, and is
/// enough without the rest.
pub open spec fn parsed_from_front(max_headers: nat, stream: Seq<u8>) -> bool {
    &&& forall|i: int, j: int|
        #![trigger stream.take(i), stream.take(j)]
        0 <= i <= j <= stream.len() && decided(max_headers, stream.take(i)) ==> request_in(
            stream.take(j),
            max_headers,
        ) == request_in(stream.take(i), max_headers)
    &&& forall|i: int|
        0 <= i <= stream.len() ==> (request_in(#[trigger] stream.take(i), max_headers) matches Ok((
            _,
            _,
            len,
        )) ==> 0 < len <= i && request_in(stream.take(len as int), max_headers) == request_in(
            stream.take(i),
            max_headers,
        ))
}

/// Finds out how many bytes of `stream` it takes to tell what it asks for: the length of the
/// shortest beginning that is enough, where one is. Every stream turns out to be parsed from the
/// front.
pub fn decided_after(stream: &[u8], max_headers: usize) -> (r: Option<usize>)
    requires
        header_table_fits(max_headers as nat),
    ensures
        parsed_from_front(max_headers as nat, stream@),
        heads_from_front(max_headers as nat, stream@),
        match r {
            Some(n) => {
                &&& n <= stream@.len()
                &&& decided(max_headers as nat, stream@.take(n as int))
                &&& forall|i: int|
                    0 <= i < n ==> !decided(max_headers as nat, #[trigger] stream@.take(i))
            },
            None => forall|i: int|
                0 <= i <= stream@.len() ==> !decided(
                    max_headers as nat,
                    #[trigger] stream@.take(i),
                ),
        },
{
    let mut n: usize = 0;
    loop
        invariant
            n <= stream@.len(),
            header_table_fits(max_headers as nat),
            forall|i: int|
                0 <= i < n ==> !decided(max_headers as nat, #[trigger] stream@.take(i)),
        decreases stream@.len() - n,
    {
        let front = slice_subrange(stream, 0, n);
        assert(front@ =~= stream@.take(n as int));
        let parsed = parse_req_from_buf(front, max_headers);
        match parsed {
            Err(ParseError::Incomplete) => {
                if n == stream.len() {
                    return None;
                }
                n += 1;
            },
            _ => {
                proof {
                    let h = max_headers as nat;
                    assert forall|i: int| n <= i <= stream@.len() implies request_in(
                        #[trigger] stream@.take(i),
                        h,
                    ) == request_in(front@, h) && request_head(stream@.take(i), h)
                        == request_head(front@, h) by {
                        assert(front@ + stream@.subrange(n as int, i) =~= stream@.take(i));
                    }
                    if let Ok(HeadView::Complete { len, .. }) = request_head(front@, h) {
                        assert(front@.take(len as int) =~= stream@.take(len as int));
                    }
                }
                return Some(n);
            },
        }
    }
}

/// The bytes that the client has sent behind a head of `len` bytes, where it has sent any.
pub open spec fn leftover(received: Seq<u8>, len: nat) -> Option<Seq<u8>> {
    if received.len() > len {
        Some(received.skip(len as int))
    } else {
        None
    }
}

/// Whether the memory for these limits can be had: a buffer and a table of headers, neither larger
/// than `isize::MAX` bytes.
pub open spec fn limits_fit(max_headers: nat, max_header_bytes: nat) -> bool {
    &&& header_table_fits(max_headers)
    &&& max_header_bytes <= isize::MAX
}

/// The model of a [`RequestReader`]: what the client has sent so far, and the limits.
pub struct ReaderView {
    pub received: Seq<u8>,
    pub max_headers: nat,
    pub max_header_bytes: nat,
}

/// The model of a request: the method, the path and what the client sent behind the head.
pub type RequestView = (Method, Seq<char>, Option<Seq<u8>>);

/// The model of a [`Progress`].
pub enum ProgressView {
    Read(nat),
    Done(Result<RequestView, ParseErrorView>),
}

impl ReaderView {
    pub open spec fn wf(self) -> bool {
        &&& limits_fit(self.max_headers, self.max_header_bytes)
        &&& self.received.len() <= self.max_header_bytes
    }

    /// How many more bytes may be read.
    pub open spec fn room(self) -> int {
        self.max_header_bytes - self.received.len()
    }

    /// The reader after some more bytes.
    pub open spec fn with(self, data: Seq<u8>) -> ReaderView {
        ReaderView { received: self.received + data, ..self }
    }

    /// Where there is a request in what was received, its head is in there, too.
    pub open spec fn head_within(self) -> bool {
        request_in(self.received, self.max_headers) matches Ok((_, _, len)) ==> 0 < len
            <= self.received.len()
    }

    /// What is next while the request is not all there.
    pub open spec fn more(self) -> ProgressView {
        if self.room() == 0 {
            ProgressView::Done(Err(ParseErrorView::ReqTooLarge))
        } else {
            ProgressView::Read(self.room() as nat)
        }
    }

    /// What is next once the bytes received so far were looked at.
    pub open spec fn parsed(self, parsed: Result<ParsedView, ParseErrorView>) -> ProgressView {
        match parsed {
            Ok((method, path, len)) => ProgressView::Done(
                Ok((method, path, leftover(self.received, len))),
            ),
            Err(ParseErrorView::Incomplete) => self.more(),
            Err(e) => ProgressView::Done(Err(e)),
        }
    }

    /// Why a client that has stopped sending is not served.
    pub open spec fn at_eof(self) -> ParseErrorView {
        if self.received.len() == 0 {
            ParseErrorView::Closed
        } else {
            ParseErrorView::Invalid { e: "eof"@ }
        }
    }

    /// What is next once a read has returned `data`, which is empty where the client has stopped
    /// sending.
    pub open spec fn after_read(self, data: Seq<u8>) -> ProgressView {
        if data.len() == 0 {
            ProgressView::Done(Err(self.at_eof()))
        } else {
            let reader = self.with(data);
            reader.parsed(request_in(reader.received, reader.max_headers))
        }
    }
}

/// What is next for the reader of a request.
#[derive(Debug)]
pub enum Progress {
    /// Read from the client, this many bytes at most.
    Read(usize),
    /// The reader is done: here is the method, the path and what the client sent behind the head,
    /// or why there is no request.
    Done(Result<(Method, String, Option<Vec<u8>>), ParseError>),
}

/// The model of bytes that may be absent.
pub open spec fn bytes_view(b: Option<Vec<u8>>) -> Option<Seq<u8>> {
    match b {
        Some(b) => Some(b@),
        None => None,
    }
}

/// The model of what a [`RequestReader`] ends with.
pub open spec fn request_view(r: Result<(Method, String, Option<Vec<u8>>), ParseError>) -> Result<
    RequestView,
    ParseErrorView,
> {
    match r {
        Ok((method, path, leftover)) => Ok((method, path@, bytes_view(leftover))),
        Err(e) => Err(e@),
    }
}

impl View for Progress {
    type V = ProgressView;

    open spec fn view(&self) -> ProgressView {
        match *self {
            Progress::Read(n) => ProgressView::Read(n as nat),
            Progress::Done(r) => ProgressView::Done(request_view(r)),
        }
    }
}

/// Collects what a client sends until there is a request in it.
///
/// The reader does no I/O of its own. It says how much to read, and is told what came of it.
#[derive(Debug)]
pub struct RequestReader {
    buf: Vec<u8>,
    max_headers: usize,
    max_header_bytes: usize,
}

impl View for RequestReader {
    type V = ReaderView;

    closed spec fn view(&self) -> ReaderView {
        ReaderView {
            received: self.buf@,
            max_headers: self.max_headers as nat,
            max_header_bytes: self.max_header_bytes as nat,
        }
    }
}

impl RequestReader {
    /// A reader of a request whose head has at most `max_headers` header fields, and which is to
    /// be found within the first `max_header_bytes` bytes.
    pub fn new(max_headers: usize, max_header_bytes: usize) -> (r: Self)
        requires
            limits_fit(max_headers as nat, max_header_bytes as nat),
        ensures
            r@.received == Seq::<u8>::empty(),
            r@.max_headers == max_headers,
            r@.max_header_bytes == max_header_bytes,
            r@.wf(),
    {
        RequestReader { buf: Vec::new(), max_headers, max_header_bytes }
    }

    /// Asks for more, unless what may be read has been read.
    pub fn more(&self) -> (r: Progress)
        requires
            self@.wf(),
        ensures
            r@ == self@.more(),
    {
        if self.buf.len() == self.max_header_bytes {
            // All that may be read was read, and the head is still not complete.
            Progress::Done(Err(ParseError::ReqTooLarge))
        } else {
            Progress::Read(self.max_header_bytes - self.buf.len())
        }
    }

    /// Goes on from what was found in the bytes received so far.
    pub fn parsed(&self, parsed: Result<(Method, String, usize), ParseError>) -> (r: Progress)
        requires
            self@.wf(),
        ensures
            r@ == self@.parsed(parsed_view(parsed)),
    {
        match parsed {
            Ok((method, path, len)) => {
                let leftover = if self.buf.len() > len {
                    let rest = slice_to_vec(slice_subrange(self.buf.as_slice(), len, self.buf.len()));
                    assert(rest@ =~= self.buf@.skip(len as int));
                    Some(rest)
                } else {
                    None
                };
                Progress::Done(Ok((method, path, leftover)))
            },
            // Not enough bytes yet.
            Err(ParseError::Incomplete) => self.more(),
            Err(e) => Progress::Done(Err(e)),
        }
    }

    /// Takes in what a read has returned: nothing, where the client has stopped sending.
    pub fn after_read(&mut self, data: Vec<u8>) -> (r: Progress)
        requires
            old(self)@.wf(),
            data@.len() <= old(self)@.room(),
        ensures
            final(self)@.wf(),
            final(self)@ == old(self)@.with(data@),
            r@ == old(self)@.after_read(data@),
            // A request has a target, and its head lies within what was received.
            r matches Progress::Done(Ok((_, path, _))) ==> path@.len() > 0,
            data@.len() > 0 ==> final(self)@.head_within(),
            r matches Progress::Done(Err(e)) ==> {
                ||| e is InvalidMethod
                ||| e is Closed
                ||| e is Invalid
                ||| e is ReqTooLarge
            },
    {
        if data.len() == 0 {
            assert(self.buf@ =~= self.buf@ + data@);
            if self.buf.len() == 0 {
                // Closed before anything was sent.
                Progress::Done(Err(ParseError::Closed))
            } else {
                Progress::Done(Err(ParseError::Invalid { e: "eof".to_string() }))
            }
        } else {
            let mut data = data;
            self.buf.append(&mut data);
            let parsed = parse_req_from_buf(self.buf.as_slice(), self.max_headers);
            self.parsed(parsed)
        }
    }

    /// Gives up because a read has failed.
    pub fn read_failed(&self, e: &std::io::Error) -> (r: Progress)
        ensures
            r matches Progress::Done(Err(ParseError::Io { e: text }))
                && vstd::string::to_string_from_display_ensures::<std::io::Error>(e, text),
    {
        Progress::Done(Err(ParseError::Io { e: e.to_string() }))
    }
}

} // verus!
