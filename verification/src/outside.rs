//! What this library takes from `httparse` and from `std::io`.
//!
//! Everything here that Verus believes without proof is marked as such, with the claim that is
//! made of the outside code in the doc comment.

use httparse::Error as HttparseError;
use vstd::prelude::*;

verus! {

/// `std::io::Error`, carried from the I/O that failed to whoever asked for it.
#[verifier::external_type_specification]
#[verifier::external_body]
pub struct ExIoError(std::io::Error);

/// `httparse::Error`, the reasons for which `httparse` rejects bytes, with its variants.
#[verifier::external_type_specification]
pub struct ExHttparseError(HttparseError);

/// What `httparse` made of the bytes at the start of a request.
#[derive(Debug)]
pub enum Head {
    /// The head of the request is all there and takes up the first `len` bytes.
    Complete { len: usize, method: Option<String>, path: Option<String> },
    /// No byte is wrong so far, but the head is not all there yet.
    Partial,
}

/// The model of a [`Head`].
pub enum HeadView {
    Complete { len: nat, method: Option<Seq<char>>, path: Option<Seq<char>> },
    Partial,
}

/// The characters of a string that may be absent.
pub open spec fn text_view(s: Option<String>) -> Option<Seq<char>> {
    match s {
        Some(s) => Some(s@),
        None => None,
    }
}

impl View for Head {
    type V = HeadView;

    open spec fn view(&self) -> HeadView {
        match *self {
            Head::Complete { len, method, path } => HeadView::Complete {
                len: len as nat,
                method: text_view(method),
                path: text_view(path),
            },
            Head::Partial => HeadView::Partial,
        }
    }
}

/// The model of what [`parse_head`] returns.
pub open spec fn head_result_view(r: Result<Head, httparse::Error>) -> Result<
    HeadView,
    httparse::Error,
> {
    match r {
        Ok(head) => Ok(head@),
        Err(e) => Err(e),
    }
}

/// Whether a table of `max_headers` headers can be allocated: a header is four machine words, and
/// no allocation is larger than `isize::MAX` bytes.
pub open spec fn header_table_fits(max_headers: nat) -> bool {
    max_headers * (usize::BITS as nat / 2) <= isize::MAX
}

/// The outcome of `httparse::Request::parse` on `buf`, with room for `max_headers` headers.
pub uninterp spec fn request_head(buf: Seq<u8>, max_headers: nat) -> Result<
    HeadView,
    httparse::Error,
>;

/// Calls `httparse::Request::parse` on `buf`, with a table of `max_headers` empty headers, and
/// hands out the outcome, and, where the head is complete, the method and the path that the
/// request then holds.
///
/// Believed of it: the outcome is a function of the bytes and of the size of the table. A
/// complete head is not empty, lies within `buf`, and has a method and a path that is not empty.
/// `httparse` reads from the front and stops at the byte that ends the head or makes it wrong. So
/// once it has come to a conclusion, bytes that follow do not change it, and a complete head is
/// complete on its own.
#[verifier::external_body]
pub(crate) fn parse_head(buf: &[u8], max_headers: usize) -> (r: Result<Head, httparse::Error>)
    requires
        header_table_fits(max_headers as nat),
    ensures
        head_result_view(r) == request_head(buf@, max_headers as nat),
        r matches Ok(Head::Complete { len, method, path }) ==> {
            &&& 0 < len <= buf@.len()
            &&& method is Some
            &&& path matches Some(p) && p@.len() > 0
        },
        !(r matches Ok(Head::Partial)) ==> forall|more: Seq<u8>|
            #[trigger] request_head(buf@ + more, max_headers as nat) == head_result_view(r),
        r matches Ok(Head::Complete { len, .. }) ==> request_head(
            buf@.take(len as int),
            max_headers as nat,
        ) == head_result_view(r),
{
    let mut headers = vec![httparse::EMPTY_HEADER; max_headers];
    let mut req = httparse::Request::new(&mut headers);
    match req.parse(buf) {
        Ok(httparse::Status::Complete(len)) => Ok(Head::Complete {
            len,
            method: req.method.map(str::to_string),
            path: req.path.map(str::to_string),
        }),
        Ok(httparse::Status::Partial) => Ok(Head::Partial),
        Err(e) => Err(e),
    }
}

/// How `httparse` words its errors.
pub open spec fn error_text(e: httparse::Error) -> Seq<char> {
    match e {
        httparse::Error::HeaderName => "invalid header name"@,
        httparse::Error::HeaderValue => "invalid header value"@,
        httparse::Error::NewLine => "invalid new line"@,
        httparse::Error::Status => "invalid response status"@,
        httparse::Error::Token => "invalid token"@,
        httparse::Error::TooManyHeaders => "too many headers"@,
        httparse::Error::Version => "invalid HTTP version"@,
    }
}

/// Calls `to_string` on an `httparse::Error`.
///
/// Believed of it: the string is the one that the `Display` impl of `httparse::Error` writes for
/// that variant.
#[verifier::external_body]
pub(crate) fn head_error_text(e: &httparse::Error) -> (s: String)
    ensures
        s@ == error_text(*e),
{
    e.to_string()
}

} // verus!
