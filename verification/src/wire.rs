//! The head of an HTTP request as it stands on the wire, and the byte-level
//! parser that reads it from a buffer.

use crate::errors::SyntaxError;
use vstd::prelude::*;

verus! {

/// One header line: its name, and its value as raw bytes.
#[derive(Clone, Debug, PartialEq, Eq)]
pub struct RawHeader {
    pub name: String,
    pub value: Vec<u8>,
}

/// What a [`RawHeader`] holds.
pub struct HeaderView {
    pub name: Seq<char>,
    pub value: Seq<u8>,
}

impl View for RawHeader {
    type V = HeaderView;

    open spec fn view(&self) -> HeaderView {
        HeaderView { name: self.name@, value: self.value@ }
    }
}

/// What a list of headers holds, in order.
pub open spec fn header_views(headers: Seq<RawHeader>) -> Seq<HeaderView> {
    Seq::new(headers.len(), |i: int| headers[i]@)
}

/// The head of a request, as far as the parser got: each part of the request
/// line is `None` until the parser has read it whole.
#[derive(Clone, Debug, PartialEq, Eq)]
pub struct RawRequest {
    pub method: Option<String>,
    pub path: Option<String>,
    pub version: Option<u8>,
    pub headers: Vec<RawHeader>,
}

/// What a [`RawRequest`] holds.
pub struct RequestView {
    pub method: Option<Seq<char>>,
    pub path: Option<Seq<char>>,
    pub version: Option<u8>,
    pub headers: Seq<HeaderView>,
}

impl View for RawRequest {
    type V = RequestView;

    open spec fn view(&self) -> RequestView {
        RequestView {
            method: crate::errors::opt_text(self.method),
            path: crate::errors::opt_text(self.path),
            version: self.version,
            headers: header_views(self.headers@),
        }
    }
}

// The parser's error is a plain enumeration. It is declared with its
// variants, so that verified code can tell them apart.
#[verifier::external_type_specification]
pub struct ExHttparseError(httparse::Error);

/// The library's name for a parser error.
pub open spec fn syntax_error_of(e: httparse::Error) -> SyntaxError {
    match e {
        httparse::Error::HeaderName => SyntaxError::HeaderName,
        httparse::Error::HeaderValue => SyntaxError::HeaderValue,
        httparse::Error::NewLine => SyntaxError::NewLine,
        httparse::Error::Status => SyntaxError::Status,
        httparse::Error::Token => SyntaxError::Token,
        httparse::Error::TooManyHeaders => SyntaxError::TooManyHeaders,
        httparse::Error::Version => SyntaxError::Version,
    }
}

/// Gives a parser error its name in this library.
pub fn syntax_error(e: httparse::Error) -> (r: SyntaxError)
    ensures
        r == syntax_error_of(e),
{
    match e {
        httparse::Error::HeaderName => SyntaxError::HeaderName,
        httparse::Error::HeaderValue => SyntaxError::HeaderValue,
        httparse::Error::NewLine => SyntaxError::NewLine,
        httparse::Error::Status => SyntaxError::Status,
        httparse::Error::Token => SyntaxError::Token,
        httparse::Error::TooManyHeaders => SyntaxError::TooManyHeaders,
        httparse::Error::Version => SyntaxError::Version,
    }
}

/// How far the parser got with a buffer: the head it read and, once the head
/// is complete, the number of bytes it takes up.
pub type HeadParse = Result<(Option<usize>, RawRequest), httparse::Error>;

/// What a [`HeadParse`] holds.
pub open spec fn head_view(r: HeadParse) -> Result<(Option<usize>, RequestView), httparse::Error> {
    match r {
        Ok((count, request)) => Ok((count, request@)),
        Err(e) => Err(e),
    }
}

/// What httparse's request parser makes of `buffer` when it has room for
/// `max_headers` headers.
pub uninterp spec fn parsed_head(buffer: Seq<u8>, max_headers: nat) -> Result<
    (Option<usize>, RequestView),
    httparse::Error,
>;

/// Runs `httparse::Request::parse` on `buffer` with room for `max_headers`
/// headers and copies out what the parser holds afterwards.
///
/// Believed of httparse: the outcome depends on the buffer and on the room
/// alone; the parser never holds more headers than it was given room for; and
/// the length of a complete head is a number of bytes of the buffer.
#[verifier::external_body]
pub(crate) fn parse_head(buffer: &[u8], max_headers: usize) -> (r: HeadParse)
    ensures
        head_view(r) == parsed_head(buffer@, max_headers as nat),
        r matches Ok((_, request)) ==> request.headers@.len() <= max_headers,
        r matches Ok((Some(count), _)) ==> count <= buffer@.len(),
{
    let mut headers = vec![httparse::EMPTY_HEADER; max_headers];
    let mut request = httparse::Request::new(&mut headers);
    let count = match request.parse(buffer)? {
        httparse::Status::Complete(count) => Some(count),
        httparse::Status::Partial => None,
    };
    let headers = request.headers.iter().map(
        |h| RawHeader { name: h.name.to_owned(), value: h.value.to_vec() },
    ).collect();
    let method = request.method.map(str::to_owned);
    let path = request.path.map(str::to_owned);
    Ok((count, RawRequest { method, path, version: request.version, headers }))
}

} // verus!
