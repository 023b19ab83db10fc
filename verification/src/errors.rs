//! The errors that end a handshake attempt.

use vstd::prelude::*;

verus! {

/// Why the byte-level HTTP parser rejected its input.
#[derive(Clone, Copy, Debug, PartialEq, Eq, Structural)]
pub enum SyntaxError {
    /// A header name holds a byte that no header name may hold.
    HeaderName,
    /// A header value holds a byte that no header value may hold.
    HeaderValue,
    /// A line does not end the way a line must.
    NewLine,
    /// The status code of a response is malformed.
    Status,
    /// The method or the target holds a byte that is not allowed there.
    Token,
    /// The message has more headers than the parser was given room for.
    TooManyHeaders,
    /// The HTTP version is malformed.
    Version,
}

/// A request that is not an acceptable WebSocket upgrade, and the rule it broke.
#[derive(Clone, Debug, PartialEq, Eq)]
pub enum HttpError {
    /// The method is not `GET`; holds the method found, if there was one.
    HttpMethod(Option<String>),
    /// The version is not HTTP/1.1; holds the minor version found, if there was one.
    HttpVersion(Option<u8>),
    /// A mandatory header is absent; holds its name.
    MissingHeader(String),
    /// A mandatory header has a value that the handshake does not accept; holds its name.
    InvalidHeader(String),
    /// The request has no target, or one that is no URI; holds the target, if there was one.
    MalformattedUri(Option<String>),
    /// A header cannot be stored in a header map; holds `name: value` for diagnostics.
    MalformattedHeader(String),
    /// The bytes are not an HTTP message.
    Syntax(SyntaxError),
}

/// What an [`HttpError`] says, with its texts as sequences of characters.
pub enum HttpErrorView {
    HttpMethod(Option<Seq<char>>),
    HttpVersion(Option<u8>),
    MissingHeader(Seq<char>),
    InvalidHeader(Seq<char>),
    MalformattedUri(Option<Seq<char>>),
    MalformattedHeader(Seq<char>),
    Syntax(SyntaxError),
}

/// The text inside an optional string.
pub open spec fn opt_text(s: Option<String>) -> Option<Seq<char>> {
    match s {
        Some(s) => Some(s@),
        None => None,
    }
}

impl View for HttpError {
    type V = HttpErrorView;

    open spec fn view(&self) -> HttpErrorView {
        match *self {
            HttpError::HttpMethod(m) => HttpErrorView::HttpMethod(opt_text(m)),
            HttpError::HttpVersion(v) => HttpErrorView::HttpVersion(v),
            HttpError::MissingHeader(n) => HttpErrorView::MissingHeader(n@),
            HttpError::InvalidHeader(n) => HttpErrorView::InvalidHeader(n@),
            HttpError::MalformattedUri(u) => HttpErrorView::MalformattedUri(opt_text(u)),
            HttpError::MalformattedHeader(t) => HttpErrorView::MalformattedHeader(t@),
            HttpError::Syntax(e) => HttpErrorView::Syntax(e),
        }
    }
}

/// The broad class of a [`HandshakeError`].
#[derive(Clone, Copy, Debug, PartialEq, Eq, Structural)]
pub enum ErrorKind {
    /// The request broke a rule of HTTP or of the upgrade handshake.
    Http,
    /// The extension provider refused the request.
    Extension,
}

/// A terminal failure of a handshake attempt.
#[derive(Clone, Debug, PartialEq, Eq)]
pub enum HandshakeError {
    /// The request broke a rule of HTTP or of the upgrade handshake.
    Http(HttpError),
    /// The extension provider refused the request; holds its message.
    Extension(String),
}

/// What a [`HandshakeError`] says, with its texts as sequences of characters.
pub enum HandshakeErrorView {
    Http(HttpErrorView),
    Extension(Seq<char>),
}

impl View for HandshakeError {
    type V = HandshakeErrorView;

    open spec fn view(&self) -> HandshakeErrorView {
        match *self {
            HandshakeError::Http(e) => HandshakeErrorView::Http(e@),
            HandshakeError::Extension(m) => HandshakeErrorView::Extension(m@),
        }
    }
}

impl HandshakeError {
    /// The class this error belongs to.
    pub fn kind(&self) -> (k: ErrorKind)
        ensures
            k == (match self@ {
                HandshakeErrorView::Http(_) => ErrorKind::Http,
                HandshakeErrorView::Extension(_) => ErrorKind::Extension,
            }),
    {
        match self {
            HandshakeError::Http(_) => ErrorKind::Http,
            HandshakeError::Extension(_) => ErrorKind::Extension,
        }
    }
}

/// A header that cannot be stored in a header map, rendered as `name: value`.
#[derive(Clone, Debug, PartialEq, Eq)]
pub struct InvalidHeader(pub String);

impl View for InvalidHeader {
    type V = Seq<char>;

    open spec fn view(&self) -> Seq<char> {
        self.0@
    }
}

impl InvalidHeader {
    /// The HTTP error that reports this header.
    pub fn into_http_error(self) -> (e: HttpError)
        ensures
            e@ == HttpErrorView::MalformattedHeader(self@),
    {
        HttpError::MalformattedHeader(self.0)
    }
}

} // verus!
