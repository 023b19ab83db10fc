//! The request of a handshake in owned form, and the ways to arrive at one.

use crate::errors::{HandshakeError, HandshakeErrorView, HttpError, HttpErrorView};
use crate::header_map::{
    header_entries, header_map_with_capacity, stored, Entry, TryMap, HEADER_MAP_ROOM,
};
use crate::wire::{RawHeader, RawRequest, RequestView};
use vstd::prelude::*;

verus! {

/// A `GET` request without a body: its target and its headers.
#[derive(Debug, PartialEq, Eq)]
pub struct Request {
    pub uri: String,
    pub headers: http::HeaderMap<http::HeaderValue>,
}

/// What a [`Request`] holds.
pub struct RequestModel {
    pub uri: Seq<char>,
    pub headers: Seq<Entry>,
}

impl View for Request {
    type V = RequestModel;

    open spec fn view(&self) -> RequestModel {
        RequestModel { uri: self.uri@, headers: header_entries(self.headers) }
    }
}

/// The text of the URI that `http` reads from `text`, or `None` where it
/// reads none.
pub uninterp spec fn parsed_uri(text: Seq<char>) -> Option<Seq<char>>;

/// Parses `text` as an `http::Uri`.
///
/// Believed of http: whether a text is a URI, and which one, depends on the
/// text alone.
#[verifier::external_body]
pub(crate) fn parse_uri(text: &str) -> (r: Option<http::Uri>)
    ensures
        r is Some <==> parsed_uri(text@) is Some,
        r matches Some(uri) ==> parsed_uri(text@) == Some(uri_text(uri)),
{
    text.parse::<http::Uri>().ok()
}

// The URI of `http`; how it reads is spoken of through `uri_text`.
#[verifier::external_type_specification]
#[verifier::external_body]
pub struct ExUri(http::Uri);

// The URL of `url`; what it holds is spoken of through `url_text`.
#[verifier::external_type_specification]
#[verifier::external_body]
pub struct ExUrl(url::Url);

/// The text that a `Uri` reads as.
pub uninterp spec fn uri_text(uri: http::Uri) -> Seq<char>;

/// The serialization that a `Url` holds.
pub uninterp spec fn url_text(url: url::Url) -> Seq<char>;

/// Renders an `http::Uri` as text, as its `Display` does.
///
/// Believed of http: the text depends on the URI alone.
#[verifier::external_body]
pub(crate) fn uri_to_string(uri: &http::Uri) -> (r: String)
    ensures
        r@ == uri_text(*uri),
{
    uri.to_string()
}

/// Calls `Url::as_str`.
///
/// Believed of url: the call hands out the serialization that the URL holds.
#[verifier::external_body]
pub(crate) fn url_as_str(url: &url::Url) -> (r: &str)
    ensures
        r@ == url_text(*url),
{
    url.as_str()
}

/// The outcome of a conversion into a request, as views.
pub open spec fn request_view<E: View>(r: Result<Request, E>) -> Result<RequestModel, E::V> {
    match r {
        Ok(request) => Ok(request@),
        Err(e) => Err(e@),
    }
}

/// The request that a raw request converts into: its target read as a URI,
/// its headers stored in a header map. The target is looked at first.
pub open spec fn converted(request: RequestView) -> Result<RequestModel, HttpErrorView> {
    match request.path {
        None => Err(HttpErrorView::MalformattedUri(None)),
        Some(path) => match parsed_uri(path) {
            None => Err(HttpErrorView::MalformattedUri(Some(path))),
            Some(uri) => match stored(request.headers) {
                Err(text) => Err(HttpErrorView::MalformattedHeader(text)),
                Ok(headers) => Ok(RequestModel { uri, headers }),
            },
        },
    }
}

impl<'r> TryMap<Request> for &'r RawRequest {
    type Failure = HttpError;

    open spec fn mappable(&self) -> bool {
        self.headers@.len() <= HEADER_MAP_ROOM
    }

    /// Converts a raw request into an owned one. A request without a target,
    /// or with a target that is no URI, is refused as a malformed URI; a
    /// header that cannot be stored is refused with its diagnostic.
    fn try_map(self) -> (r: Result<Request, HttpError>)
        ensures
            request_view(r) == converted(self@),
    {
        let uri = match &self.path {
            Some(path) => match parse_uri(path.as_str()) {
                Some(uri) => uri_to_string(&uri),
                None => {
                    return Err(HttpError::MalformattedUri(Some(path.clone())));
                },
            },
            None => {
                return Err(HttpError::MalformattedUri(None));
            },
        };
        let headers: &[RawHeader] = self.headers.as_slice();
        match headers.try_map() {
            Ok(headers) => Ok(Request { uri, headers }),
            Err(e) => Err(e.into_http_error()),
        }
    }
}

/// The request that a text makes: a `GET` for the URI that the text reads
/// as, without headers.
pub open spec fn request_for(text: Seq<char>) -> Result<RequestModel, HandshakeErrorView> {
    match parsed_uri(text) {
        Some(uri) => Ok(RequestModel { uri, headers: Seq::<Entry>::empty() }),
        None => Err(HandshakeErrorView::Http(HttpErrorView::MalformattedUri(Some(text)))),
    }
}

/// A value that a request can be made from.
pub trait TryIntoRequest {
    /// Makes the request, or says why none can be made.
    fn try_into_request(self) -> (r: Result<Request, HandshakeError>);
}

impl<'a> TryIntoRequest for &'a str {
    fn try_into_request(self) -> (r: Result<Request, HandshakeError>)
        ensures
            request_view(r) == request_for(self@),
    {
        match parse_uri(self) {
            Some(uri) => Ok(
                Request { uri: uri_to_string(&uri), headers: header_map_with_capacity(0) },
            ),
            None => Err(HandshakeError::Http(HttpError::MalformattedUri(Some(self.to_owned())))),
        }
    }
}

impl<'a> TryIntoRequest for &'a String {
    fn try_into_request(self) -> (r: Result<Request, HandshakeError>)
        ensures
            request_view(r) == request_for(self@),
    {
        self.as_str().try_into_request()
    }
}

impl TryIntoRequest for String {
    fn try_into_request(self) -> (r: Result<Request, HandshakeError>)
        ensures
            request_view(r) == request_for(self@),
    {
        self.as_str().try_into_request()
    }
}

/// The request that a URI makes: a `GET` for it, without headers.
pub open spec fn request_to(uri: http::Uri) -> RequestModel {
    RequestModel { uri: uri_text(uri), headers: Seq::<Entry>::empty() }
}

impl<'a> TryIntoRequest for &'a http::Uri {
    fn try_into_request(self) -> (r: Result<Request, HandshakeError>)
        ensures
            r matches Ok(request) && request@ == request_to(*self),
    {
        Ok(Request { uri: uri_to_string(self), headers: header_map_with_capacity(0) })
    }
}

impl TryIntoRequest for http::Uri {
    fn try_into_request(self) -> (r: Result<Request, HandshakeError>)
        ensures
            r matches Ok(request) && request@ == request_to(self),
    {
        (&self).try_into_request()
    }
}

impl<'a> TryIntoRequest for &'a url::Url {
    /// A URL is read as the URI that its serialization spells.
    fn try_into_request(self) -> (r: Result<Request, HandshakeError>)
        ensures
            request_view(r) == request_for(url_text(*self)),
    {
        url_as_str(self).try_into_request()
    }
}

impl TryIntoRequest for url::Url {
    /// A URL is read as the URI that its serialization spells.
    fn try_into_request(self) -> (r: Result<Request, HandshakeError>)
        ensures
            request_view(r) == request_for(url_text(self)),
    {
        url_as_str(&self).try_into_request()
    }
}

impl TryIntoRequest for Request {
    /// A request that is built already passes through as it is.
    fn try_into_request(self) -> (r: Result<Request, HandshakeError>)
        ensures
            r == Ok::<Request, HandshakeError>(self),
    {
        Ok(self)
    }
}

} // verus!
