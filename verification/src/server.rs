//! The server's side of the handshake: the rules that an upgrade request has
//! to meet, and the decoding of a request from a buffer.

use crate::ascii::{eq_ignore_ascii_case, eq_ignore_case, text_bytes};
use crate::buffers::shared_bytes;
use crate::errors::{
    opt_text, HandshakeError, HandshakeErrorView, HttpError, HttpErrorView,
};
use crate::extension::{
    is_determined, ExtensionProvider, Negotiated, NegotiatedExtension, NoExt, NoExtProvider,
};
use crate::header_map::{TryMap, HEADER_MAP_ROOM};
use crate::headers::{
    check_view, get_header, header_value, invalid, lookup_view, missing, validate_header,
    validate_header_value, value_check, value_lookup,
};
use crate::request::{converted, Request, RequestModel};
use crate::subprotocols::{agreed, negotiate_request, ProtocolRegistry};
use crate::tokens::{has_token, list_has_token};
use crate::wire::{
    header_views, parse_head, parsed_head, syntax_error, syntax_error_of, HeaderView, RawRequest,
    RequestView,
};
use crate::streaming::{
    is_chunking, run, run_ends_at_first_decision, step_for, Decoded, Decoder, ParseResult,
};
use vstd::prelude::*;

verus! {

/// The number of headers that a request may have.
pub const MAX_HEADERS: usize = 32;

/// The minor version that a request must have: HTTP/1.1.
pub const HTTP_VERSION_INT: u8 = 1;

/// What a successful handshake yields.
#[derive(Debug, PartialEq, Eq)]
pub struct HandshakeResult<E> {
    /// The value of the `Sec-WebSocket-Key` header, byte for byte.
    pub key: bytes::Bytes,
    /// The request in owned form.
    pub request: Request,
    /// The extension that was agreed on, if any.
    pub extension: NegotiatedExtension<E>,
    /// The subprotocol that was agreed on, if any.
    pub subprotocol: Option<String>,
    /// The header value that answers the client's extension offer, if any.
    pub extension_header: Option<http::HeaderValue>,
}

/// The method is `GET`, in any case.
pub open spec fn is_get(method: Option<Seq<char>>) -> bool {
    method matches Some(m) && eq_ignore_case(text_bytes(m), text_bytes("get"@))
}

/// The rule on the `Connection` header: it is there, and one entry of its
/// comma- or space-separated value is `upgrade`, in any case.
pub open spec fn connection_check(headers: Seq<HeaderView>) -> Result<(), HandshakeErrorView> {
    match header_value(headers, "connection"@) {
        None => Err(missing("connection"@)),
        Some(value) => if has_token(value, text_bytes("upgrade"@)) {
            Ok(())
        } else {
            Err(invalid("connection"@))
        },
    }
}

/// The rule on the `Host` header: it is there.
pub open spec fn host_check(headers: Seq<HeaderView>) -> Result<(), HandshakeErrorView> {
    match header_value(headers, "host"@) {
        None => Err(missing("host"@)),
        Some(_) => Ok(()),
    }
}

/// The outcome of two rules in a row: the error of the first, or else
/// whatever the second comes to.
pub open spec fn first_then<T>(
    first: Result<(), HandshakeErrorView>,
    second: Result<T, HandshakeErrorView>,
) -> Result<T, HandshakeErrorView> {
    match first {
        Err(e) => Err(e),
        Ok(()) => second,
    }
}

/// The rules of the upgrade handshake, in the order in which they are
/// applied; the first one that is broken decides the error. A request that
/// meets them all yields the value of its `Sec-WebSocket-Key` header.
pub open spec fn validated(request: RequestView) -> Result<Seq<u8>, HandshakeErrorView> {
    let headers = request.headers;
    if request.version != Some(HTTP_VERSION_INT) {
        Err(HandshakeErrorView::Http(HttpErrorView::HttpVersion(request.version)))
    } else if !is_get(request.method) {
        Err(HandshakeErrorView::Http(HttpErrorView::HttpMethod(request.method)))
    } else {
        first_then(
            connection_check(headers),
            first_then(
                value_check(headers, "upgrade"@, "websocket"@),
                first_then(
                    value_check(headers, "sec-websocket-version"@, "13"@),
                    first_then(host_check(headers), value_lookup(headers, "sec-websocket-key"@)),
                ),
            ),
        )
    }
}

/// Whether a method is `GET`, in any case.
pub fn method_is_get(method: &Option<String>) -> (r: bool)
    ensures
        r == is_get(opt_text(*method)),
{
    match method {
        Some(m) => eq_ignore_ascii_case(m.as_str().as_bytes(), "get".as_bytes()),
        None => false,
    }
}

/// Applies the rules of the upgrade handshake to a request that was parsed
/// whole, and returns the key that the client sent.
pub fn validate_request(request: &RawRequest) -> (r: Result<bytes::Bytes, HandshakeError>)
    ensures
        lookup_view(r) == validated(request@),
{
    match request.version {
        Some(HTTP_VERSION_INT) => {},
        v => {
            return Err(HandshakeError::Http(HttpError::HttpVersion(v)));
        },
    }
    if !method_is_get(&request.method) {
        return Err(HandshakeError::Http(HttpError::HttpMethod(request.method.clone())));
    }
    let headers = request.headers.as_slice();
    let connection = |name: &str, value: &[u8]| -> (out: Result<(), HandshakeError>)
        ensures
            check_view(out) == if has_token(value@, text_bytes("upgrade"@)) {
                Ok::<(), HandshakeErrorView>(())
            } else {
                Err::<(), HandshakeErrorView>(invalid(name@))
            },
        {
            if list_has_token(value, "upgrade".as_bytes()) {
                Ok(())
            } else {
                Err(HandshakeError::Http(HttpError::InvalidHeader(name.to_owned())))
            }
        };
    match validate_header(headers, "connection", connection) {
        Ok(()) => {},
        Err(e) => {
            return Err(e);
        },
    }
    match validate_header_value(headers, "upgrade", "websocket") {
        Ok(()) => {},
        Err(e) => {
            return Err(e);
        },
    }
    match validate_header_value(headers, "sec-websocket-version", "13") {
        Ok(()) => {},
        Err(e) => {
            return Err(e);
        },
    }
    let present = |name: &str, value: &[u8]| -> (out: Result<(), HandshakeError>)
        ensures
            out is Ok,
        { Ok(()) };
    match validate_header(headers, "host", present) {
        Ok(()) => {},
        Err(e) => {
            return Err(e);
        },
    }
    get_header(headers, "sec-websocket-key")
}

/// The fast check on a request of which only a part has arrived: a version
/// that is already known not to be HTTP/1.1, or a method that is already
/// known not to be `GET`, ends the handshake at once. The version is looked
/// at first.
pub open spec fn partial_check(request: RequestView) -> Result<(), HandshakeErrorView> {
    if request.version is Some && request.version != Some(HTTP_VERSION_INT) {
        Err(HandshakeErrorView::Http(HttpErrorView::HttpVersion(request.version)))
    } else if request.method is Some && !is_get(request.method) {
        Err(HandshakeErrorView::Http(HttpErrorView::HttpMethod(request.method)))
    } else {
        Ok(())
    }
}

/// Checks what has arrived of a request that is not complete yet, so that a
/// request that cannot become valid is refused before the rest of it arrives.
pub fn check_partial_request(request: &RawRequest) -> (r: Result<(), HandshakeError>)
    ensures
        check_view(r) == partial_check(request@),
{
    match request.version {
        Some(HTTP_VERSION_INT) | None => {},
        Some(v) => {
            return Err(HandshakeError::Http(HttpError::HttpVersion(Some(v))));
        },
    }
    match &request.method {
        None => {},
        Some(_) => {
            if !method_is_get(&request.method) {
                return Err(HandshakeError::Http(HttpError::HttpMethod(request.method.clone())));
            }
        },
    }
    Ok(())
}

/// What a [`HandshakeResult`] holds.
pub struct HandshakeView<E> {
    pub key: Seq<u8>,
    pub request: RequestModel,
    pub extension: Option<E>,
    pub subprotocol: Option<Seq<char>>,
    pub extension_header: Option<http::HeaderValue>,
}

impl<E> View for HandshakeResult<E> {
    type V = HandshakeView<E>;

    open spec fn view(&self) -> HandshakeView<E> {
        HandshakeView {
            key: shared_bytes(self.key),
            request: self.request@,
            extension: self.extension.extension,
            subprotocol: opt_text(self.subprotocol),
            extension_header: self.extension_header,
        }
    }
}

/// What a handshake came to, as views.
pub type Outcome<E> = Result<HandshakeView<E>, HandshakeErrorView>;

/// The outcome of a handshake, as views.
pub open spec fn result_view<E>(r: Result<HandshakeResult<E>, HandshakeError>) -> Outcome<E> {
    match r {
        Ok(result) => Ok(result@),
        Err(e) => Err(e@),
    }
}

/// The outcome of a handshake whose request met every rule, given the key of
/// the request, the subprotocol agreed on and the provider's answer: the
/// provider's refusal, or else the error of the request's conversion, or
/// else the result with every part in its place.
pub open spec fn outcome<E>(
    request: RequestView,
    key: Seq<u8>,
    subprotocol: Option<Seq<char>>,
    negotiated: Negotiated<E>,
) -> Outcome<E> {
    match negotiated {
        Err(message) => Err(HandshakeErrorView::Extension(message@)),
        Ok(answer) => match converted(request) {
            Err(cause) => Err(HandshakeErrorView::Http(cause)),
            Ok(model) => Ok(
                HandshakeView {
                    key,
                    request: model,
                    extension: match answer {
                        Some((extension, _)) => Some(extension),
                        None => None,
                    },
                    subprotocol,
                    extension_header: match answer {
                        Some((_, header)) => Some(header),
                        None => None,
                    },
                },
            ),
        },
    }
}

/// Puts the result of a handshake together once the request has met every
/// rule and the extension provider has answered.
pub fn complete_handshake<E>(
    request: &RawRequest,
    key: bytes::Bytes,
    subprotocol: Option<String>,
    negotiated: Negotiated<E>,
) -> (r: Result<HandshakeResult<E>, HandshakeError>)
    requires
        request.headers@.len() <= HEADER_MAP_ROOM,
    ensures
        result_view(r) == outcome(request@, shared_bytes(key), opt_text(subprotocol), negotiated),
{
    let (extension, extension_header) = match negotiated {
        Ok(Some((extension, header))) => (NegotiatedExtension::from(Some(extension)), Some(header)),
        Ok(None) => (NegotiatedExtension::from(None), None),
        Err(message) => {
            return Err(HandshakeError::Extension(message));
        },
    };
    match request.try_map() {
        Ok(request) => Ok(HandshakeResult { key, request, extension, subprotocol, extension_header }),
        Err(cause) => Err(HandshakeError::Http(cause)),
    }
}

/// What a handshake comes to for a request that was parsed whole: the error
/// of the first rule that the request breaks; or else, for an answer that
/// the provider gives to the headers of the request, the outcome with the
/// request's key and the subprotocol that registry and request agree on.
pub open spec fn is_handshake<P: ExtensionProvider>(
    view: Outcome<P::Extension>,
    request: RequestView,
    registry: Seq<Seq<char>>,
    provider: P,
) -> bool {
    match validated(request) {
        Err(e) => view == Err::<HandshakeView<P::Extension>, HandshakeErrorView>(e),
        Ok(key) => exists|negotiated: Negotiated<P::Extension>|
            #[trigger] provider.answers(request.headers, negotiated) && view == outcome(
                request,
                key,
                agreed(registry, request.headers),
                negotiated,
            ),
    }
}

/// Decides on a request that was parsed whole: applies the rules of the
/// handshake, chooses the subprotocol, asks the extension provider about the
/// headers of the request, and converts the request. The first failure is
/// the outcome; the registry is left as it was.
pub fn parse_request<E: ExtensionProvider>(
    request: &RawRequest,
    extension: &E,
    subprotocols: &mut ProtocolRegistry,
) -> (r: Result<HandshakeResult<E::Extension>, HandshakeError>)
    requires
        request.headers@.len() <= HEADER_MAP_ROOM,
    ensures
        *final(subprotocols) == *old(subprotocols),
        is_handshake(result_view(r), request@, old(subprotocols)@, *extension),
{
    let key = match validate_request(request) {
        Ok(key) => key,
        Err(e) => {
            return Err(e);
        },
    };
    let subprotocol = negotiate_request(subprotocols, request);
    let negotiated = extension.negotiate_server(request.headers.as_slice());
    let r = complete_handshake(request, key, subprotocol, negotiated);
    proof {
        assert(validated(request@) is Ok && validated(request@)->Ok_0 == shared_bytes(key));
        assert(extension.answers(request@.headers, negotiated));
    }
    r
}

/// The request is a valid upgrade request: HTTP/1.1, `GET`, and each of the
/// mandatory headers there with a value that the handshake accepts.
pub open spec fn is_upgrade(request: RequestView) -> bool {
    let headers = request.headers;
    &&& request.version == Some(HTTP_VERSION_INT)
    &&& is_get(request.method)
    &&& connection_check(headers) is Ok
    &&& value_check(headers, "upgrade"@, "websocket"@) is Ok
    &&& value_check(headers, "sec-websocket-version"@, "13"@) is Ok
    &&& host_check(headers) is Ok
    &&& header_value(headers, "sec-websocket-key"@) is Some
}

/// A valid upgrade request meets every rule, and the key that validation
/// yields is the value of its `Sec-WebSocket-Key` header, byte for byte.
pub proof fn upgrade_request_is_valid(request: RequestView)
    requires
        is_upgrade(request),
    ensures
        validated(request) == Ok::<Seq<u8>, HandshakeErrorView>(
            header_value(request.headers, "sec-websocket-key"@)->0,
        ),
{
}

/// A valid upgrade request is accepted, with the key it sent and the
/// subprotocol agreed on, whenever the request converts into its owned form
/// and the extension provider does not refuse it.
pub proof fn upgrade_request_is_accepted<P: ExtensionProvider>(
    view: Outcome<P::Extension>,
    request: RequestView,
    registry: Seq<Seq<char>>,
    provider: P,
)
    requires
        is_upgrade(request),
        converted(request) is Ok,
        forall|negotiated: Negotiated<P::Extension>|
            #[trigger] provider.answers(request.headers, negotiated) ==> negotiated is Ok,
        is_handshake(view, request, registry, provider),
    ensures
        view is Ok,
        view->Ok_0.key == header_value(request.headers, "sec-websocket-key"@)->0,
        view->Ok_0.subprotocol == agreed(registry, request.headers),
        view->Ok_0.request == converted(request)->Ok_0,
{
}

/// Without extensions, a valid upgrade request that converts into its owned
/// form is accepted, and every part of the result is fixed: the key it sent,
/// the subprotocol agreed on, no extension and no extension header.
pub proof fn upgrade_request_is_accepted_without_extensions(
    view: Outcome<NoExt>,
    request: RequestView,
    registry: Seq<Seq<char>>,
)
    requires
        is_upgrade(request),
        converted(request) is Ok,
        is_handshake(view, request, registry, NoExtProvider),
    ensures
        view == Ok::<HandshakeView<NoExt>, HandshakeErrorView>(
            HandshakeView {
                key: header_value(request.headers, "sec-websocket-key"@)->0,
                request: converted(request)->Ok_0,
                extension: None,
                subprotocol: agreed(registry, request.headers),
                extension_header: None,
            },
        ),
{
}

/// A handshake has one outcome where the provider has one answer.
pub proof fn handshake_is_determined<P: ExtensionProvider>(
    first: Outcome<P::Extension>,
    second: Outcome<P::Extension>,
    request: RequestView,
    registry: Seq<Seq<char>>,
    provider: P,
)
    requires
        is_determined(provider),
        is_handshake(first, request, registry, provider),
        is_handshake(second, request, registry, provider),
    ensures
        first == second,
{
}

/// The rule on one of the mandatory headers.
pub open spec fn mandatory_check(headers: Seq<HeaderView>, name: Seq<char>) -> Result<
    (),
    HandshakeErrorView,
> {
    if name == "connection"@ {
        connection_check(headers)
    } else if name == "upgrade"@ {
        value_check(headers, "upgrade"@, "websocket"@)
    } else if name == "sec-websocket-version"@ {
        value_check(headers, "sec-websocket-version"@, "13"@)
    } else if name == "host"@ {
        host_check(headers)
    } else {
        match value_lookup(headers, "sec-websocket-key"@) {
            Ok(_) => Ok(()),
            Err(e) => Err(e),
        }
    }
}

/// The name is that of a mandatory header.
pub open spec fn is_mandatory(name: Seq<char>) -> bool {
    ||| name == "connection"@
    ||| name == "upgrade"@
    ||| name == "sec-websocket-version"@
    ||| name == "host"@
    ||| name == "sec-websocket-key"@
}

/// The names of the mandatory headers differ from each other.
proof fn mandatory_names_differ()
    ensures
        "connection"@ != "upgrade"@,
        "connection"@ != "sec-websocket-version"@,
        "connection"@ != "host"@,
        "connection"@ != "sec-websocket-key"@,
        "upgrade"@ != "sec-websocket-version"@,
        "upgrade"@ != "host"@,
        "upgrade"@ != "sec-websocket-key"@,
        "sec-websocket-version"@ != "host"@,
        "sec-websocket-version"@ != "sec-websocket-key"@,
        "host"@ != "sec-websocket-key"@,
{
    reveal_strlit("connection");
    reveal_strlit("upgrade");
    reveal_strlit("sec-websocket-version");
    reveal_strlit("host");
    reveal_strlit("sec-websocket-key");
    assert("connection"@.len() == 10);
    assert("upgrade"@.len() == 7);
    assert("sec-websocket-version"@.len() == 21);
    assert("host"@.len() == 4);
    assert("sec-websocket-key"@.len() == 17);
}

/// Where a `GET` request of HTTP/1.1 breaks the rule on one mandatory header
/// and meets the rules on all the others, the error is the one of that
/// header: a missing-header error that names it where it is absent, an
/// invalid-header error that names it where its value is not accepted.
pub proof fn broken_rule_is_named(request: RequestView, name: Seq<char>)
    requires
        request.version == Some(HTTP_VERSION_INT),
        is_get(request.method),
        is_mandatory(name),
        mandatory_check(request.headers, name) is Err,
        forall|other: Seq<char>|
            is_mandatory(other) && other != name ==> #[trigger] mandatory_check(
                request.headers,
                other,
            ) is Ok,
    ensures
        validated(request) is Err,
        validated(request)->Err_0 == mandatory_check(request.headers, name)->Err_0,
        header_value(request.headers, name) is None ==> validated(request)->Err_0 == missing(
            name,
        ),
        header_value(request.headers, name) is Some ==> validated(request)->Err_0 == invalid(
            name,
        ),
{
    mandatory_names_differ();
    let headers = request.headers;
    assert(is_mandatory("connection"@));
    assert(is_mandatory("upgrade"@));
    assert(is_mandatory("sec-websocket-version"@));
    assert(is_mandatory("host"@));
    assert(is_mandatory("sec-websocket-key"@));
    if name != "connection"@ {
        assert(mandatory_check(headers, "connection"@) is Ok);
    }
    if name != "upgrade"@ {
        assert(mandatory_check(headers, "upgrade"@) is Ok);
    }
    if name != "sec-websocket-version"@ {
        assert(mandatory_check(headers, "sec-websocket-version"@) is Ok);
    }
    if name != "host"@ {
        assert(mandatory_check(headers, "host"@) is Ok);
    }
    if name != "sec-websocket-key"@ {
        assert(mandatory_check(headers, "sec-websocket-key"@) is Ok);
    }
}

/// A version other than HTTP/1.1 is refused first, whatever else the request
/// holds; on HTTP/1.1, a method other than `GET` is refused next, whatever
/// the headers are.
pub proof fn version_and_method_come_first(request: RequestView)
    ensures
        request.version != Some(HTTP_VERSION_INT) ==> validated(request) == Err::<
            Seq<u8>,
            HandshakeErrorView,
        >(HandshakeErrorView::Http(HttpErrorView::HttpVersion(request.version))),
        request.version == Some(HTTP_VERSION_INT) && !is_get(request.method) ==> validated(request)
            == Err::<Seq<u8>, HandshakeErrorView>(
            HandshakeErrorView::Http(HttpErrorView::HttpMethod(request.method)),
        ),
{
}

/// The error for bytes that are not an HTTP message.
pub open spec fn syntax(e: httparse::Error) -> HandshakeErrorView {
    HandshakeErrorView::Http(HttpErrorView::Syntax(syntax_error_of(e)))
}

/// What decoding came to, as views: an outcome with the number of bytes
/// that the request takes up, or `None` while the request is incomplete.
pub type Decoding<E> = Result<Option<(HandshakeView<E>, usize)>, HandshakeErrorView>;

/// What [`try_parse_request`] returned, as views.
pub open spec fn parse_view<E>(
    r: Result<ParseResult<HandshakeResult<E>>, HandshakeError>,
) -> Decoding<E> {
    match r {
        Ok(ParseResult::Complete(result, count)) => Ok(Some((result@, count))),
        Ok(ParseResult::Partial) => Ok(None),
        Err(e) => Err(e@),
    }
}

/// What a decoder returned, as views.
pub open spec fn decoded_view<E>(r: Decoded<HandshakeResult<E>>) -> Decoding<E> {
    match r {
        Ok(Some((result, count))) => Ok(Some((result@, count))),
        Ok(None) => Ok(None),
        Err(e) => Err(e@),
    }
}

/// The outcome of a handshake together with the number of bytes of its request.
pub open spec fn counted<E>(outcome: Outcome<E>, count: usize) -> Decoding<E> {
    match outcome {
        Ok(result) => Ok(Some((result, count))),
        Err(e) => Err(e),
    }
}

/// What decoding makes of a buffer, given what the byte-level parser makes
/// of it: a syntax error ends the attempt; a head that is not complete yet
/// is partial; a complete head is decided on as [`parse_request`] does, and
/// its length is the count.
pub open spec fn is_decoding<P: ExtensionProvider>(
    view: Decoding<P::Extension>,
    parsed: Result<(Option<usize>, RequestView), httparse::Error>,
    registry: Seq<Seq<char>>,
    provider: P,
) -> bool {
    match parsed {
        Err(e) => view == Err::<Option<(HandshakeView<P::Extension>, usize)>, HandshakeErrorView>(
            syntax(e),
        ),
        Ok((None, _)) => view == Ok::<
            Option<(HandshakeView<P::Extension>, usize)>,
            HandshakeErrorView,
        >(None),
        Ok((Some(count), head)) => exists|outcome: Outcome<P::Extension>|
            #[trigger] is_handshake(outcome, head, registry, provider) && view == counted(
                outcome,
                count,
            ),
    }
}

/// Parses the head of a request from `buffer` and, where the head is
/// complete, decides on the request. Whatever the parser read is left in
/// `request`, so that a partial request can be checked early.
pub fn try_parse_request<E: ExtensionProvider>(
    buffer: &[u8],
    request: &mut RawRequest,
    extension: &E,
    subprotocols: &mut ProtocolRegistry,
) -> (r: Result<ParseResult<HandshakeResult<E::Extension>>, HandshakeError>)
    ensures
        *final(subprotocols) == *old(subprotocols),
        is_decoding(
            parse_view(r),
            parsed_head(buffer@, MAX_HEADERS as nat),
            old(subprotocols)@,
            *extension,
        ),
        match parsed_head(buffer@, MAX_HEADERS as nat) {
            Ok((count, head)) => final(request)@ == head && (count matches Some(n) ==> n
                <= buffer@.len()),
            Err(_) => *final(request) == *old(request),
        },
{
    match parse_head(buffer, MAX_HEADERS) {
        Ok((Some(count), head)) => {
            *request = head;
            let decided = parse_request(request, extension, subprotocols);
            let r = match decided {
                Ok(result) => Ok(ParseResult::Complete(result, count)),
                Err(e) => Err(e),
            };
            proof {
                let outcome = result_view(decided);
                assert(is_handshake(outcome, request@, old(subprotocols)@, *extension));
                assert(parse_view(r) == counted(outcome, count));
            }
            r
        },
        Ok((None, head)) => {
            *request = head;
            Ok(ParseResult::Partial)
        },
        Err(e) => Err(HandshakeError::Http(HttpError::Syntax(syntax_error(e)))),
    }
}

/// The decoder of the server's handshake: it holds the subprotocols that the
/// server supports and the extension provider.
pub struct RequestParser<E> {
    pub subprotocols: ProtocolRegistry,
    pub extension: E,
}

/// What [`RequestParser`] makes of a buffer, given what the byte-level parser
/// makes of it: as [`try_parse_request`] does, but that a partial request is
/// checked at once for a version or a method that rules it out.
pub open spec fn is_decoded<P: ExtensionProvider>(
    view: Decoding<P::Extension>,
    parsed: Result<(Option<usize>, RequestView), httparse::Error>,
    registry: Seq<Seq<char>>,
    provider: P,
) -> bool {
    match parsed {
        Ok((None, head)) => view == match partial_check(head) {
            Err(e) => Err::<Option<(HandshakeView<P::Extension>, usize)>, HandshakeErrorView>(e),
            Ok(()) => Ok(None),
        },
        _ => is_decoding(view, parsed, registry, provider),
    }
}

/// The decoder waits for the whole head: it asks for more bytes exactly
/// when the head is incomplete and what has arrived passes the fast check,
/// it yields a result only for a complete head, and on an incomplete head
/// its only errors are those of the fast check.
pub proof fn decoder_waits_for_the_whole_head<P: ExtensionProvider>(
    view: Decoding<P::Extension>,
    parsed: Result<(Option<usize>, RequestView), httparse::Error>,
    registry: Seq<Seq<char>>,
    provider: P,
)
    requires
        is_decoded(view, parsed, registry, provider),
    ensures
        view matches Ok(None) <==> (parsed matches Ok((None, head)) && partial_check(head) is Ok),
        view matches Ok(Some(_)) ==> parsed matches Ok((Some(_), _)),
        view matches Ok(Some((_, count))) ==> parsed matches Ok((Some(n), _)) && count == n,
        parsed matches Ok((None, head)) ==> (view matches Err(e) ==> partial_check(head) == Err::<
            (),
            HandshakeErrorView,
        >(e)),
{
}

/// The decoder has one answer to each buffer where the provider has one
/// answer to each request.
pub proof fn decoding_is_determined<P: ExtensionProvider>(
    first: Decoding<P::Extension>,
    second: Decoding<P::Extension>,
    parsed: Result<(Option<usize>, RequestView), httparse::Error>,
    registry: Seq<Seq<char>>,
    provider: P,
)
    requires
        is_determined(provider),
        is_decoded(first, parsed, registry, provider),
        is_decoded(second, parsed, registry, provider),
    ensures
        first == second,
{
    match parsed {
        Ok((Some(count), head)) => {
            let a = choose|outcome: Outcome<P::Extension>|
                #[trigger] is_handshake(outcome, head, registry, provider) && first == counted(
                    outcome,
                    count,
                );
            let b = choose|outcome: Outcome<P::Extension>|
                #[trigger] is_handshake(outcome, head, registry, provider) && second == counted(
                    outcome,
                    count,
                );
            handshake_is_determined(a, b, head, registry, provider);
        },
        _ => {},
    }
}

/// A request that arrives in chunks of any size is decided on when its last
/// byte has arrived, and not before. Let `parse` say what the byte-level
/// parser makes of a buffer. Where it finds every input that is cut short
/// incomplete, with nothing in it that the fast check rules out, and the
/// whole input decisive, a run of the decoder asks for more after every read
/// but the last, and ends with what the decoder makes of the whole input.
pub proof fn chunked_run_ends_with_the_whole_input<P: ExtensionProvider>(
    parse: spec_fn(Seq<u8>) -> Result<(Option<usize>, RequestView), httparse::Error>,
    registry: Seq<Seq<char>>,
    provider: P,
    input: Seq<u8>,
    cuts: Seq<int>,
    outcomes: Seq<Decoded<HandshakeResult<P::Extension>>>,
)
    requires
        is_chunking(cuts, input.len() as int),
        outcomes.len() == cuts.len(),
        forall|i: int|
            0 <= i < cuts.len() ==> is_decoded(
                decoded_view(#[trigger] outcomes[i]),
                parse(input.take(cuts[i])),
                registry,
                provider,
            ),
        forall|n: int|
            0 < n < input.len() ==> (#[trigger] parse(input.take(n)) matches Ok((None, head))
                && partial_check(head) is Ok),
        !(parse(input) matches Ok((None, head)) && partial_check(head) is Ok),
    ensures
        forall|i: int|
            0 <= i < cuts.len() - 1 ==> #[trigger] outcomes[i] == Ok::<
                Option<(HandshakeResult<P::Extension>, usize)>,
                HandshakeError,
            >(None),
        is_decoded(decoded_view(outcomes.last()), parse(input), registry, provider),
        run(outcomes) == Some(step_for(outcomes.last())),
{
    let last = cuts.len() - 1;
    assert(input.take(cuts[last]) =~= input);
    assert(is_decoded(decoded_view(outcomes[last]), parse(input.take(cuts[last])), registry, provider));
    assert forall|i: int| 0 <= i < last implies #[trigger] outcomes[i] == Ok::<
        Option<(HandshakeResult<P::Extension>, usize)>,
        HandshakeError,
    >(None) by {
        assert(0 < cuts[i] < cuts[last]) by {
            if i > 0 {
                assert(cuts[0] < cuts[i]);
            }
        }
        assert(is_decoded(decoded_view(outcomes[i]), parse(input.take(cuts[i])), registry, provider));
        decoder_waits_for_the_whole_head(
            decoded_view(outcomes[i]),
            parse(input.take(cuts[i])),
            registry,
            provider,
        );
    }
    decoder_waits_for_the_whole_head(decoded_view(outcomes[last]), parse(input), registry, provider);
    run_ends_at_first_decision(outcomes, last);
}

/// However a request is cut into chunks, the run comes to the same: two runs
/// of the decoder over the same input, each with its own chunks, end with
/// results that hold the same key, request, subprotocol, extension and
/// extension header, and the same count, where the provider has one answer
/// to each request.
pub proof fn chunked_runs_agree<P: ExtensionProvider>(
    parse: spec_fn(Seq<u8>) -> Result<(Option<usize>, RequestView), httparse::Error>,
    registry: Seq<Seq<char>>,
    provider: P,
    input: Seq<u8>,
    first_cuts: Seq<int>,
    first: Seq<Decoded<HandshakeResult<P::Extension>>>,
    second_cuts: Seq<int>,
    second: Seq<Decoded<HandshakeResult<P::Extension>>>,
)
    requires
        is_determined(provider),
        is_chunking(first_cuts, input.len() as int),
        is_chunking(second_cuts, input.len() as int),
        first.len() == first_cuts.len(),
        second.len() == second_cuts.len(),
        forall|i: int|
            0 <= i < first_cuts.len() ==> is_decoded(
                decoded_view(#[trigger] first[i]),
                parse(input.take(first_cuts[i])),
                registry,
                provider,
            ),
        forall|i: int|
            0 <= i < second_cuts.len() ==> is_decoded(
                decoded_view(#[trigger] second[i]),
                parse(input.take(second_cuts[i])),
                registry,
                provider,
            ),
        forall|n: int|
            0 < n < input.len() ==> (#[trigger] parse(input.take(n)) matches Ok((None, head))
                && partial_check(head) is Ok),
        !(parse(input) matches Ok((None, head)) && partial_check(head) is Ok),
    ensures
        run(first) == Some(step_for(first.last())),
        run(second) == Some(step_for(second.last())),
        decoded_view(first.last()) == decoded_view(second.last()),
{
    chunked_run_ends_with_the_whole_input(parse, registry, provider, input, first_cuts, first);
    chunked_run_ends_with_the_whole_input(parse, registry, provider, input, second_cuts, second);
    decoding_is_determined(
        decoded_view(first.last()),
        decoded_view(second.last()),
        parse(input),
        registry,
        provider,
    );
}

/// Without extensions, a buffer that holds a whole valid upgrade request
/// which converts into its owned form is decoded into the one result that
/// the request fixes, with the length of the request as the count.
pub proof fn upgrade_request_is_decoded_without_extensions(
    view: Decoding<NoExt>,
    count: usize,
    head: RequestView,
    registry: Seq<Seq<char>>,
)
    requires
        is_upgrade(head),
        converted(head) is Ok,
        is_decoded(view, Ok((Some(count), head)), registry, NoExtProvider),
    ensures
        view == Ok::<Option<(HandshakeView<NoExt>, usize)>, HandshakeErrorView>(
            Some(
                (
                    HandshakeView {
                        key: header_value(head.headers, "sec-websocket-key"@)->0,
                        request: converted(head)->Ok_0,
                        extension: None,
                        subprotocol: agreed(registry, head.headers),
                        extension_header: None,
                    },
                    count,
                ),
            ),
        ),
{
    let outcome = choose|outcome: Outcome<NoExt>|
        #[trigger] is_handshake(outcome, head, registry, NoExtProvider) && view == counted(
            outcome,
            count,
        );
    upgrade_request_is_accepted_without_extensions(outcome, head, registry);
}

impl<E: ExtensionProvider> Decoder for RequestParser<E> {
    type Item = HandshakeResult<E::Extension>;

    open spec fn decodes(&self, buffer: Seq<u8>, r: Decoded<Self::Item>, after: &Self) -> bool {
        &&& is_decoded(
            decoded_view(r),
            parsed_head(buffer, MAX_HEADERS as nat),
            self.subprotocols@,
            self.extension,
        )
        &&& *after == *self
    }

    /// Decodes a handshake request from everything that has been read so
    /// far. While the request is incomplete the answer is `None`, unless
    /// what has arrived already rules the request out. The decoder itself
    /// stays as it is.
    fn decode(&mut self, buffer: &[u8]) -> (r: Decoded<Self::Item>)
        ensures
            r matches Ok(Some((_, count))) ==> count <= buffer@.len(),
    {
        let mut request = RawRequest { method: None, path: None, version: None, headers: Vec::new() };
        match try_parse_request(buffer, &mut request, &self.extension, &mut self.subprotocols) {
            Ok(ParseResult::Complete(result, count)) => Ok(Some((result, count))),
            Ok(ParseResult::Partial) => {
                match check_partial_request(&request) {
                    Ok(()) => Ok(None),
                    Err(e) => Err(e),
                }
            },
            Err(e) => Err(e),
        }
    }
}

} // verus!
