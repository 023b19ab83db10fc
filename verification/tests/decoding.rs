use bytes::Bytes;
use http::HeaderValue;
use ws_handshake::errors::{HandshakeError, HttpError, SyntaxError};
use ws_handshake::extension::{ExtensionProvider, NegotiatedExtension, NoExt, NoExtProvider};
use ws_handshake::server::{
    complete_handshake, parse_request, try_parse_request, HandshakeResult, RequestParser,
};
use ws_handshake::streaming::{next_step, Decoder, ParseResult, Step, StreamingParser};
use ws_handshake::subprotocols::ProtocolRegistry;
use ws_handshake::wire::{syntax_error, RawHeader, RawRequest};

const KEY: &[u8] = b"dGhlIHNhbXBsZSBub25jZQ==";

const REQUEST: &[u8] = b"GET /chat HTTP/1.1\r\nHost: example.com\r\nUpgrade: websocket\r\nConnection: Upgrade\r\nSec-WebSocket-Key: dGhlIHNhbXBsZSBub25jZQ==\r\nSec-WebSocket-Version: 13\r\nSec-WebSocket-Protocol: echo, chat\r\n\r\n";

struct Deflate;

impl ExtensionProvider for Deflate {
    type Extension = u32;

    fn negotiate_server(
        &self,
        headers: &[RawHeader],
    ) -> Result<Option<(u32, HeaderValue)>, String> {
        for h in headers {
            if h.name.eq_ignore_ascii_case("sec-websocket-extensions") {
                if h.value == b"permessage-deflate" {
                    return Ok(Some((15, HeaderValue::from_static("permessage-deflate"))));
                }
                return Err("unknown extension".to_string());
            }
        }
        Ok(None)
    }
}

fn registry(names: &[&str]) -> ProtocolRegistry {
    ProtocolRegistry::new(names.iter().map(|n| n.to_string()).collect())
}

fn parser() -> RequestParser<NoExtProvider> {
    RequestParser { subprotocols: registry(&["chat", "echo"]), extension: NoExtProvider }
}

fn empty_request() -> RawRequest {
    RawRequest { method: None, path: None, version: None, headers: Vec::new() }
}

fn check_result(result: &HandshakeResult<NoExt>) {
    assert_eq!(result.key, Bytes::from_static(KEY));
    assert_eq!(result.subprotocol, Some("chat".to_string()));
    assert_eq!(result.extension, NegotiatedExtension { extension: None });
    assert_eq!(result.extension_header, None);
    assert_eq!(result.request.uri, "/chat");
    assert_eq!(result.request.headers.len(), 6);
    assert_eq!(result.request.headers.get("sec-websocket-key").unwrap().as_bytes(), KEY);
}

#[test]
fn valid_request_decodes_with_its_key() {
    let (result, count) = parser().decode(REQUEST).unwrap().unwrap();
    assert_eq!(count, REQUEST.len());
    check_result(&result);
}

#[test]
fn bytes_behind_the_head_are_not_counted() {
    let mut buffer = REQUEST.to_vec();
    buffer.extend_from_slice(b"\x81\x05hello");
    let (result, count) = parser().decode(&buffer).unwrap().unwrap();
    assert_eq!(count, REQUEST.len());
    check_result(&result);
}

#[test]
fn one_byte_at_a_time_matches_one_shot() {
    let mut one_shot = StreamingParser::new(parser());
    let expected = one_shot.feed(REQUEST);
    let mut streaming = StreamingParser::new(parser());
    let mut last = None;
    for n in 1..=REQUEST.len() {
        match streaming.feed(&REQUEST[..n]) {
            Step::ReadMore => assert!(n < REQUEST.len(), "no decision on the whole request"),
            step => {
                assert_eq!(n, REQUEST.len(), "premature decision after {} bytes", n);
                last = Some(step);
            }
        }
    }
    assert_eq!(last, Some(expected));
    match last {
        Some(Step::Finish(result, count)) => {
            assert_eq!(count, REQUEST.len());
            check_result(&result);
        }
        other => panic!("unexpected step: {:?}", other),
    }
}

#[test]
fn truncated_request_asks_for_more() {
    for n in 0..REQUEST.len() {
        assert_eq!(parser().decode(&REQUEST[..n]), Ok(None), "after {} bytes", n);
    }
}

#[test]
fn wrong_method_fails_before_the_headers_arrive() {
    let r = parser().decode(b"POST /chat HTTP/1.1\r\nHost: exa");
    assert_eq!(r, Err(HandshakeError::Http(HttpError::HttpMethod(Some("POST".to_string())))));
    let r = parser().decode(b"POST /ch");
    assert_eq!(r, Err(HandshakeError::Http(HttpError::HttpMethod(Some("POST".to_string())))));
}

#[test]
fn wrong_version_fails_before_the_headers_arrive() {
    let r = parser().decode(b"GET /chat HTTP/1.0\r\nHost: exa");
    assert_eq!(r, Err(HandshakeError::Http(HttpError::HttpVersion(Some(0)))));
}

#[test]
fn post_with_valid_headers_is_a_method_error() {
    let text = String::from_utf8(REQUEST.to_vec()).unwrap().replacen("GET", "POST", 1);
    let r = parser().decode(text.as_bytes());
    assert_eq!(r, Err(HandshakeError::Http(HttpError::HttpMethod(Some("POST".to_string())))));
}

#[test]
fn http_1_0_with_valid_headers_is_a_version_error() {
    let text = String::from_utf8(REQUEST.to_vec()).unwrap().replacen("HTTP/1.1", "HTTP/1.0", 1);
    let r = parser().decode(text.as_bytes());
    assert_eq!(r, Err(HandshakeError::Http(HttpError::HttpVersion(Some(0)))));
}

#[test]
fn missing_header_in_a_whole_request_is_named() {
    let r = parser().decode(b"GET / HTTP/1.1\r\nHost: h\r\nUpgrade: websocket\r\n\r\n");
    assert_eq!(r, Err(HandshakeError::Http(HttpError::MissingHeader("connection".to_string()))));
}

#[test]
fn bytes_that_are_no_request_are_a_syntax_error() {
    let r = parser().decode(b"GET / HTTP/1.1\r\nBad Header: x\r\n\r\n");
    assert_eq!(r, Err(HandshakeError::Http(HttpError::Syntax(SyntaxError::HeaderName))));
    let r = parser().decode(b"GET / HTTP/9.9\r\n\r\n");
    assert_eq!(r, Err(HandshakeError::Http(HttpError::Syntax(SyntaxError::Version))));
    let r = parser().decode(b"G\x01T / HTTP/1.1\r\n\r\n");
    assert_eq!(r, Err(HandshakeError::Http(HttpError::Syntax(SyntaxError::Token))));
}

#[test]
fn more_headers_than_room_are_a_syntax_error() {
    let mut text = String::from("GET / HTTP/1.1\r\n");
    for i in 0..33 {
        text.push_str(&format!("x-{}: v\r\n", i));
    }
    text.push_str("\r\n");
    let r = parser().decode(text.as_bytes());
    assert_eq!(r, Err(HandshakeError::Http(HttpError::Syntax(SyntaxError::TooManyHeaders))));
}

#[test]
fn as_many_headers_as_room_are_accepted() {
    let mut text = String::from_utf8(REQUEST[..REQUEST.len() - 2].to_vec()).unwrap();
    for i in 0..26 {
        text.push_str(&format!("x-{}: v\r\n", i));
    }
    text.push_str("\r\n");
    let (result, count) = parser().decode(text.as_bytes()).unwrap().unwrap();
    assert_eq!(count, text.len());
    assert_eq!(result.request.headers.len(), 32);
}

#[test]
fn syntax_errors_keep_their_names() {
    assert_eq!(syntax_error(httparse::Error::HeaderName), SyntaxError::HeaderName);
    assert_eq!(syntax_error(httparse::Error::HeaderValue), SyntaxError::HeaderValue);
    assert_eq!(syntax_error(httparse::Error::NewLine), SyntaxError::NewLine);
    assert_eq!(syntax_error(httparse::Error::Status), SyntaxError::Status);
    assert_eq!(syntax_error(httparse::Error::Token), SyntaxError::Token);
    assert_eq!(syntax_error(httparse::Error::TooManyHeaders), SyntaxError::TooManyHeaders);
    assert_eq!(syntax_error(httparse::Error::Version), SyntaxError::Version);
}

#[test]
fn try_parse_request_leaves_what_was_read() {
    let mut request = empty_request();
    let mut subprotocols = registry(&["chat"]);
    let r = try_parse_request(b"GET /chat HTT", &mut request, &NoExtProvider, &mut subprotocols);
    assert_eq!(r, Ok(ParseResult::Partial));
    assert_eq!(request.method, Some("GET".to_string()));
    assert_eq!(request.path, Some("/chat".to_string()));
    assert_eq!(request.version, None);

    let mut request = empty_request();
    let r = try_parse_request(REQUEST, &mut request, &NoExtProvider, &mut subprotocols);
    match r {
        Ok(ParseResult::Complete(result, count)) => {
            assert_eq!(count, REQUEST.len());
            assert_eq!(result.key, Bytes::from_static(KEY));
            assert_eq!(result.subprotocol, Some("chat".to_string()));
        }
        other => panic!("unexpected outcome: {:?}", other),
    }
    assert_eq!(request.version, Some(1));
    assert_eq!(request.headers.len(), 6);
    assert_eq!(request.headers[0], RawHeader { name: "Host".to_string(), value: b"example.com".to_vec() });
    assert_eq!(subprotocols, registry(&["chat"]));
}

#[test]
fn try_parse_request_reports_a_wrong_method_only_when_whole() {
    let mut request = empty_request();
    let mut subprotocols = registry(&[]);
    let r = try_parse_request(b"POST / HTTP/1.1\r\n", &mut request, &NoExtProvider, &mut subprotocols);
    assert_eq!(r, Ok(ParseResult::Partial));
    let r = try_parse_request(b"POST / HTTP/1.1\r\n\r\n", &mut request, &NoExtProvider, &mut subprotocols);
    assert_eq!(r, Err(HandshakeError::Http(HttpError::HttpMethod(Some("POST".to_string())))));
}

fn upgrade_request(extra: Vec<RawHeader>) -> RawRequest {
    let mut headers = vec![
        RawHeader { name: "Host".to_string(), value: b"example.com".to_vec() },
        RawHeader { name: "Upgrade".to_string(), value: b"websocket".to_vec() },
        RawHeader { name: "Connection".to_string(), value: b"Upgrade".to_vec() },
        RawHeader { name: "Sec-WebSocket-Key".to_string(), value: KEY.to_vec() },
        RawHeader { name: "Sec-WebSocket-Version".to_string(), value: b"13".to_vec() },
    ];
    headers.extend(extra);
    RawRequest {
        method: Some("GET".to_string()),
        path: Some("/chat".to_string()),
        version: Some(1),
        headers,
    }
}

#[test]
fn extension_is_negotiated_with_its_header() {
    let request = upgrade_request(vec![RawHeader {
        name: "Sec-WebSocket-Extensions".to_string(),
        value: b"permessage-deflate".to_vec(),
    }]);
    let mut subprotocols = registry(&["chat"]);
    let result = parse_request(&request, &Deflate, &mut subprotocols).unwrap();
    assert_eq!(result.extension, NegotiatedExtension { extension: Some(15) });
    assert_eq!(result.extension_header, Some(HeaderValue::from_static("permessage-deflate")));
    assert_eq!(result.subprotocol, None);
    assert_eq!(result.key, Bytes::from_static(KEY));
}

#[test]
fn extension_failure_is_an_extension_error() {
    let request = upgrade_request(vec![
        RawHeader { name: "Sec-WebSocket-Extensions".to_string(), value: b"x-unknown".to_vec() },
        RawHeader { name: "Bad Name".to_string(), value: b"v".to_vec() },
    ]);
    let mut subprotocols = registry(&[]);
    let r = parse_request(&request, &Deflate, &mut subprotocols);
    assert_eq!(r, Err(HandshakeError::Extension("unknown extension".to_string())));
}

#[test]
fn validation_comes_before_the_extension() {
    let mut request = upgrade_request(vec![RawHeader {
        name: "Sec-WebSocket-Extensions".to_string(),
        value: b"x-unknown".to_vec(),
    }]);
    request.headers.remove(0);
    let mut subprotocols = registry(&[]);
    let r = parse_request(&request, &Deflate, &mut subprotocols);
    assert_eq!(r, Err(HandshakeError::Http(HttpError::MissingHeader("host".to_string()))));
}

#[test]
fn a_header_that_cannot_be_stored_fails_the_handshake() {
    let request = upgrade_request(vec![RawHeader { name: "Bad Name".to_string(), value: b"v".to_vec() }]);
    let mut subprotocols = registry(&[]);
    let r = parse_request(&request, &NoExtProvider, &mut subprotocols);
    assert_eq!(r, Err(HandshakeError::Http(HttpError::MalformattedHeader("Bad Name: v".to_string()))));
}

#[test]
fn a_request_without_target_fails_the_handshake() {
    let mut request = upgrade_request(Vec::new());
    request.path = None;
    let mut subprotocols = registry(&[]);
    let r = parse_request(&request, &NoExtProvider, &mut subprotocols);
    assert_eq!(r, Err(HandshakeError::Http(HttpError::MalformattedUri(None))));
}

#[test]
fn complete_handshake_puts_the_parts_together() {
    let request = upgrade_request(Vec::new());
    let r = complete_handshake(
        &request,
        Bytes::from_static(b"key"),
        Some("chat".to_string()),
        Ok(Some((7u8, HeaderValue::from_static("ext")))),
    )
    .unwrap();
    assert_eq!(r.key, Bytes::from_static(b"key"));
    assert_eq!(r.subprotocol, Some("chat".to_string()));
    assert_eq!(r.extension, NegotiatedExtension::from(Some(7u8)));
    assert_eq!(r.extension_header, Some(HeaderValue::from_static("ext")));
    assert_eq!(r.request.uri, "/chat");

    let r = complete_handshake::<u8>(&request, Bytes::new(), None, Err("no".to_string()));
    assert_eq!(r, Err(HandshakeError::Extension("no".to_string())));
}

#[test]
fn next_step_follows_the_decoder() {
    assert_eq!(next_step::<u8>(Ok(None)), Step::ReadMore);
    assert_eq!(next_step(Ok(Some((5u8, 9)))), Step::Finish(5u8, 9));
    assert_eq!(
        next_step::<u8>(Err(HandshakeError::Extension("e".to_string()))),
        Step::Fail(HandshakeError::Extension("e".to_string()))
    );
}

#[test]
fn no_ext_provider_agrees_on_nothing() {
    assert_eq!(NoExtProvider.negotiate_server(&[]), Ok(None));
}

const PLAIN: &[u8] = b"GET / HTTP/1.1\r\nHost: a\r\nUpgrade: websocket\r\nConnection: Upgrade\r\nSec-WebSocket-Key: dGhlIHNhbXBsZSBub25jZQ==\r\nSec-WebSocket-Version: 13\r\n\r\n";

fn parsed(bytes: &[u8]) -> RawRequest {
    let mut request = empty_request();
    let mut subprotocols = ProtocolRegistry::default();
    let r = try_parse_request(bytes, &mut request, &NoExtProvider, &mut subprotocols);
    assert!(matches!(r, Ok(ParseResult::Complete(_, _))));
    request
}

#[test]
fn tokenized_connection_is_accepted_without_extensions() {
    let request = parsed(b"GET / HTTP/1.1\r\nHost: a\r\nUpgrade: websocket\r\nConnection: keep-alive, Upgrade\r\nSec-WebSocket-Key: dGhlIHNhbXBsZSBub25jZQ==\r\nSec-WebSocket-Version: 13\r\n\r\n");
    let mut subprotocols = ProtocolRegistry::default();
    let r = parse_request(&request, &NoExtProvider, &mut subprotocols).unwrap();
    assert_eq!(r.key, Bytes::from_static(KEY));
    assert_eq!(r.subprotocol, None);
    assert_eq!(r.extension_header, None);
    assert_eq!(r.extension, NegotiatedExtension { extension: None });
    assert_eq!(subprotocols, ProtocolRegistry::default());
}

#[test]
fn parse_request_lets_the_registry_order_win() {
    let request = parsed(b"GET / HTTP/1.1\r\nHost: a\r\nUpgrade: websocket\r\nConnection: Upgrade\r\nSec-WebSocket-Key: dGhlIHNhbXBsZSBub25jZQ==\r\nSec-WebSocket-Version: 13\r\nSec-WebSocket-Protocol: echo, chat\r\n\r\n");
    let mut subprotocols = registry(&["chat", "echo"]);
    let r = parse_request(&request, &NoExtProvider, &mut subprotocols).unwrap();
    assert_eq!(r.subprotocol, Some("chat".to_string()));
}

#[test]
fn parse_request_succeeds_without_a_common_subprotocol() {
    let request = parsed(b"GET / HTTP/1.1\r\nHost: a\r\nUpgrade: websocket\r\nConnection: Upgrade\r\nSec-WebSocket-Key: dGhlIHNhbXBsZSBub25jZQ==\r\nSec-WebSocket-Version: 13\r\nSec-WebSocket-Protocol: echo\r\n\r\n");
    let mut subprotocols = registry(&["chat"]);
    let r = parse_request(&request, &NoExtProvider, &mut subprotocols).unwrap();
    assert_eq!(r.subprotocol, None);
    assert_eq!(r.key, Bytes::from_static(KEY));
}

fn plain_parser() -> RequestParser<NoExtProvider> {
    RequestParser { subprotocols: ProtocolRegistry::default(), extension: NoExtProvider }
}

fn check_plain(result: &HandshakeResult<NoExt>) {
    assert_eq!(result.key, Bytes::from_static(KEY));
    assert_eq!(result.subprotocol, None);
    assert_eq!(result.extension_header, None);
    assert_eq!(result.request.uri, "/");
    assert_eq!(result.request.headers.len(), 5);
    assert_eq!(result.request.headers["host"], "a");
}

#[test]
fn whole_request_decodes_with_its_length_as_count() {
    assert_eq!(PLAIN.len(), 140);
    let (result, count) = plain_parser().decode(PLAIN).unwrap().unwrap();
    assert_eq!(count, 140);
    check_plain(&result);
}

#[test]
fn count_stops_at_the_blank_line() {
    let mut buffer = PLAIN.to_vec();
    buffer.extend_from_slice(b"\x81\x00");
    assert_eq!(buffer.len(), 142);
    let (result, count) = plain_parser().decode(&buffer).unwrap().unwrap();
    assert_eq!(count, 140);
    check_plain(&result);
    let (without, _) = plain_parser().decode(PLAIN).unwrap().unwrap();
    assert_eq!(result, without);
}

#[test]
fn every_proper_prefix_asks_for_more_and_leaves_the_decoder() {
    for n in 0..PLAIN.len() {
        let mut parser = plain_parser();
        assert_eq!(parser.decode(&PLAIN[..n]), Ok(None), "after {} bytes", n);
        assert_eq!(parser.subprotocols, ProtocolRegistry::default());
    }
}

fn run_in_chunks(sizes: &[usize]) -> (Step<HandshakeResult<NoExt>>, usize) {
    let mut streaming = StreamingParser::new(parser());
    let mut end = 0;
    let mut reads = 0;
    for size in sizes.iter().cycle() {
        end = (end + size).min(REQUEST.len());
        reads += 1;
        match streaming.feed(&REQUEST[..end]) {
            Step::ReadMore => assert!(end < REQUEST.len(), "no decision on the whole request"),
            step => {
                assert_eq!(end, REQUEST.len(), "premature decision after {} bytes", end);
                return (step, reads);
            }
        }
    }
    unreachable!()
}

#[test]
fn chunks_of_any_size_match_one_shot() {
    let (expected, reads) = run_in_chunks(&[REQUEST.len()]);
    assert_eq!(reads, 1);
    match &expected {
        Step::Finish(result, count) => {
            assert_eq!(*count, REQUEST.len());
            check_result(result);
        }
        other => panic!("unexpected step: {:?}", other),
    }
    for sizes in [&[1usize][..], &[7], &[64], &[3, 1, 40], &[REQUEST.len() - 1, 1]] {
        let (step, _) = run_in_chunks(sizes);
        assert_eq!(step, expected, "chunks of {:?}", sizes);
    }
}

#[test]
fn a_provider_that_does_not_say_may_still_refuse() {
    let request = upgrade_request(vec![RawHeader {
        name: "Sec-WebSocket-Extensions".to_string(),
        value: b"x-unknown".to_vec(),
    }]);
    let mut subprotocols = ProtocolRegistry::default();
    let r = parse_request(&request, &Deflate, &mut subprotocols);
    assert_eq!(r, Err(HandshakeError::Extension("unknown extension".to_string())));
}
