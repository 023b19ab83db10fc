use http::header::HeaderName;
use http::{HeaderMap, HeaderValue};
use ws_handshake::errors::{HandshakeError, HttpError, InvalidHeader};
use ws_handshake::header_map::{header_diagnostic, TryMap};
use ws_handshake::request::{Request, TryIntoRequest};
use ws_handshake::wire::{RawHeader, RawRequest};

fn header(name: &str, value: &[u8]) -> RawHeader {
    RawHeader { name: name.to_string(), value: value.to_vec() }
}

fn convert(headers: &[RawHeader]) -> Result<HeaderMap, InvalidHeader> {
    headers.try_map()
}

fn pairs(map: &HeaderMap) -> Vec<(String, Vec<u8>)> {
    map.iter().map(|(n, v)| (n.as_str().to_string(), v.as_bytes().to_vec())).collect()
}

#[test]
fn headers_are_stored_under_lower_case_names_in_order() {
    let map = convert(&[header("Host", b"example.com"), header("X-Custom", b"\xfa")]).unwrap();
    assert_eq!(
        pairs(&map),
        vec![
            ("host".to_string(), b"example.com".to_vec()),
            ("x-custom".to_string(), vec![0xfau8]),
        ]
    );
}

#[test]
fn a_later_header_replaces_an_earlier_one_in_place() {
    let map = convert(&[header("A", b"1"), header("b", b"2"), header("a", b"3")]).unwrap();
    assert_eq!(
        pairs(&map),
        vec![("a".to_string(), b"3".to_vec()), ("b".to_string(), b"2".to_vec())]
    );
    assert_eq!(map.get("A"), Some(&HeaderValue::from_static("3")));
}

#[test]
fn no_headers_make_an_empty_map() {
    assert!(convert(&[]).unwrap().is_empty());
}

#[test]
fn a_space_in_a_name_is_refused_with_the_diagnostic() {
    let r = convert(&[header("Host", b"h"), header("Bad Name", b"some value")]);
    assert_eq!(r, Err(InvalidHeader("Bad Name: some value".to_string())));
}

#[test]
fn a_control_character_in_a_name_is_refused() {
    let r = convert(&[header("Bad\tName", b"v")]);
    assert_eq!(r, Err(InvalidHeader("Bad\tName: v".to_string())));
    let r = convert(&[header("Bad\x7fName", b"v")]);
    assert_eq!(r, Err(InvalidHeader("Bad\x7fName: v".to_string())));
}

#[test]
fn an_empty_name_is_refused() {
    assert_eq!(convert(&[header("", b"v")]), Err(InvalidHeader(": v".to_string())));
}

#[test]
fn a_name_beyond_ascii_is_refused() {
    assert_eq!(convert(&[header("n\u{e9}", b"v")]), Err(InvalidHeader("n\u{e9}: v".to_string())));
}

#[test]
fn separators_in_a_name_are_refused() {
    for name in ["a:b", "a(b", "a,b", "a/b", "a[b", "a{b", "a=b", "a@b"] {
        assert!(convert(&[header(name, b"v")]).is_err(), "{}", name);
    }
}

#[test]
fn token_characters_in_a_name_are_accepted() {
    let map = convert(&[header("!#$%&'*+-.^_`|~09AZaz", b"v")]).unwrap();
    assert_eq!(pairs(&map), vec![("!#$%&'*+-.^_`|~09azaz".to_string(), b"v".to_vec())]);
}

#[test]
fn a_double_quote_in_a_name_is_accepted() {
    let map = convert(&[header("a\"b", b"v")]).unwrap();
    assert_eq!(pairs(&map), vec![("a\"b".to_string(), b"v".to_vec())]);
}

#[test]
fn a_long_name_is_accepted_up_to_the_limit() {
    let long = "a".repeat(65535);
    assert!(convert(&[header(&long, b"v")]).is_ok());
    let too_long = "a".repeat(65536);
    assert!(convert(&[header(&too_long, b"v")]).is_err());
    let upper = "A".repeat(100);
    let map = convert(&[header(&upper, b"v")]).unwrap();
    assert_eq!(pairs(&map), vec![("a".repeat(100), b"v".to_vec())]);
}

#[test]
fn a_control_character_in_a_value_is_refused() {
    let r = convert(&[header("Name", b"a\nb")]);
    assert_eq!(r, Err(InvalidHeader("Name: a\nb".to_string())));
    assert!(convert(&[header("Name", b"a\x7fb")]).is_err());
    assert!(convert(&[header("Name", b"a\x1fb")]).is_err());
}

#[test]
fn tabs_and_high_bytes_in_a_value_are_accepted() {
    let map = convert(&[header("Name", b"a\tb \xff")]).unwrap();
    assert_eq!(pairs(&map), vec![("name".to_string(), b"a\tb \xff".to_vec())]);
}

#[test]
fn the_first_bad_header_decides() {
    let r = convert(&[header("ok", b"1"), header("Name", b"\x00"), header("Bad Name", b"v")]);
    assert_eq!(r, Err(InvalidHeader("Name: \u{0}".to_string())));
}

#[test]
fn diagnostic_renders_bytes_lossily() {
    assert_eq!(header_diagnostic(&header("N", b"ok")), "N: ok");
    assert_eq!(header_diagnostic(&header("N", b"a\xffb")), "N: a\u{fffd}b");
    assert_eq!(header_diagnostic(&header("N", "h\u{e9}".as_bytes())), "N: h\u{e9}");
}

#[test]
fn invalid_header_becomes_an_http_error() {
    let e = InvalidHeader("a: b".to_string()).into_http_error();
    assert_eq!(e, HttpError::MalformattedHeader("a: b".to_string()));
}

fn raw(path: Option<&str>, headers: Vec<RawHeader>) -> RawRequest {
    RawRequest {
        method: Some("GET".to_string()),
        path: path.map(|p| p.to_string()),
        version: Some(1),
        headers,
    }
}

fn convert_request(request: &RawRequest) -> Result<Request, HttpError> {
    request.try_map()
}

#[test]
fn raw_request_converts_with_target_and_headers() {
    let r = convert_request(&raw(Some("/chat?x=1"), vec![header("Host", b"h")])).unwrap();
    assert_eq!(r.uri, "/chat?x=1");
    assert_eq!(pairs(&r.headers), vec![("host".to_string(), b"h".to_vec())]);
}

#[test]
fn raw_request_without_target_is_a_malformed_uri() {
    let r = convert_request(&raw(None, vec![header("Bad Name", b"v")]));
    assert_eq!(r, Err(HttpError::MalformattedUri(None)));
}

#[test]
fn raw_request_with_a_bad_target_is_a_malformed_uri() {
    let r = convert_request(&raw(Some("/a b"), vec![header("Bad Name", b"v")]));
    assert_eq!(r, Err(HttpError::MalformattedUri(Some("/a b".to_string()))));
    let r = convert_request(&raw(Some(""), Vec::new()));
    assert_eq!(r, Err(HttpError::MalformattedUri(Some("".to_string()))));
}

#[test]
fn raw_request_with_a_bad_header_is_refused_with_the_diagnostic() {
    let r = convert_request(&raw(Some("/"), vec![header("Bad Name", b"v")]));
    assert_eq!(r, Err(HttpError::MalformattedHeader("Bad Name: v".to_string())));
}

#[test]
fn text_becomes_a_request_without_headers() {
    let r = "ws://example.com:9001/chat".try_into_request().unwrap();
    assert_eq!(r.uri, "ws://example.com:9001/chat");
    assert!(r.headers.is_empty());
    let owned = String::from("/path");
    assert_eq!((&owned).try_into_request().unwrap().uri, "/path");
    assert_eq!(owned.try_into_request().unwrap().uri, "/path");
}

#[test]
fn uri_text_is_rendered_by_the_parser() {
    let r = "example.com".try_into_request().unwrap();
    assert_eq!(r.uri, "example.com");
    let r = "http://example.com".try_into_request().unwrap();
    assert_eq!(r.uri, "http://example.com/");
}

#[test]
fn text_that_is_no_uri_is_refused() {
    let r = "not a uri".try_into_request();
    assert_eq!(
        r,
        Err(HandshakeError::Http(HttpError::MalformattedUri(Some("not a uri".to_string()))))
    );
}

#[test]
fn a_request_passes_through() {
    let mut headers = HeaderMap::new();
    headers.insert(HeaderName::from_static("x"), HeaderValue::from_static("y"));
    let request = Request { uri: "/".to_string(), headers: headers.clone() };
    let r = request.try_into_request().unwrap();
    assert_eq!(r, Request { uri: "/".to_string(), headers });
}

#[test]
fn a_uri_becomes_a_request_for_it() {
    let uri: http::Uri = "ws://example.com/chat?x=1".parse().unwrap();
    let r = (&uri).try_into_request().unwrap();
    assert_eq!(r.uri, "ws://example.com/chat?x=1");
    assert!(r.headers.is_empty());
    let uri: http::Uri = "/chat".parse().unwrap();
    assert_eq!(uri.try_into_request().unwrap().uri, "/chat");
}

#[test]
fn a_url_becomes_a_request_for_its_serialization() {
    let url = url::Url::parse("ws://EXAMPLE.com:80/a/../chat").unwrap();
    assert_eq!(url.as_str(), "ws://example.com/chat");
    let r = (&url).try_into_request().unwrap();
    assert_eq!(r.uri, "ws://example.com/chat");
    assert!(r.headers.is_empty());
    assert_eq!(url.try_into_request().unwrap().uri, "ws://example.com/chat");
}
