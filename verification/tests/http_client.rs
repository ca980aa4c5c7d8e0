use rig_core::http_client::auth::{try_bearer_auth_header, try_with_bearer_auth};
use rig_core::http_client::body::{ChunkEvent, ErrorBody, Progress};
use rig_core::http_client::error::{status_error, Cause};
use rig_core::http_client::exchange::{
    instance_error, on_body, on_response, outgoing_head, Delivery, Exchange, ReceivedHead,
};
use rig_core::http_client::headers::MAX_HEADER_NAMES;
use rig_core::http_client::status::StatusCode;
use rig_core::http_client::text::{bound_error_message, MAX_ERROR_MESSAGE_BYTES};
use rig_core::http_client::{
    bearer_auth_header, make_auth_header, text, with_bearer_auth, Error, NoBody,
};

fn status(code: u16) -> StatusCode {
    StatusCode::from_u16(code).unwrap()
}

fn cause() -> Cause {
    Cause {
        display: "it broke".to_string(),
        debug: "Broken(7)".to_string(),
        debug_pretty: "Broken(\n    7,\n)".to_string(),
    }
}

fn headers(pairs: &[(&'static str, &str)]) -> http::HeaderMap {
    let mut map = http::HeaderMap::new();
    for (name, value) in pairs {
        map.append(*name, value.parse().unwrap());
    }
    map
}

fn parts(error: Error) -> (u16, Option<u64>, String) {
    match error {
        Error::Status { status, retry_after_secs, message } => {
            (status.as_u16(), retry_after_secs, message)
        }
        _ => panic!("not a status error"),
    }
}

fn read(code: u16, headers: http::HeaderMap, events: Vec<ChunkEvent>) -> Error {
    let mut body = ErrorBody::new(status(code), headers);
    for event in events {
        match body.on_event(event) {
            Progress::Reading(next) => body = next,
            Progress::Finished(error) => return error,
        }
    }
    panic!("the body did not end");
}

fn message(events: Vec<ChunkEvent>) -> String {
    parts(read(500, headers(&[]), events)).2
}

fn chunk(bytes: &[u8]) -> ChunkEvent {
    ChunkEvent::Chunk(bytes.to_vec())
}

#[test]
fn messages_are_bounded_at_a_character() {
    assert_eq!(MAX_ERROR_MESSAGE_BYTES, 8192);
    assert_eq!(bound_error_message(String::new()), "");
    let exact = "a".repeat(8192);
    assert_eq!(bound_error_message(exact.clone()), exact);
    assert_eq!(bound_error_message("a".repeat(8193)), exact);
    // Three bytes each: 2730 of them take 8190, the next would end at 8193.
    assert_eq!(bound_error_message("€".repeat(3000)), "€".repeat(2730));
    let text = format!("{}é!", "a".repeat(8191));
    assert_eq!(bound_error_message(text), "a".repeat(8191));
    let text = format!("{}😀", "a".repeat(8188));
    assert_eq!(bound_error_message(text.clone()), text);
    let once = bound_error_message("€".repeat(3000));
    assert_eq!(bound_error_message(once.clone()), once);
}

#[test]
fn retry_after_is_read_where_it_is_a_number() {
    let delay = |value: &str| {
        parts(status_error(status(429), &headers(&[("retry-after", value)]), "m".to_string())).1
    };
    assert_eq!(delay("0"), Some(0));
    assert_eq!(delay("17"), Some(17));
    assert_eq!(delay("+5"), Some(5));
    assert_eq!(delay("007"), Some(7));
    assert_eq!(delay("18446744073709551615"), Some(u64::MAX));
    assert_eq!(delay("18446744073709551616"), None);
    assert_eq!(delay("-1"), None);
    assert_eq!(delay("-0"), None);
    assert_eq!(delay("+"), None);
    assert_eq!(delay(""), None);
    assert_eq!(delay("1 "), None);
    assert_eq!(delay("1.5"), None);
    assert_eq!(delay("Wed, 21 Oct 2015 07:28:00 GMT"), None);
    assert_eq!(delay("1é"), None);
    let none = status_error(status(429), &headers(&[("x-retry-after", "3")]), "m".to_string());
    assert_eq!(parts(none), (429, None, "m".to_string()));
}

#[test]
fn the_first_retry_after_counts() {
    let map = headers(&[("retry-after", "3"), ("retry-after", "4")]);
    assert_eq!(parts(status_error(status(503), &map, String::new())).1, Some(3));
    let map = headers(&[("retry-after", "soon"), ("retry-after", "4")]);
    assert_eq!(parts(status_error(status(503), &map, String::new())).1, None);
}

#[test]
fn a_refusal_is_told_by_the_start_of_its_body() {
    assert_eq!(message(vec![ChunkEvent::End]), "");
    assert_eq!(message(vec![chunk(b"no "), chunk(b""), chunk(b"way"), ChunkEvent::End]), "no way");
    // A character may be cut into two chunks.
    let euro = "€".as_bytes();
    assert_eq!(message(vec![chunk(&euro[..1]), chunk(&euro[1..]), ChunkEvent::End]), "€");
    // Once enough has come, the rest is not waited for.
    assert_eq!(message(vec![chunk(&[b'a'; 9000])]), "a".repeat(8192));
    assert_eq!(message(vec![chunk(&[b'a'; 8000]), chunk(&[b'b'; 192])]).len(), 8192);
    assert_eq!(
        message(vec![chunk(&[b'a'; 8000]), chunk(&[b'b'; 500])]),
        format!("{}{}", "a".repeat(8000), "b".repeat(192))
    );
    assert_eq!(message(vec![chunk(&[b'a'; 8191]), ChunkEvent::End]), "a".repeat(8191));
}

#[test]
fn what_is_not_utf8_is_replaced() {
    assert_eq!(message(vec![chunk(b"a\xffb"), ChunkEvent::End]), "a\u{fffd}b");
    // The replacement is longer than what it replaces, so the message is bounded once more.
    assert_eq!(message(vec![chunk(&[0xff; 8192])]), "\u{fffd}".repeat(2730));
    // Where the body is cut within a character.
    let mut bytes = vec![b'a'; 8191];
    bytes.extend_from_slice("é".as_bytes());
    assert_eq!(message(vec![ChunkEvent::Chunk(bytes)]), "a".repeat(8191));
}

#[test]
fn a_failure_is_told_only_without_a_body() {
    let failed = || ChunkEvent::Failed("reset".to_string());
    assert_eq!(message(vec![failed()]), "failed to read error response body: reset");
    assert_eq!(message(vec![chunk(b""), failed()]), "failed to read error response body: reset");
    assert_eq!(message(vec![chunk(b"par"), chunk(b"t"), failed()]), "part");
    let long = ChunkEvent::Failed("x".repeat(9000));
    assert_eq!(message(vec![long]).len(), 8192);
}

#[test]
fn a_refusal_keeps_its_status_and_delay() {
    let map = headers(&[("Retry-After", "9"), ("x-other", "1")]);
    let error = read(429, map, vec![chunk(b"slow"), chunk(b" down"), ChunkEvent::End]);
    assert_eq!(parts(error), (429, Some(9), "slow down".to_string()));
}

#[test]
fn bodies_are_text() {
    assert!(matches!(text(Ok(b"h\xc3\xa9".to_vec())), Ok(t) if t == "hé"));
    assert!(matches!(text(Ok(b"\xc3".to_vec())), Ok(t) if t == "\u{fffd}"));
    assert!(matches!(text(Err(Error::StreamEnded)), Err(Error::StreamEnded)));
}

#[test]
fn the_key_becomes_a_header() {
    let (name, value) = make_auth_header("k3y").ok().unwrap();
    assert_eq!(name.as_str(), "authorization");
    assert_eq!(value.as_bytes(), b"Bearer k3y");
    assert!(!value.is_sensitive());
    let (_, value) = make_auth_header("clé\t").ok().unwrap();
    assert_eq!(value.as_bytes(), "Bearer clé\t".as_bytes());
    let (_, value) = make_auth_header("").ok().unwrap();
    assert_eq!(value.as_bytes(), b"Bearer ");
}

#[test]
fn a_key_with_control_characters_is_refused() {
    for key in ["a\nb", "a\rb", "\0", "\x7f", "\x1f"] {
        assert!(matches!(make_auth_header(key), Err(Error::InvalidHeaderValue(_))));
    }
    let mut map = headers(&[("authorization", "Basic x")]);
    assert!(matches!(bearer_auth_header(&mut map, "a\nb"), Err(Error::InvalidHeaderValue(_))));
    assert_eq!(map, headers(&[("authorization", "Basic x")]));
    let req = http::Request::builder().uri("http://a/");
    assert!(matches!(with_bearer_auth(req, "a\nb"), Err(Error::InvalidHeaderValue(_))));
}

#[test]
fn the_last_key_counts() {
    let mut map = headers(&[("authorization", "a"), ("authorization", "b"), ("accept", "c")]);
    assert!(bearer_auth_header(&mut map, "one").is_ok());
    assert!(bearer_auth_header(&mut map, "two").is_ok());
    assert_eq!(map, headers(&[("authorization", "Bearer two"), ("accept", "c")]));
}

#[test]
fn a_request_gets_the_key_and_keeps_the_rest() {
    let req = http::Request::builder().method("POST").uri("http://a/b?c").header("x-d", "e");
    let req = req.extension(7u8);
    let req = with_bearer_auth(req, "k").ok().unwrap().body(()).unwrap();
    assert_eq!(req.extensions().get::<u8>(), Some(&7));
    assert_eq!(req.method(), "POST");
    assert_eq!(req.uri(), "http://a/b?c");
    assert_eq!(req.version(), http::Version::HTTP_11);
    assert_eq!(req.headers(), &headers(&[("authorization", "Bearer k"), ("x-d", "e")]));
}

#[test]
fn a_request_that_has_failed_has_no_headers() {
    let req = http::Request::builder().uri("not a uri");
    assert!(matches!(with_bearer_auth(req, "k"), Err(Error::NoHeaders)));
    let req = http::Request::builder().uri("not a uri");
    assert!(matches!(try_with_bearer_auth(req, "k"), Some(Err(Error::NoHeaders))));
}

fn crowd(names: usize) -> http::HeaderMap {
    let mut map = http::HeaderMap::with_capacity(names);
    for i in 0..names {
        let name = http::HeaderName::from_bytes(format!("x-{}", i).as_bytes()).unwrap();
        map.insert(name, http::HeaderValue::from_static("v"));
    }
    map
}

#[test]
fn many_headers_take_in_the_key() {
    let mut map = crowd(MAX_HEADER_NAMES);
    assert!(bearer_auth_header(&mut map, "k").is_ok());
    assert_eq!(map["authorization"], "Bearer k");
    assert_eq!(map.keys_len(), MAX_HEADER_NAMES + 1);
    assert!(matches!(try_bearer_auth_header(&mut map, "other"), Some(Ok(()))));
    assert_eq!(map["authorization"], "Bearer other");
    assert!(matches!(
        try_bearer_auth_header(&mut map, "a\nb"),
        Some(Err(Error::InvalidHeaderValue(_)))
    ));
    assert_eq!(map["authorization"], "Bearer other");

    let mut req = http::Request::builder().uri("http://a/");
    *req.headers_mut().unwrap() = map;
    let req = try_with_bearer_auth(req, "third").unwrap().ok().unwrap();
    assert_eq!(req.headers_ref().unwrap()["authorization"], "Bearer third");
    assert_eq!(req.uri_ref().unwrap(), "http://a/");
    assert!(matches!(
        try_with_bearer_auth(req, "a\nb"),
        Some(Err(Error::InvalidHeaderValue(_)))
    ));
    let req = try_with_bearer_auth(http::Request::builder(), "k").unwrap().ok().unwrap();
    assert_eq!(req.headers_ref().unwrap()["authorization"], "Bearer k");
}

#[test]
fn headers_that_are_full_are_left_alone() {
    let full = crowd(24576);
    let mut map = full.clone();
    assert!(try_bearer_auth_header(&mut map, "k").is_none());
    assert_eq!(map, full);
    assert!(matches!(
        try_bearer_auth_header(&mut map, "a\nb"),
        Some(Err(Error::InvalidHeaderValue(_)))
    ));
    let mut req = http::Request::builder().uri("http://a/");
    *req.headers_mut().unwrap() = map;
    assert!(try_with_bearer_auth(req, "k").is_none());
}

#[test]
fn other_values_keep_their_marks() {
    let mut map = http::HeaderMap::new();
    for name in ["authorization", "x-token"] {
        let mut value = http::HeaderValue::from_static("v");
        value.set_sensitive(true);
        map.insert(name, value);
    }
    assert!(bearer_auth_header(&mut map, "k").is_ok());
    assert!(!map["authorization"].is_sensitive());
    assert!(map["x-token"].is_sensitive());
    assert!(matches!(try_bearer_auth_header(&mut map, "l"), Some(Ok(()))));
    assert!(!map["authorization"].is_sensitive());
    assert!(map["x-token"].is_sensitive());
}

#[test]
fn no_body_is_empty() {
    assert!(bytes::Bytes::from(NoBody).is_empty());
    assert_eq!(reqwest::Body::from(NoBody).as_bytes(), Some(&b""[..]));
}

fn received(code: u16) -> ReceivedHead {
    ReceivedHead {
        status: status(code),
        version: http::Version::HTTP_2,
        headers: headers(&[("x-a", "b"), ("retry-after", "2")]),
    }
}

#[test]
fn a_success_is_handed_on() {
    for code in [200, 204, 299] {
        match on_response(Ok(received(code)), Delivery::Whole) {
            Exchange::Accepted(head) => {
                assert_eq!(head.status.as_u16(), code);
                assert_eq!(head.version, None);
                assert_eq!(head.headers, received(code).headers);
            }
            _ => panic!("not accepted"),
        }
        match on_response(Ok(received(code)), Delivery::Streamed) {
            Exchange::Accepted(head) => assert_eq!(head.version, Some(http::Version::HTTP_2)),
            _ => panic!("not accepted"),
        }
    }
}

#[test]
fn every_other_status_is_a_refusal() {
    for code in [100, 199, 300, 404, 500, 999] {
        for delivery in [Delivery::Whole, Delivery::Streamed] {
            match on_response(Ok(received(code)), delivery) {
                Exchange::Refused(body) => match body.on_event(ChunkEvent::End) {
                    Progress::Finished(error) => {
                        assert_eq!(parts(error), (code, Some(2), String::new()));
                    }
                    Progress::Reading(_) => panic!("the body did not end"),
                },
                _ => panic!("not refused"),
            }
        }
    }
}

#[test]
fn a_client_that_fails_is_told_of() {
    assert!(matches!(
        on_response(Err(cause()), Delivery::Whole),
        Exchange::Failed(Error::Instance(c)) if c.display == "it broke" && c.debug == "Broken(7)"
    ));
    assert!(matches!(instance_error(cause()), Error::Instance(c) if c.display == "it broke"));
    assert!(matches!(
        on_body::<Vec<u8>>(Err(cause())),
        Err(Error::Instance(c)) if c.debug == "Broken(7)"
    ));
}

#[test]
fn a_body_is_handed_on_as_it_was_read() {
    assert!(matches!(on_body(Ok(vec![1, 2])), Ok(bytes) if bytes == [1, 2]));
    let bytes = bytes::Bytes::from_static(b"chunk");
    assert!(matches!(on_body(Ok(bytes.clone())), Ok(same) if same == bytes));
}

#[test]
fn a_request_goes_out_as_it_is() {
    let uri: http::Uri = "HTTP://User@Example.com:80?q=1".parse().unwrap();
    let sent = outgoing_head(http::Method::PUT, &uri, headers(&[("x-a", "b"), ("x-a", "c")]));
    assert_eq!(sent.method, "PUT");
    assert_eq!(sent.url, "http://User@Example.com:80/?q=1");
    assert_eq!(sent.headers, headers(&[("x-a", "b"), ("x-a", "c")]));
    let uri: http::Uri = "/path".parse().unwrap();
    assert_eq!(outgoing_head(http::Method::GET, &uri, headers(&[])).url, "/path");
}

#[test]
fn a_refused_header_value_is_an_error() {
    let refused = http::HeaderValue::from_str("\n").unwrap_err();
    assert!(matches!(Error::from(refused), Error::InvalidHeaderValue(_)));
}

#[test]
fn status_codes_have_three_digits() {
    assert!(StatusCode::from_u16(99).is_none());
    assert!(StatusCode::from_u16(1000).is_none());
    assert_eq!(status(100).as_u16(), 100);
    assert!(status(200).is_success() && status(299).is_success());
    assert!(!status(199).is_success() && !status(300).is_success());
    assert_eq!(status(404).display_text(), "404 Not Found");
    assert_eq!(status(799).display_text(), "799 <unknown status code>");
}

#[test]
fn errors_say_what_went_wrong() {
    let invalid = || Error::InvalidHeaderValue(http::HeaderValue::from_str("\n").unwrap_err());
    let plain = http::HeaderValue::from_bytes(b"a\"\t\xe9/").unwrap();
    let mut hidden = http::HeaderValue::from_static("x");
    hidden.set_sensitive(true);
    let refused = Error::Status {
        status: status(429),
        retry_after_secs: Some(30),
        message: "upstream body".to_string(),
    };
    let terse =
        Error::Status { status: status(500), retry_after_secs: None, message: String::new() };
    let explained = Error::InvalidStatusCodeWithMessage(status(500), "a \"b\"\n".to_string());
    let cases = [
        (Error::Protocol(cause()), "Http error: it broke", "Protocol(Broken(7))"),
        (
            Error::InvalidStatusCode(status(418)),
            "Invalid status code: 418 I'm a teapot",
            "InvalidStatusCode(418)",
        ),
        (
            explained,
            "Invalid status code 500 Internal Server Error with message: a \"b\"\n",
            "InvalidStatusCodeWithMessage(500, \"a \\\"b\\\"\\n\")",
        ),
        (
            refused,
            "upstream returned HTTP 429 Too Many Requests",
            "Status { status: 429, retry_after_secs: Some(30), message: \"<redacted>\" }",
        ),
        (
            terse,
            "upstream returned HTTP 500 Internal Server Error",
            "Status { status: 500, retry_after_secs: None, message: \"<redacted>\" }",
        ),
        (
            invalid(),
            "Header value outside of legal range: failed to parse header value",
            "InvalidHeaderValue(InvalidHeaderValue)",
        ),
        (Error::NoHeaders, "Request in error state, cannot access headers", "NoHeaders"),
        (Error::StreamEnded, "Stream ended", "StreamEnded"),
        (
            Error::InvalidContentType(plain),
            "Invalid content type was returned: \"a\\\"\t\\xe9/\"",
            "InvalidContentType(\"a\\\"\t\\xe9/\")",
        ),
        (
            Error::InvalidContentType(hidden),
            "Invalid content type was returned: Sensitive",
            "InvalidContentType(Sensitive)",
        ),
        (Error::Instance(cause()), "Http client error: it broke", "Instance(Broken(7))"),
    ];
    for (error, display, debug) in cases {
        assert_eq!(error.display_text(), display);
        assert_eq!(error.debug_text(), debug);
    }
}

#[test]
fn errors_spread_over_lines() {
    let invalid = Error::InvalidHeaderValue(http::HeaderValue::from_str("\n").unwrap_err());
    let refused = |retry_after_secs| Error::Status {
        status: status(429),
        retry_after_secs,
        message: "upstream body".to_string(),
    };
    let explained = Error::InvalidStatusCodeWithMessage(status(500), "a\nb".to_string());
    let plain = http::HeaderValue::from_static("a/b");
    let cases = [
        (Error::Protocol(cause()), "Protocol(\n    Broken(\n        7,\n    ),\n)"),
        (Error::InvalidStatusCode(status(418)), "InvalidStatusCode(\n    418,\n)"),
        (explained, "InvalidStatusCodeWithMessage(\n    500,\n    \"a\\nb\",\n)"),
        (
            refused(Some(30)),
            "Status {\n    status: 429,\n    retry_after_secs: Some(\n        30,\n    ),\n    \
             message: \"<redacted>\",\n}",
        ),
        (
            refused(None),
            "Status {\n    status: 429,\n    retry_after_secs: None,\n    \
             message: \"<redacted>\",\n}",
        ),
        (invalid, "InvalidHeaderValue(\n    InvalidHeaderValue,\n)"),
        (Error::NoHeaders, "NoHeaders"),
        (Error::StreamEnded, "StreamEnded"),
        (Error::InvalidContentType(plain), "InvalidContentType(\n    \"a/b\",\n)"),
        (Error::Instance(cause()), "Instance(\n    Broken(\n        7,\n    ),\n)"),
    ];
    for (error, pretty) in cases {
        assert_eq!(error.debug_pretty_text(), pretty);
    }
}

#[derive(Debug)]
#[allow(dead_code)]
enum Shape {
    Status { status: u16, retry_after_secs: Option<u64>, message: &'static str },
    Instance(Vec<Option<&'static str>>),
}

#[test]
fn lines_are_those_of_derived_debug_output() {
    let shape = Shape::Status { status: 503, retry_after_secs: Some(1), message: "<redacted>" };
    let error = Error::Status {
        status: status(503),
        retry_after_secs: Some(1),
        message: "m".to_string(),
    };
    assert_eq!(error.debug_text(), format!("{:?}", shape));
    assert_eq!(error.debug_pretty_text(), format!("{:#?}", shape));

    let inner = vec![Some("a\n\nb"), None];
    let cause = Cause {
        display: String::new(),
        debug: format!("{:?}", inner),
        debug_pretty: format!("{:#?}", inner),
    };
    let error = Error::Instance(cause);
    let shape = Shape::Instance(inner);
    assert_eq!(error.debug_text(), format!("{:?}", shape));
    assert_eq!(error.debug_pretty_text(), format!("{:#?}", shape));
}

#[test]
fn blank_lines_are_indented_too() {
    let lines = Cause {
        display: String::new(),
        debug: String::new(),
        debug_pretty: "a\n\n  é".to_string(),
    };
    assert_eq!(
        Error::Protocol(lines).debug_pretty_text(),
        "Protocol(\n    a\n    \n      é,\n)"
    );
}

#[test]
fn equal_answers_end_alike() {
    let run = || match on_response(Ok(received(503)), Delivery::Whole) {
        Exchange::Refused(body) => match body.on_event(chunk(b"busy")) {
            Progress::Reading(body) => match body.on_event(ChunkEvent::End) {
                Progress::Finished(error) => parts(error),
                Progress::Reading(_) => panic!("the body did not end"),
            },
            Progress::Finished(_) => panic!("the body ended early"),
        },
        _ => panic!("not refused"),
    };
    assert_eq!(run(), (503, Some(2), "busy".to_string()));
    assert_eq!(run(), run());
}

#[test]
fn the_front_of_a_message_bounds_to_the_front() {
    let text = "€".repeat(3000);
    let whole = bound_error_message(text.clone());
    for chars in [0, 1, 2729, 2730, 2731] {
        let front: String = text.chars().take(chars).collect();
        assert!(whole.starts_with(&bound_error_message(front)));
    }
}

#[test]
fn what_an_upstream_service_wrote_stays_hidden() {
    let error = status_error(status(500), &headers(&[]), "SECRET".to_string());
    assert!(!error.display_text().contains("SECRET"));
    assert!(!error.debug_text().contains("SECRET"));
    assert!(!error.debug_pretty_text().contains("SECRET"));
    assert_eq!(parts(error).2, "SECRET");
}
