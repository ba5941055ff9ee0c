use aipass::chat::begin_request;
use aipass::chat::cancel_request;
use aipass::chat::chat_reply;
use aipass::chat::http_error_events;
use aipass::chat::prepare_request;
use aipass::chat::response_content_type;
use aipass::chat::validate_chat_body;
use aipass::chat::validate_request_id;
use aipass::chat::MAX_REQUEST_BYTES;
use aipass::registry::RequestRegistry;
use aipass::reply::begin_reply;
use aipass::reply::check_status;
use aipass::reply::invalid_json;
use aipass::reply::read_json;
use aipass::reply::BodyEvent;
use aipass::reply::BoundedBody;
use aipass::stream::NativeStreamEvent;
use aipass::stream::ResponseForwarder;
use aipass::stream::UpstreamEvent;
use base64::Engine;

fn error(message: &str) -> NativeStreamEvent {
    NativeStreamEvent::Error { message: message.into() }
}

fn chunk(data: &str) -> NativeStreamEvent {
    NativeStreamEvent::Chunk { data: data.into() }
}

#[test]
fn chat_request_validation_bounds_and_requires_openai_json() {
    assert!(validate_chat_body(br#"{"model":"live","messages":[],"stream":true}"#).is_ok());
    assert!(validate_chat_body(br#"[]"#).is_err());
    assert!(validate_chat_body(br#"{"messages":[]}"#).is_err());
    assert!(validate_chat_body(br#"{"model":"","messages":[]}"#).is_err());
    assert!(validate_chat_body(&vec![b'x'; MAX_REQUEST_BYTES + 1]).is_err());
}

#[test]
fn refused_chat_requests_say_why() {
    let missing_model = "AI Pass chat request is missing a valid model.";
    let long_model = format!(r#"{{"model":"{}","messages":[]}}"#, "m".repeat(257));
    let many = format!(r#"{{"model":"m","messages":[{}0]}}"#, "0,".repeat(256));
    for (body, reason) in [
        ("", "AI Pass request exceeded the size limit."),
        ("{", "AI Pass request body is invalid JSON."),
        ("3", "AI Pass chat request must be a JSON object."),
        (r#"{"model":7,"messages":[]}"#, missing_model),
        (long_model.as_str(), missing_model),
        (
            r#"{"model":"a\u0000","messages":[]}"#,
            "AI Pass chat request model is invalid.",
        ),
        (r#"{"model":"m"}"#, "AI Pass chat request is missing messages."),
        (
            r#"{"model":"m","messages":{}}"#,
            "AI Pass chat request is missing messages.",
        ),
        (many.as_str(), "AI Pass chat request has too many messages."),
        (
            r#"{"model":"m","messages":[],"stream":"yes"}"#,
            "AI Pass chat stream flag is invalid.",
        ),
        (
            r#"{"model":"m","messages":[],"stream":null}"#,
            "AI Pass chat stream flag is invalid.",
        ),
    ] {
        assert_eq!(validate_chat_body(body.as_bytes()), Err(reason.to_owned()), "{body}");
        assert_eq!(prepare_request("id", body), Err(reason.to_owned()), "{body}");
    }
    let most = format!(r#"{{"model":"m","messages":[{}0]}}"#, "0,".repeat(255));
    assert!(validate_chat_body(most.as_bytes()).is_ok());
    let mut widest = br#"{"model":"m","messages":[]}"#.to_vec();
    widest.resize(MAX_REQUEST_BYTES, b' ');
    assert!(validate_chat_body(&widest).is_ok());
    widest.push(b' ');
    assert!(validate_chat_body(&widest).is_err());
}

#[test]
fn request_identifiers_are_short_and_plain() {
    for good in ["a", "A-9", "0f8fad5b-d9cb-469f-a165-70867728950e"] {
        assert_eq!(validate_request_id(good), Ok(()), "{good}");
    }
    assert_eq!(validate_request_id(&"x".repeat(64)), Ok(()));
    let long = "x".repeat(65);
    for bad in ["", "a b", "a_b", "ä", "a/b", long.as_str()] {
        assert_eq!(
            validate_request_id(bad),
            Err("AI Pass request identifier is invalid.".to_owned()),
            "{bad}"
        );
    }
}

#[test]
fn requests_are_written_anew() {
    assert_eq!(
        prepare_request("id", " {\"stream\":false, \"model\":\"m\", \"messages\":[ 1.0 ]} "),
        Ok(br#"{"messages":[1.0],"model":"m","stream":false}"#.to_vec())
    );
    assert_eq!(
        prepare_request("", "{"),
        Err("AI Pass request identifier is invalid.".to_owned())
    );
}

#[test]
fn requests_are_registered_once_and_cancelled_once() {
    let body = r#"{"model":"m","messages":[]}"#;
    let mut requests: RequestRegistry<u32> = RequestRegistry::new();
    assert!(begin_request(&mut requests, "one".into(), body, 1).is_ok());
    assert!(begin_request(&mut requests, "two".into(), body, 2).is_ok());
    assert_eq!(
        begin_request(&mut requests, "one".into(), body, 3),
        Err("AI Pass request identifier is already active.".to_owned())
    );
    assert_eq!(
        begin_request(&mut requests, "three".into(), "", 4),
        Err("AI Pass request exceeded the size limit.".to_owned())
    );
    assert_eq!(cancel_request(&mut requests, "one"), Ok(Some(1)));
    assert_eq!(cancel_request(&mut requests, "one"), Ok(None));
    assert_eq!(cancel_request(&mut requests, "three"), Ok(None));
    assert_eq!(
        cancel_request(&mut requests, "no such thing"),
        Err("AI Pass request identifier is invalid.".to_owned())
    );
    assert!(begin_request(&mut requests, "one".into(), body, 5).is_ok());
    assert_eq!(requests.drain(), vec![2, 5]);
    assert_eq!(requests.drain(), Vec::<u32>::new());
    assert_eq!(requests.remove("two"), None);
    assert_eq!(requests.register("two".into(), 6), Ok(()));
    assert_eq!(requests.remove("two"), Some(6));
}

#[test]
fn errors_show_the_status_alone() {
    for status in [400u16, 401, 503, 65535] {
        let expected = format!(
            r#"{{"error":{{"message":"AI Pass request failed (HTTP {status}).","type":"aipass_http_error"}}}}"#
        );
        let value: serde_json::Value = serde_json::from_str(&expected).unwrap();
        assert_eq!(value.to_string(), expected);
        let data = base64::engine::general_purpose::STANDARD.encode(&expected);
        assert_eq!(http_error_events(status), vec![chunk(&data), NativeStreamEvent::End]);
        let reply = chat_reply(status, Some("text/html".into()));
        assert_eq!(reply.meta.status, status);
        assert_eq!(reply.meta.content_type, "application/json");
        assert_eq!(reply.events, http_error_events(status));
        assert!(!reply.forward);
    }
}

#[test]
fn successful_responses_are_forwarded() {
    let reply = chat_reply(200, Some("text/event-stream".into()));
    assert_eq!(reply.meta.status, 200);
    assert_eq!(reply.meta.content_type, "text/event-stream");
    assert!(reply.events.is_empty());
    assert!(reply.forward);
    assert_eq!(response_content_type(Some("x".repeat(128))), "x".repeat(128));
    assert_eq!(response_content_type(Some("x".repeat(129))), "application/octet-stream");
    assert_eq!(response_content_type(None), "application/octet-stream");
}

#[test]
fn chunks_are_forwarded_in_base64_until_the_end() {
    let (mut forwarder, heard) = ResponseForwarder::start(200, None);
    assert_eq!(heard, None);
    assert_eq!(forwarder.accept(UpstreamEvent::Chunk(b"hello".to_vec())), chunk("aGVsbG8="));
    assert_eq!(forwarder.accept(UpstreamEvent::Chunk(vec![0xfb, 0xff])), chunk("+/8="));
    assert_eq!(
        forwarder.accept(UpstreamEvent::Chunk(vec![0xff, 0xfe, 0xfd])),
        chunk("//79")
    );
    assert!(forwarder.open);
    assert_eq!(forwarder.total, 10);
    assert_eq!(forwarder.accept(UpstreamEvent::Ended), NativeStreamEvent::End);
    assert!(!forwarder.open);
}

#[test]
fn cancellation_and_failures_close_a_response() {
    for (event, message) in [
        (UpstreamEvent::Cancelled, "AI Pass request cancelled."),
        (UpstreamEvent::TimedOut, "AI Pass response timed out."),
        (UpstreamEvent::Failed, "AI Pass response stream failed."),
    ] {
        let (mut forwarder, _) = ResponseForwarder::start(200, Some(5));
        assert_eq!(forwarder.accept(event), error(message));
        assert!(!forwarder.open);
    }
    let (mut forwarder, _) = ResponseForwarder::start(200, None);
    forwarder.undelivered();
    assert!(!forwarder.open);
}

#[test]
fn responses_are_bounded_by_their_status() {
    let too_long = "AI Pass response exceeded the size limit.";
    let most: usize = 16 * 1024 * 1024;
    let (forwarder, heard) = ResponseForwarder::start(200, Some(most as u64 + 1));
    assert!(!forwarder.open);
    assert_eq!(heard, Some(error(too_long)));
    let (mut forwarder, heard) = ResponseForwarder::start(204, Some(most as u64));
    assert_eq!(heard, None);
    assert!(matches!(
        forwarder.accept(UpstreamEvent::Chunk(vec![0; most])),
        NativeStreamEvent::Chunk { .. }
    ));
    assert_eq!(forwarder.accept(UpstreamEvent::Chunk(vec![0])), error(too_long));
    assert!(!forwarder.open);

    let (mut forwarder, _) = ResponseForwarder::start(500, Some(64 * 1024));
    assert_eq!(
        forwarder.accept(UpstreamEvent::Chunk(vec![0; 64 * 1024 + 1])),
        error(too_long)
    );
    let (_, heard) = ResponseForwarder::start(302, Some(64 * 1024 + 1));
    assert_eq!(heard, Some(error(too_long)));
}

#[test]
fn waits_shrink_towards_the_deadline() {
    let second: u128 = 1_000_000_000;
    let (mut forwarder, _) = ResponseForwarder::start(200, None);
    assert_eq!(forwarder.next_wait(0), Ok(60_000_000_000));
    assert_eq!(forwarder.next_wait(240 * second), Ok(60_000_000_000));
    assert_eq!(forwarder.next_wait(240 * second + 1), Ok(59_999_999_999));
    assert_eq!(forwarder.next_wait(300 * second - 1), Ok(1));
    assert!(forwarder.open);
    assert_eq!(
        forwarder.next_wait(300 * second),
        Err(error("AI Pass response timed out."))
    );
    assert!(!forwarder.open);
}

#[test]
fn bodies_are_read_whole_or_refused() {
    let too_long = "AI Pass response exceeded the size limit.".to_owned();
    assert!(BoundedBody::begin(Some(5), 4).is_err());
    let mut reader = BoundedBody::begin(Some(4), 4).unwrap();
    assert_eq!(reader.accept(BodyEvent::Chunk(b"ab".to_vec())), Ok(()));
    assert_eq!(reader.accept(BodyEvent::Chunk(b"cd".to_vec())), Ok(()));
    assert_eq!(reader.accept(BodyEvent::Chunk(b"".to_vec())), Ok(()));
    assert_eq!(reader.accept(BodyEvent::Chunk(b"e".to_vec())), Err(too_long.clone()));
    assert_eq!(reader.body, b"abcd".to_vec());
    assert_eq!(
        reader.accept(BodyEvent::TimedOut),
        Err("AI Pass response timed out.".to_owned())
    );
    assert_eq!(
        reader.accept(BodyEvent::Failed),
        Err("AI Pass response stream failed.".to_owned())
    );
    match BoundedBody::begin(Some(5), 4) {
        Ok(_) => panic!("an announced length beyond the bound was accepted"),
        Err(reason) => assert_eq!(reason, too_long),
    }
}

#[test]
fn replies_are_checked_by_status_and_json() {
    assert_eq!(check_status(200, "AI Pass metadata"), Ok(()));
    assert_eq!(check_status(299, "AI Pass metadata"), Ok(()));
    for status in [100u16, 199, 300, 404, 500] {
        assert_eq!(
            check_status(status, "AI Pass metadata"),
            Err(format!("AI Pass metadata failed (HTTP {status})."))
        );
    }
    let refusal = |status: u16, length: Option<u64>| match begin_reply(status, length, "x") {
        Ok(reader) => {
            assert_eq!(reader.max_bytes, 256 * 1024);
            assert!(reader.body.is_empty());
            None
        }
        Err(reason) => Some(reason),
    };
    assert_eq!(refusal(200, None), None);
    assert_eq!(refusal(200, Some(256 * 1024)), None);
    assert_eq!(
        refusal(200, Some(256 * 1024 + 1)).as_deref(),
        Some("AI Pass response exceeded the size limit.")
    );
    assert_eq!(refusal(503, Some(u64::MAX)).as_deref(), Some("x failed (HTTP 503)."));
    assert_eq!(invalid_json("AI Pass metadata"), "AI Pass metadata returned invalid JSON.");
    assert!(read_json(b"{}", "x").is_ok());
    assert_eq!(read_json(b"}", "x"), Err("x returned invalid JSON.".to_owned()));
}
