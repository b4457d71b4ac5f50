use moesif_extproc::adapter::{process_request, AckKind, ProcessingMessage};
use moesif_extproc::body::BodyValue;
use moesif_extproc::config::{Config, EnvConfig};
use moesif_extproc::event::{get_client_ip, Event};
use moesif_extproc::headers::{header_list_to_map, HeaderEntry};
use moesif_extproc::ip::{is_ip_literal_str, is_ipv4_str, is_ipv6_str};

fn entry(key: &str, value: &str) -> HeaderEntry {
    HeaderEntry { key: key.to_string(), value: value.to_string(), raw_value: Vec::new() }
}

#[test]
fn client_ip_takes_first_valid_token() {
    let map = header_list_to_map(&vec![entry("x-forwarded-for", "bad, 203.0.113.5, 10.0.0.1")]);
    assert_eq!(get_client_ip(&map), Some("203.0.113.5".to_string()));
}

#[test]
fn client_ip_header_priority_order() {
    let map = header_list_to_map(&vec![
        entry("x-real-ip", "10.0.0.2"),
        entry("x-forwarded-for", "10.0.0.1"),
    ]);
    // x-forwarded-for stands earlier in the fixed list than x-real-ip
    assert_eq!(get_client_ip(&map), Some("10.0.0.1".to_string()));
}

#[test]
fn client_ip_absent_when_no_header_has_a_valid_ip() {
    let map = header_list_to_map(&vec![entry("x-forwarded-for", "not-an-ip, also bad")]);
    assert_eq!(get_client_ip(&map), None);
}

#[test]
fn ip_literal_validation() {
    assert!(is_ipv4_str("203.0.113.5"));
    assert!(is_ipv4_str("0.0.0.0"));
    assert!(!is_ipv4_str("256.0.0.1"));
    assert!(!is_ipv4_str("01.2.3.4"));
    assert!(!is_ipv4_str("1.2.3"));
    assert!(!is_ipv4_str("1.2.3.4.5"));
    assert!(is_ipv6_str("::1"));
    assert!(is_ipv6_str("::"));
    assert!(is_ipv6_str("2001:db8::8a2e:370:7334"));
    assert!(is_ipv6_str("1:2:3:4:5:6:7:8"));
    assert!(is_ipv6_str("::ffff:192.168.0.1"));
    assert!(is_ipv6_str("1:2:3:4:5:6:7::"));
    assert!(!is_ipv6_str("1:2:3:4:5:6:7:8:9"));
    assert!(!is_ipv6_str("1::2::3"));
    assert!(!is_ipv6_str(":::"));
    assert!(!is_ipv6_str("12345::"));
    assert!(!is_ip_literal_str("bad"));
    assert!(is_ip_literal_str("10.0.0.1"));
}

#[test]
fn end_to_end_request_only_stream() {
    let mut event = Event::new();
    let mut req_bytes: Vec<u8> = Vec::new();
    let mut resp_bytes: Vec<u8> = Vec::new();

    let headers = ProcessingMessage::RequestHeaders(vec![
        entry(":method", "GET"),
        entry(":path", "/x"),
    ]);
    let ack = process_request(&headers, &mut event, &mut req_bytes, &mut resp_bytes);
    assert_eq!(ack, AckKind::RequestHeaders);

    let body = ProcessingMessage::RequestBody(Vec::new(), true);
    let ack = process_request(&body, &mut event, &mut req_bytes, &mut resp_bytes);
    assert_eq!(ack, AckKind::RequestBody);

    let config = Config { env: EnvConfig::default() };
    event.set_user_and_company_ids(&config);

    assert_eq!(event.request.verb, "GET");
    assert_eq!(event.request.uri, "/x");
    assert!(event.response.is_none());
    assert!(matches!(event.request.body, BodyValue::Unset));
    assert!(event.user_id.is_none());
    assert!(event.company_id.is_none());
}

#[test]
fn body_chunks_concatenate_and_finalize_as_json() {
    let mut event = Event::new();
    let mut req_bytes: Vec<u8> = Vec::new();
    let mut resp_bytes: Vec<u8> = Vec::new();

    let first = ProcessingMessage::RequestBody(b"{\"a\"".to_vec(), false);
    process_request(&first, &mut event, &mut req_bytes, &mut resp_bytes);
    assert!(matches!(event.request.body, BodyValue::Unset));

    let last = ProcessingMessage::RequestBody(b":1}".to_vec(), true);
    process_request(&last, &mut event, &mut req_bytes, &mut resp_bytes);
    match &event.request.body {
        BodyValue::Json(bytes) => assert_eq!(bytes, b"{\"a\":1}"),
        other => panic!("expected a parsed body, got {:?}", other),
    }
    assert!(event.request.transfer_encoding.is_none());
}

#[test]
fn unparsable_body_is_base64_with_marker() {
    let mut event = Event::new();
    let mut req_bytes: Vec<u8> = Vec::new();
    let mut resp_bytes: Vec<u8> = Vec::new();

    let msg = ProcessingMessage::RequestBody(b"abc".to_vec(), true);
    process_request(&msg, &mut event, &mut req_bytes, &mut resp_bytes);
    match &event.request.body {
        BodyValue::Base64(s) => assert_eq!(s, "YWJj"),
        other => panic!("expected a base64 body, got {:?}", other),
    }
    assert_eq!(event.request.transfer_encoding, Some("base64".to_string()));
}

#[test]
fn headers_and_trailers_never_touch_body_accumulators() {
    let mut event = Event::new();
    let mut req_bytes: Vec<u8> = b"partial".to_vec();
    let mut resp_bytes: Vec<u8> = b"reply".to_vec();

    let msgs = vec![
        ProcessingMessage::RequestHeaders(vec![entry(":method", "POST")]),
        ProcessingMessage::RequestTrailers,
        ProcessingMessage::ResponseHeaders(vec![entry(":status", "200")]),
        ProcessingMessage::ResponseTrailers,
    ];
    for msg in msgs.iter() {
        process_request(msg, &mut event, &mut req_bytes, &mut resp_bytes);
    }
    assert_eq!(req_bytes, b"partial".to_vec());
    assert_eq!(resp_bytes, b"reply".to_vec());
}

#[test]
fn response_leg_is_created_lazily_with_status() {
    let mut event = Event::new();
    let mut req_bytes: Vec<u8> = Vec::new();
    let mut resp_bytes: Vec<u8> = Vec::new();

    assert!(event.response.is_none());
    let msg = ProcessingMessage::ResponseHeaders(vec![
        entry(":status", "201"),
        entry("Content-Type", "application/json"),
    ]);
    let ack = process_request(&msg, &mut event, &mut req_bytes, &mut resp_bytes);
    assert_eq!(ack, AckKind::ResponseHeaders);
    let resp = event.response.as_ref().unwrap();
    assert_eq!(resp.status, 201);
    assert_eq!(resp.headers.get("content-type"), Some("application/json".to_string()));
    assert!(resp.headers.get(":status").is_none());
}

#[test]
fn response_body_eos_creates_the_leg_lazily() {
    let mut event = Event::new();
    let mut req_bytes: Vec<u8> = Vec::new();
    let mut resp_bytes: Vec<u8> = Vec::new();

    let chunk = ProcessingMessage::ResponseBody(b"[1,2]".to_vec(), false);
    let ack = process_request(&chunk, &mut event, &mut req_bytes, &mut resp_bytes);
    assert_eq!(ack, AckKind::ResponseBody);
    // no end-of-stream yet: the leg is still absent
    assert!(event.response.is_none());
    assert_eq!(resp_bytes, b"[1,2]".to_vec());

    let last = ProcessingMessage::ResponseBody(Vec::new(), true);
    process_request(&last, &mut event, &mut req_bytes, &mut resp_bytes);
    let resp = event.response.as_ref().unwrap();
    assert_eq!(resp.status, 0);
    match &resp.body {
        BodyValue::Json(bytes) => assert_eq!(bytes.as_slice(), b"[1,2]"),
        other => panic!("expected a parsed body, got {:?}", other),
    }
    assert!(resp.transfer_encoding.is_none());
}

#[test]
fn unparsable_status_leaves_status_unset() {
    let mut event = Event::new();
    let mut req_bytes: Vec<u8> = Vec::new();
    let mut resp_bytes: Vec<u8> = Vec::new();
    let msg = ProcessingMessage::ResponseHeaders(vec![entry(":status", "abc")]);
    process_request(&msg, &mut event, &mut req_bytes, &mut resp_bytes);
    assert_eq!(event.response.as_ref().unwrap().status, 0);
}

#[test]
fn identity_fields_resolve_from_configured_headers() {
    let mut event = Event::new();
    let mut req_bytes: Vec<u8> = Vec::new();
    let mut resp_bytes: Vec<u8> = Vec::new();
    let msg = ProcessingMessage::RequestHeaders(vec![
        entry("X-User-Id", "u-1"),
        entry("X-Company-Id", "c-9"),
    ]);
    process_request(&msg, &mut event, &mut req_bytes, &mut resp_bytes);

    let mut env = EnvConfig::default();
    env.user_id_header = Some("X-User-Id".to_string());
    env.company_id_header = Some("X-Company-Id".to_string());
    env.post_process();
    assert_eq!(env.user_id_header, Some("x-user-id".to_string()));

    let config = Config { env };
    event.set_user_and_company_ids(&config);
    assert_eq!(event.user_id, Some("u-1".to_string()));
    assert_eq!(event.company_id, Some("c-9".to_string()));
}

#[test]
fn direction_is_incoming_and_api_version_derived() {
    let mut event = Event::new();
    assert_eq!(event.direction, "Incoming");
    let mut req_bytes: Vec<u8> = Vec::new();
    let mut resp_bytes: Vec<u8> = Vec::new();
    let msg = ProcessingMessage::RequestHeaders(vec![entry("X-Api-Version", "2.1")]);
    process_request(&msg, &mut event, &mut req_bytes, &mut resp_bytes);
    assert_eq!(event.request.api_version, Some("2.1".to_string()));
}
