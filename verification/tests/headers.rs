use halter_providers::header_overrides::HeaderOverrides;
use halter_providers::http_client::{
    decode_event_data, event_read_failure, finish_json_response, http_status_error, join_url,
    provider_error_from_failure, request_headers, response_error_detail, retry_after_header,
    transport_fault_error, EventData, Failure, TransportFault,
};
use halter_providers::protocol::{ProviderError, ProviderErrorKind};
use halter_providers::time::Duration;
use reqwest::header::{HeaderMap, HeaderName, HeaderValue, CONTENT_TYPE, RETRY_AFTER};

fn pair(name: &str, value: &str) -> (String, String) {
    (name.to_owned(), value.to_owned())
}

#[test]
fn override_replaces_default_case_insensitively() {
    let overrides =
        HeaderOverrides::new(&[pair("authorization", "Token abc")]).expect("valid overrides");

    let merged = overrides.merge_string_pairs(vec![
        pair("Authorization", "Bearer default"),
        pair("x-api-key", "secret"),
    ]);

    assert_eq!(merged, vec![pair("x-api-key", "secret"), pair("authorization", "Token abc")]);
}

#[test]
fn non_conflicting_override_is_appended() {
    let overrides =
        HeaderOverrides::new(&[pair("x-trace-id", "trace-123")]).expect("valid overrides");

    let merged = overrides.merge_string_pairs(vec![pair("x-api-key", "secret")]);

    assert_eq!(merged, vec![pair("x-api-key", "secret"), pair("x-trace-id", "trace-123")]);
}

#[test]
fn apply_to_map_overwrites_existing_entries() {
    let overrides =
        HeaderOverrides::new(&[pair("Content-Type", "application/xml")]).expect("valid overrides");

    let mut map = HeaderMap::new();
    map.insert(
        HeaderName::from_static("content-type"),
        HeaderValue::from_static("application/json"),
    );
    overrides.apply_to_map(&mut map);

    let values: Vec<&str> =
        map.get_all("content-type").iter().filter_map(|v| v.to_str().ok()).collect();
    assert_eq!(values, vec!["application/xml"]);
}

#[test]
fn invalid_header_name_is_rejected() {
    let error = HeaderOverrides::new(&[pair("bad name", "value")])
        .expect_err("invalid name should fail");
    assert!(error.message.contains("invalid http header name"));
    assert_eq!(error.message, "invalid http header name 'bad name'");
}

#[test]
fn invalid_header_value_is_rejected() {
    let error = HeaderOverrides::new(&[pair("x-trace", "bad\nvalue")])
        .expect_err("invalid value should fail");
    assert!(error.message.contains("invalid http header value"));
    assert_eq!(error.message, "invalid http header value for 'x-trace'");
}

#[test]
fn overrides_are_found_whatever_the_capitals() {
    let overrides = HeaderOverrides::new(&[pair("X-Trace-Id", "1")]).expect("valid overrides");
    assert!(overrides.contains("x-TRACE-id"));
    assert!(!overrides.contains("x-trace"));
    assert!(overrides.is_plain());
    let accented = HeaderOverrides::new(&[pair("x-name", "José")]).expect("valid overrides");
    assert!(!accented.is_plain());
    assert!(!HeaderOverrides::default().contains("x-name"));
}

#[test]
fn join_url_trims_duplicate_slash() {
    let cases = [
        (
            "https://api.anthropic.com/",
            "/v1/messages",
            "https://api.anthropic.com/v1/messages",
        ),
        ("https://api.anthropic.com", "/v1/messages", "https://api.anthropic.com/v1/messages"),
    ];
    for (base, path, want) in cases {
        assert_eq!(join_url(base, path), want);
    }
}

#[test]
fn request_headers_apply_defaults_overrides_and_sensitivity() {
    let headers = request_headers(
        "test",
        vec![
            pair("x-api-key", "secret"),
            pair("Authorization", "Bearer secret"),
            pair("X-Trace-Id", "trace-1"),
        ],
    )
    .expect("headers");

    assert_eq!(
        headers.get(CONTENT_TYPE).and_then(|value| value.to_str().ok()),
        Some("application/json")
    );
    assert!(headers.get("x-api-key").expect("x-api-key").is_sensitive());
    assert!(headers
        .get(reqwest::header::AUTHORIZATION)
        .expect("authorization")
        .is_sensitive());
    assert!(!headers.get("x-trace-id").expect("trace").is_sensitive());
    assert_eq!(headers.get("x-trace-id").expect("trace"), "trace-1");
}

#[test]
fn request_headers_reject_invalid_names_and_values() {
    let bad_name = request_headers("test", vec![pair("bad name", "v")])
        .expect_err("invalid header name should fail");
    assert_eq!(bad_name.kind, ProviderErrorKind::Fatal);
    assert_eq!(
        bad_name.message,
        "failed to encode http header 'bad name' for test request: invalid HTTP header name"
    );

    let bad_value = request_headers("test", vec![pair("x-ok", "bad\nvalue")])
        .expect_err("invalid header value should fail");
    assert_eq!(bad_value.kind, ProviderErrorKind::Fatal);
    assert!(bad_value.message.contains("x-ok"));
    assert_eq!(
        bad_value.message,
        "failed to encode http header value for 'x-ok' in test request: failed to parse header value"
    );
}

#[test]
fn the_last_header_of_a_name_is_the_only_one() {
    let headers = request_headers(
        "test",
        vec![pair("Content-Type", "text/plain"), pair("content-type", "application/cbor")],
    )
    .expect("headers");
    let values: Vec<&str> =
        headers.get_all("content-type").iter().filter_map(|v| v.to_str().ok()).collect();
    assert_eq!(values, vec!["application/cbor"]);
}

#[test]
fn response_error_detail_extracts_message_and_type() {
    let cases: &[(&str, &str, Option<&str>)] = &[
        (
            r#"{"type":"error","error":{"type":"overloaded_error","message":"Overloaded"}}"#,
            "Overloaded",
            Some("overloaded_error"),
        ),
        (r#"{"message":"top level"}"#, "top level", None),
        ("not json at all", "not json at all", None),
        (r#"{"error":{}}"#, r#"{"error":{}}"#, None),
    ];
    for (body, want_detail, want_type) in cases {
        let (detail, error_type) = response_error_detail(body);
        assert_eq!(detail, *want_detail, "{body}");
        assert_eq!(error_type.as_deref(), *want_type, "{body}");
    }
}

#[test]
fn retry_after_header_parses_seconds_only() {
    let mut headers = HeaderMap::new();
    assert_eq!(retry_after_header(&headers), None);
    headers.insert(RETRY_AFTER, HeaderValue::from_static("7"));
    assert_eq!(retry_after_header(&headers), Some(Duration::from_secs(7)));
    headers.insert(RETRY_AFTER, HeaderValue::from_static("Wed, 21 Oct 2026 07:28:00 GMT"));
    assert_eq!(retry_after_header(&headers), None);
}

#[test]
fn provider_error_from_anyhow_falls_back_to_transient() {
    let typed = provider_error_from_failure(Failure::Typed(ProviderError::with_kind(
        "typed".to_owned(),
        ProviderErrorKind::Fatal,
    )));
    assert_eq!(typed.kind, ProviderErrorKind::Fatal);

    let untyped = provider_error_from_failure(Failure::Untyped("plain failure".to_owned()));
    assert_eq!(untyped.kind, ProviderErrorKind::Transient);
    assert!(untyped.message.contains("plain failure"));
}

#[test]
fn replies_are_read_or_classified() {
    let mut headers = HeaderMap::new();
    let value = finish_json_response("test", 200, &headers, r#"{"ok":true}"#).expect("success");
    assert_eq!(value.to_text(), r#"{"ok":true}"#);

    headers.insert(RETRY_AFTER, HeaderValue::from_static("3"));
    let limited = finish_json_response(
        "test",
        429,
        &headers,
        r#"{"error":{"type":"rate_limit_error","message":"slow down"}}"#,
    )
    .expect_err("rate limit");
    assert_eq!(limited.kind, ProviderErrorKind::RateLimited);
    assert_eq!(limited.backoff_hint, Some(Duration::from_secs(3)));
    assert_eq!(
        limited.message,
        "failed to execute provider request: test returned 429 Too Many Requests: slow down"
    );

    let rejected = http_status_error("test", 400, None, "bad input");
    assert_eq!(rejected.kind, ProviderErrorKind::Fatal);
    assert_eq!(
        rejected.message,
        "failed to execute provider request: test returned 400 Bad Request: bad input"
    );

    let unreadable = finish_json_response("test", 200, &HeaderMap::new(), "not json")
        .expect_err("undecodable success");
    assert_eq!(unreadable.kind, ProviderErrorKind::Fatal);
    assert!(unreadable.message.starts_with("failed to decode test response json: "));

    let overloaded = http_status_error(
        "test",
        529,
        None,
        r#"{"error":{"type":"overloaded_error","message":"Overloaded"}}"#,
    );
    assert_eq!(overloaded.kind, ProviderErrorKind::Transient);
    assert_eq!(overloaded.backoff_hint, Some(Duration::from_millis(750)));
    assert_eq!(
        http_status_error("test", 503, None, "").message,
        "failed to execute provider request: test returned 503 Service Unavailable"
    );
}

#[test]
fn missing_replies_are_passing_faults() {
    let timed_out =
        transport_fault_error("test", TransportFault::SetupTimeout(Duration::from_secs(2)));
    assert_eq!(
        timed_out.message,
        "failed to execute provider request: test request timed out after 2s"
    );
    assert_eq!(timed_out.kind, ProviderErrorKind::Transient);
    let unsent = transport_fault_error("test", TransportFault::Send("refused".to_owned()));
    assert_eq!(unsent.message, "failed to execute test request: refused");
    let unread = transport_fault_error("test", TransportFault::ReadBody("eof".to_owned()));
    assert_eq!(unread.message, "failed to read test response body: eof");
    assert!(transport_fault_error("test", TransportFault::Cancelled).is_cancelled());
}

#[test]
fn stream_data_is_json_until_the_end_mark() {
    assert!(matches!(decode_event_data("test", "[DONE]"), EventData::End));
    let EventData::Item(value) = decode_event_data("test", "{\"a\":1}") else {
        panic!("an item");
    };
    assert_eq!(value.get_u64("a"), Some(1));
    let EventData::Broken(message) = decode_event_data("test", "nope") else {
        panic!("no json");
    };
    assert!(message.starts_with("failed to decode test stream event json: "));
    assert_eq!(event_read_failure("test", "eof"), "failed to read test stream event: eof");
}

#[test]
fn end_mark_ends_the_stream() {
    let mut values = Vec::new();
    for data in ["{\"a\":1}", "[DONE]", "{\"b\":2}"] {
        match decode_event_data("test", data) {
            EventData::Item(value) => values.push(value.to_text()),
            EventData::Broken(reason) => panic!("{reason}"),
            EventData::End => break,
        }
    }
    assert_eq!(values, vec!["{\"a\":1}"]);
}
