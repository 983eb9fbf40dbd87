use halter_providers::json::{object1, object2, object3, object4, text_json, unsigned_json, Json};
use halter_providers::openai_error::{
    classify, classify_error_payload, openai_api_error_is_rate_limit, openai_api_error_retry_after,
    parse_openai_http_error, parse_openai_retry_after_message, parse_openai_stream_error, ApiError,
    OpenAIError, Retryability, INFERRED_CAPACITY_BACKOFF_MS, RATE_LIMIT_CODE,
    SYNTHETIC_SERVER_ERROR_CODE, UPSTREAM_PROVIDER_ERROR_CODE,
};
use halter_providers::time::Duration;

fn api_error(code: Option<&str>, kind: Option<&str>, message: &str) -> ApiError {
    ApiError {
        message: message.to_owned(),
        kind: kind.map(ToOwned::to_owned),
        param: None,
        code: code.map(ToOwned::to_owned),
    }
}

#[test]
fn classify_marks_explicit_rate_limit_retryable_with_hint() {
    let err = OpenAIError::ApiError(api_error(
        Some(RATE_LIMIT_CODE),
        Some("tokens"),
        "Rate limit reached. Please try again in 250ms.",
    ));
    assert_eq!(classify(&err), Retryability::rate_limited(Some(Duration::from_millis(250))));
}

#[test]
fn classify_marks_synthetic_server_error_retryable_without_hint() {
    let err = OpenAIError::ApiError(api_error(
        Some(SYNTHETIC_SERVER_ERROR_CODE),
        None,
        "internal server error",
    ));
    assert_eq!(classify(&err), Retryability::transient(None));
}

#[test]
fn classify_marks_other_api_errors_fatal() {
    let err = OpenAIError::ApiError(api_error(
        Some("invalid_request_error"),
        Some("invalid_request"),
        "missing required parameter",
    ));
    assert_eq!(classify(&err), Retryability::fatal());
}

#[test]
fn classify_marks_capacity_signals_retryable_with_small_hint() {
    let cases = [
        (None, None, "upstream provider is overloaded"),
        (None, None, "The selected model is currently at CAPACITY."),
        (Some("server_overloaded"), None, "temporarily unavailable"),
    ];

    for (code, kind, message) in cases {
        let err = OpenAIError::ApiError(api_error(code, kind, message));
        assert_eq!(
            classify(&err),
            Retryability::transient(Some(Duration::from_millis(INFERRED_CAPACITY_BACKOFF_MS))),
            "{message}"
        );
    }
}

#[test]
fn classify_keeps_typed_fatal_errors_fatal_even_with_capacity_words() {
    let err = OpenAIError::ApiError(api_error(
        Some("invalid_request_error"),
        Some("invalid_request"),
        "context length is at capacity",
    ));

    assert_eq!(classify(&err), Retryability::fatal());
}

#[test]
fn classify_marks_stream_and_reqwest_failures_retryable() {
    let stream_err = OpenAIError::StreamError("EventStream error: connection reset".to_owned());
    assert_eq!(classify(&stream_err), Retryability::transient(None));
    let connection_err = OpenAIError::Reqwest("connection refused".to_owned());
    assert_eq!(classify(&connection_err), Retryability::transient(None));
}

#[test]
fn classify_marks_stream_capacity_failure_retryable_with_small_hint() {
    let stream_err = OpenAIError::StreamError("EventStream error: provider overloaded".to_owned());
    assert_eq!(
        classify(&stream_err),
        Retryability::transient(Some(Duration::from_millis(INFERRED_CAPACITY_BACKOFF_MS)))
    );
}

#[test]
fn classify_decodes_stream_rate_limit_inside_jsondeserialize() {
    let payload = object2(
        "type",
        text_json("error"),
        "error",
        object4(
            "type",
            text_json("tokens"),
            "code",
            text_json(RATE_LIMIT_CODE),
            "message",
            text_json("Rate limit reached. Please try again in 50ms."),
            "param",
            Json::Null,
        ),
    )
    .to_text();
    let err = OpenAIError::JSONDeserialize("expected ident".to_owned(), payload);
    assert_eq!(classify(&err), Retryability::rate_limited(Some(Duration::from_millis(50))));
}

#[test]
fn classify_marks_unknown_jsondeserialize_payload_fatal() {
    let err = OpenAIError::JSONDeserialize("expected ident".to_owned(), "not json".to_owned());
    assert_eq!(classify(&err), Retryability::fatal());
}

#[test]
fn classify_marks_unknown_api_errors_fatal() {
    let err = OpenAIError::ApiError(api_error(
        Some("unknown_bad_request"),
        Some("unknown_type"),
        "provider rejected this request",
    ));
    assert_eq!(classify(&err), Retryability::fatal());
}

#[test]
fn retryability_helpers_match_pattern() {
    let retryable = Retryability::rate_limited(Some(Duration::from_secs(2)));
    assert!(retryable.is_retryable());
    assert_eq!(retryable.backoff_hint(), Some(Duration::from_secs(2)));

    let fatal = Retryability::fatal();
    assert!(!fatal.is_retryable());
    assert_eq!(fatal.backoff_hint(), None);
}

type PayloadCase<'a> = (&'a str, Option<u16>, Option<&'a str>, &'a str, Retryability);

#[test]
fn classify_error_payload_covers_provider_statuses_and_tags() {
    let cases: &[PayloadCase] = &[
        (
            "http 429 without tags",
            Some(429),
            None,
            "rate limited",
            Retryability::rate_limited(None),
        ),
        (
            "http 529 overloaded",
            Some(529),
            Some("overloaded_error"),
            "Overloaded",
            Retryability::transient(Some(Duration::from_millis(INFERRED_CAPACITY_BACKOFF_MS))),
        ),
        (
            "http 500 plain",
            Some(500),
            None,
            "internal server error",
            Retryability::transient(None),
        ),
        (
            "in-band rate_limit_error",
            None,
            Some("rate_limit_error"),
            "Number of requests exceeded your rate limit",
            Retryability::rate_limited(None),
        ),
        (
            "in-band overloaded_error",
            None,
            Some("overloaded_error"),
            "Overloaded",
            Retryability::transient(Some(Duration::from_millis(INFERRED_CAPACITY_BACKOFF_MS))),
        ),
        (
            "in-band api_error",
            None,
            Some("api_error"),
            "internal server error",
            Retryability::transient(None),
        ),
        (
            "in-band invalid_request_error",
            None,
            Some("invalid_request_error"),
            "max_tokens too large",
            Retryability::fatal(),
        ),
        (
            "http 404 not_found_error",
            Some(404),
            Some("not_found_error"),
            "model not found",
            Retryability::fatal(),
        ),
        (
            "http 413 request_too_large",
            Some(413),
            Some("request_too_large"),
            "request exceeds the maximum size",
            Retryability::fatal(),
        ),
        ("untagged unknown payload", None, None, "something odd", Retryability::fatal()),
    ];

    for (label, status, error_type, message, want) in cases {
        assert_eq!(classify_error_payload(*status, *error_type, message), *want, "{label}");
    }
}

#[test]
fn parse_duration_token_handles_minute_units() {
    let cases: &[(&str, Option<Duration>)] = &[
        ("Please try again in 1m.", Some(Duration::from_secs(60))),
        ("Please try again in 2min.", Some(Duration::from_secs(120))),
        ("Please try again in 6m59.6s.", Some(Duration::from_millis(419_600))),
        ("Please try again in 2m30s.", Some(Duration::from_secs(150))),
        ("Please try again in 1.25s.", Some(Duration::from_millis(1_250))),
        ("Please try again in 250ms.", Some(Duration::from_millis(250))),
        ("Please try again in 3h.", None),
        ("Please try again in soon.", None),
        ("Please try again in -1m.", None),
    ];

    for (message, want) in cases {
        assert_eq!(parse_openai_retry_after_message(message), *want, "{message}");
    }
}

#[test]
fn waits_are_rounded_to_the_nearest_nanosecond() {
    let cases: &[(&str, Option<Duration>)] = &[
        ("Please try again in 0.0000000014s", Some(Duration::from_nanos(1))),
        // The nearest double is a little below one and a half nanoseconds.
        ("Please try again in 0.0000000015s", Some(Duration::from_nanos(1))),
        ("Please try again in 0.0000000016s", Some(Duration::from_nanos(2))),
        // Exactly half way: the even one is taken.
        ("Please try again in 0.0009765625s", Some(Duration::from_nanos(976_562))),
        ("Please try again in 0.0029296875s", Some(Duration::from_nanos(2_929_688))),
        ("Please try again in -0.00000000000000001s", None),
        ("Please try again in .5ms", Some(Duration::from_nanos(500_000))),
        ("Please try again in 2.s", Some(Duration::from_secs(2))),
        ("Please try again in +3s", Some(Duration::from_secs(3))),
        ("Please try again in -1m90s", Some(Duration::from_secs(30))),
        ("Please try again in 1m", Some(Duration::from_secs(60))),
        ("Please try again in .s", None),
        ("Please try again in s", None),
        ("Please try again in 99999999999999999999s", None),
        ("nothing of the kind", None),
        ("Please try again in ", None),
    ];
    for (message, want) in cases {
        assert_eq!(parse_openai_retry_after_message(message), *want, "{message}");
    }
}

#[test]
fn parses_wrapped_http_error_payload() {
    let body = object1(
        "error",
        object4(
            "type",
            text_json("requests"),
            "code",
            text_json("rate_limit_exceeded"),
            "message",
            text_json(
                "Rate limit reached for gpt-5.4 on requests per min (RPM). Please try again in 1.25s.",
            ),
            "param",
            Json::Null,
        ),
    );

    let error = parse_openai_http_error(body.to_text().as_bytes()).expect("api error");

    assert_eq!(error.kind.as_deref(), Some("requests"));
    assert_eq!(error.code.as_deref(), Some("rate_limit_exceeded"));
    assert_eq!(openai_api_error_retry_after(&error), Some(Duration::from_millis(1_250)));
}

#[test]
fn parses_wrapped_stream_error_payload() {
    let data = object3(
        "type",
        text_json("error"),
        "error",
        object4(
            "type",
            text_json("tokens"),
            "code",
            text_json("rate_limit_exceeded"),
            "message",
            text_json(
                "Rate limit reached for gpt-5.4 on tokens per min (TPM). Please try again in 75ms.",
            ),
            "param",
            Json::Null,
        ),
        "sequence_number",
        unsigned_json(2),
    );

    let error = parse_openai_stream_error(&data.to_text()).expect("api error");

    assert_eq!(error.kind.as_deref(), Some("tokens"));
    assert!(openai_api_error_is_rate_limit(&error));
    assert_eq!(openai_api_error_retry_after(&error), Some(Duration::from_millis(75)));
}

fn upstream_body(provider_name: &str, raw: &str) -> Json {
    object1(
        "error",
        object3(
            "code",
            unsigned_json(400),
            "message",
            text_json("Provider returned error"),
            "metadata",
            object2("provider_name", text_json(provider_name), "raw", text_json(raw)),
        ),
    )
}

#[test]
fn classifies_openrouter_upstream_wrapper_as_retryable() {
    let body = upstream_body("Z.AI", "internal server error");
    let api_error = parse_openai_http_error(body.to_text().as_bytes()).expect("api error");
    assert_eq!(api_error.code.as_deref(), Some(UPSTREAM_PROVIDER_ERROR_CODE));
    let err = OpenAIError::ApiError(api_error);
    assert_eq!(classify(&err), Retryability::transient(None));
}

#[test]
fn classifies_openrouter_upstream_capacity_wrapper_with_small_hint() {
    let body = upstream_body("Upstream", "model is at capacity");
    let api_error = parse_openai_http_error(body.to_text().as_bytes()).expect("api error");
    let err = OpenAIError::ApiError(api_error);
    assert_eq!(
        classify(&err),
        Retryability::transient(Some(Duration::from_millis(INFERRED_CAPACITY_BACKOFF_MS)))
    );
}

#[test]
fn classifies_openrouter_upstream_wrapper_without_metadata_as_retryable() {
    let body = object1("error", object1("message", text_json("Provider returned error")));
    let api_error = parse_openai_http_error(body.to_text().as_bytes()).expect("api error");
    assert!(classify(&OpenAIError::ApiError(api_error)).is_retryable());
}

#[test]
fn lifts_openrouter_metadata_raw_into_message() {
    let body = upstream_body("Z.AI", "The requested model 'z-ai/glm-5.1' does not exist.");

    let error = parse_openai_http_error(body.to_text().as_bytes()).expect("api error");

    assert_eq!(
        error.message,
        "Provider returned error (Z.AI: The requested model 'z-ai/glm-5.1' does not exist.)"
    );
}

#[test]
fn lifts_openrouter_metadata_raw_without_provider_name() {
    let body = object1(
        "error",
        object2(
            "message",
            text_json("Provider returned error"),
            "metadata",
            object1("raw", text_json("upstream detail")),
        ),
    );

    let error = parse_openai_http_error(body.to_text().as_bytes()).expect("api error");

    assert_eq!(error.message, "Provider returned error: upstream detail");
}

#[test]
fn leaves_message_untouched_when_metadata_raw_absent() {
    let body = object1("error", object1("message", text_json("invalid api key")));

    let error = parse_openai_http_error(body.to_text().as_bytes()).expect("api error");

    assert_eq!(error.message, "invalid api key");
}

#[test]
fn only_error_objects_with_a_message_are_read() {
    assert_eq!(parse_openai_http_error(b"\xff\xfe"), None);
    assert_eq!(parse_openai_http_error(b"{\"error\":{\"message\":\"  \"}}"), None);
    assert_eq!(parse_openai_stream_error("{\"message\":\"plain\"}"), None);
    let bare = parse_openai_stream_error("{\"type\":\"error\",\"message\":\" bare \"}")
        .expect("an error by its type");
    assert_eq!(bare, api_error(None, None, "bare"));
}

#[test]
fn errors_are_shown_with_what_they_hold() {
    let full = ApiError {
        message: "too many".to_owned(),
        kind: Some("tokens".to_owned()),
        param: Some("input".to_owned()),
        code: Some("rate_limit_exceeded".to_owned()),
    };
    assert_eq!(
        full.display_text(),
        "tokens: too many (param: input) (code: rate_limit_exceeded)"
    );
    assert_eq!(api_error(None, None, "plain").display_text(), "plain");
    assert_eq!(
        OpenAIError::JSONDeserialize("bad".to_owned(), "{}".to_owned()).display_text(),
        "failed to deserialize api response: error:bad content:{}"
    );
    assert_eq!(
        OpenAIError::InvalidArgument("x".to_owned()).display_text(),
        "invalid args: x"
    );
}

#[test]
fn waits_may_be_told_with_exponents_and_many_digits() {
    for (message, want) in [
        ("Please try again in 2e1s.", Some(Duration::from_secs(20))),
        ("Please try again in 2E+1s.", Some(Duration::from_secs(20))),
        ("Please try again in 1.5e-1s.", Some(Duration::from_millis(150))),
        ("Please try again in 25e1ms.", Some(Duration::from_millis(250))),
        ("Please try again in 1e-400s.", Some(Duration::zero())),
        ("Please try again in 0e99999999999999999999s.", Some(Duration::zero())),
        (
            "Please try again in 20000000000000000000ms.",
            Some(Duration::from_secs(20_000_000_000_000_000)),
        ),
        ("Please try again in 1.2500000000000000000001s.", Some(Duration::from_millis(1250))),
        ("Please try again in 0.5e1m1e0s.", Some(Duration::from_secs(301))),
        ("Please try again in 1e99s.", None),
        ("Please try again in 1es.", None),
        ("Please try again in 1e+s.", None),
        ("Please try again in .e1s.", None),
        ("Please try again in infs.", None),
    ] {
        assert_eq!(parse_openai_retry_after_message(message), want, "{message}");
    }
}

fn seconds(value: f64) -> Option<Duration> {
    if !value.is_finite() || value < 0.0 {
        return None;
    }
    let span = std::time::Duration::try_from_secs_f64(value).ok()?;
    Some(Duration { nanos: span.as_nanos() })
}

fn number(text: &str) -> Option<f64> {
    text.parse::<f64>().ok()
}

fn wait(token: &str) -> Option<Duration> {
    parse_openai_retry_after_message(&format!("Please try again in {token}"))
}

#[test]
fn numbers_in_waits_are_doubles() {
    let mut texts: Vec<String> = [
        "0", "-0", "0.1", "0.2", "0.3", "1", "1.1", "419.6", "59.6", "-1", "-1e-17", "-1e-320",
        "-1e-324", "-1e-400", "1e-9", "5e-10", "4.9999999999999999e-10", "1.5e-9", "2.5e-9",
        "3.5e-9", "1.0000000005", "1.0000000015", "0.0009765625", "0.0029296875",
        "0.9999999995", "0.99999999949999999999", "10000000.1", "123456789.123456789",
        "8388608.0000000005", "4503599627370496.5", "4503599627370497.5",
        "9007199254740993", "9007199254740992.9999999", "18446744073709549568",
        "18446744073709551615", "18446744073709550591", "1e18", "1e19", "2e19", "1e300",
        "1.7976931348623157e308", "1.7976931348623158e308", "1.7976931348623159e308", "1e309",
        "1e1000", "1e99999999999999999999999999999999999999", "-1e99999999999", "1e-9999999999",
        "0e99999999999", "2.2250738585072011e-308", "5e-324", "2.4703282292062327e-324",
        "2.4703282292062328e-324", "inf", "-inf", "nan", "infinity", "", ".", "+", "1e", "e1",
        "1.e1", ".5e+1", "+.5E-1", "1_0", "1e5e5", "0x10", "00000000000000000000000000000001",
    ]
    .iter()
    .map(|text| text.to_string())
    .collect();
    let mut state: u64 = 0x9e37_79b9_7f4a_7c15;
    for i in 0..60 {
        state = state
            .wrapping_mul(6_364_136_223_846_793_005)
            .wrapping_add(1_442_695_040_888_963_407);
        let sign = if i % 7 == 0 { "-" } else { "" };
        let whole = state >> 50;
        let fraction = state % 1_000_000_007;
        let exponent = ((state >> 40) % 40) as i64 - 25;
        texts.push(format!("{sign}{whole}.{fraction}e{exponent}"));
    }
    texts.push(format!("0.{}1", "3".repeat(400)));
    texts.push(format!("{}.5e-400", "7".repeat(400)));
    for text in &texts {
        let wanted = number(text).and_then(seconds);
        assert_eq!(wait(&format!("{text}s")), wanted, "{text}s");
        let wanted = number(text).and_then(|value| {
            if value < 0.0 {
                None
            } else {
                seconds(value / 1_000.0)
            }
        });
        assert_eq!(wait(&format!("{text}ms")), wanted, "{text}ms");
        let wanted = number(text).and_then(|value| seconds(value * 60.0));
        assert_eq!(wait(&format!("{text}m")), wanted, "{text}m");
        assert_eq!(wait(&format!("{text}min")), wanted, "{text}min");
    }
}

#[test]
fn minutes_and_seconds_are_added_as_doubles() {
    let texts = [
        "0", "0.1", "0.2", "-0.2", "1", "-1", "59.6", "-60", "60", "1e-300", "-1e-300", "1e15",
        "-6e16", "1.7e307", "1.7976931348623157e308", "-1e308", "1e400", "3e-324", "1e30",
        "-6e31", "-5.9999999999999999e31", "123456.7890123456789",
    ];
    for minutes in texts {
        for after in texts {
            let token = format!("{minutes}m{after}s");
            let wanted = match (number(minutes), number(after)) {
                (Some(minutes), Some(after)) => seconds(minutes * 60.0 + after),
                _ => None,
            };
            assert_eq!(wait(&token), wanted, "{token}");
        }
    }
}
