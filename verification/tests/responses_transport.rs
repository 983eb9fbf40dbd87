use halter_providers::openai_error::{classify, ApiError, OpenAIError};
use halter_providers::openai_rate_limit::OpenAiRateLimiter;
use halter_providers::openai_rate_limit_policy::OpenAiReservation;
use halter_providers::openai_stream::ResponseStreamEvent;
use halter_providers::protocol::{ProviderError, ProviderErrorKind, CANCELLED_MESSAGE};
use halter_providers::responses_transport::{
    conclude_refusal, decode_openai_error, decode_stream_event, provider_error_from_openai,
    take_stream_data, StreamStep,
    provider_error_from_transport, OpenAiStreamRateLimitObserver, ResponsesTransportRequest,
    TransportError,
};
use halter_providers::secret::SecretString;
use halter_providers::time::{Duration, Moment, NANOS_PER_SEC};

fn now() -> Moment {
    Moment { nanos: 5_000 * NANOS_PER_SEC }
}

fn new_limiter() -> OpenAiRateLimiter {
    OpenAiRateLimiter::new(&SecretString::from("test-key"), "https://api.openai.com")
}

fn api_error(message: &str, kind: Option<&str>, code: Option<&str>) -> ApiError {
    ApiError {
        message: message.to_owned(),
        kind: kind.map(ToOwned::to_owned),
        param: None,
        code: code.map(ToOwned::to_owned),
    }
}

#[test]
fn observer_record_api_error_threads_tpm_to_apply_retry_after() {
    let mut limiter = new_limiter();
    let observer = OpenAiStreamRateLimitObserver {
        model: "gpt-5".to_owned(),
        tokens_per_minute: Some(500_000),
    };
    let error = api_error(
        "Rate limit reached. Please try again in 0.05s.",
        Some("tokens"),
        Some("rate_limit_exceeded"),
    );

    observer.record_api_error(&mut limiter, &error, now());

    assert!(
        limiter.cooldown("gpt-5", Some(500_000)).is_some(),
        "observer must call apply_retry_after",
    );
    assert_eq!(
        limiter.token_window_limit("gpt-5", Some(500_000)),
        Some(500_000),
        "observer must thread Some(500_000) TPM, not None",
    );
}

#[test]
fn provider_error_retryability_matches_classify() {
    let cases: Vec<(&str, OpenAIError, bool)> = vec![
        (
            "rate-limit api error",
            OpenAIError::ApiError(api_error(
                "rate limit reached",
                Some("tokens"),
                Some("rate_limit_exceeded"),
            )),
            true,
        ),
        (
            "synthetic 5xx",
            OpenAIError::ApiError(api_error(
                "Internal Server Error",
                None,
                Some(halter_providers::openai_error::SYNTHETIC_SERVER_ERROR_CODE),
            )),
            true,
        ),
        (
            "client error",
            OpenAIError::ApiError(api_error(
                "missing required parameter",
                Some("invalid_request"),
                Some("invalid_request_error"),
            )),
            false,
        ),
        (
            "stream framing",
            OpenAIError::StreamError("EventStream error: eof".to_owned()),
            true,
        ),
    ];

    for (label, error, expected_retryable) in cases {
        let retryability = classify(&error);
        let provider_error = provider_error_from_openai(error);
        assert_eq!(
            retryability.is_retryable(),
            expected_retryable,
            "{label}: classify mismatch"
        );
        assert_eq!(
            provider_error.retryable(),
            expected_retryable,
            "{label}: ProviderError retryability disagrees with classify"
        );
        assert!(
            provider_error.message.starts_with("failed to execute provider request:"),
            "{label}: message missing canonical prefix"
        );
    }
}

#[test]
fn provider_error_cancelled_is_distinguishable() {
    let err = ProviderError::cancelled();
    assert!(err.is_cancelled());
    assert!(!err.retryable());
    assert_eq!(err.message, CANCELLED_MESSAGE);
}

#[test]
fn refusals_are_sorted_and_teach_the_limiter() {
    let request = ResponsesTransportRequest {
        provider_label: "openai",
        model: "gpt-5".to_owned(),
        reservation: OpenAiReservation { requests: 1, tokens: 1 },
        rate_limit_strategy: None,
        tokens_per_minute: Some(400_000),
    };
    let mut limiter = new_limiter();
    let body = br#"{"error":{"type":"tokens","code":"rate_limit_exceeded","message":"Please try again in 2s."}}"#;
    let transport = conclude_refusal(&request, &mut limiter, 429, body, now());
    let error = provider_error_from_transport(transport);
    assert_eq!(error.kind, ProviderErrorKind::RateLimited);
    assert_eq!(error.backoff_hint, Some(Duration::from_secs(2)));
    assert_eq!(
        error.message,
        "failed to execute provider request: tokens: Please try again in 2s. (code: rate_limit_exceeded)"
    );
    assert_eq!(limiter.cooldown("gpt-5", None), Some(now().plus(Duration::from_secs(2))));
    assert_eq!(limiter.token_window_limit("gpt-5", None), Some(400_000));

    let failed = conclude_refusal(&request, &mut limiter, 502, b" upstream broke\xff ", now());
    assert_eq!(
        failed.display_text(),
        "retryable provider failure: upstream broke\u{fffd} (code: transport.server_error)"
    );
    let rejected = conclude_refusal(&request, &mut limiter, 404, b"no such thing", now());
    assert_eq!(rejected.display_text(), "fatal provider failure: no such thing");
}

#[test]
fn broken_connections_are_worth_another_attempt() {
    let transport = TransportError::from_reqwest("reset".to_owned(), "openai");
    assert_eq!(
        transport.display_text(),
        "retryable provider failure: failed to execute openai request: http error: reset (code: transport.server_error)"
    );
    let error = provider_error_from_transport(transport);
    assert_eq!(error.kind, ProviderErrorKind::Transient);
    assert!(provider_error_from_transport(TransportError::Cancelled).is_cancelled());
    assert_eq!(
        TransportError::Cancelled.display_text(),
        "failed to execute provider request: request cancelled"
    );
    let refused = provider_error_from_transport(TransportError::permit_refused("gone"));
    assert_eq!(
        refused.message,
        "failed to execute provider request: failed to acquire rate-limit permit: gone"
    );
    assert_eq!(refused.kind, ProviderErrorKind::Fatal);
}

#[test]
fn failed_servers_are_worth_another_attempt_whatever_they_say() {
    let request = ResponsesTransportRequest {
        provider_label: "openai",
        model: "gpt-5".to_owned(),
        reservation: OpenAiReservation { requests: 1, tokens: 1 },
        rate_limit_strategy: None,
        tokens_per_minute: None,
    };
    let body = br#"{"error":{"type":"invalid_request_error","message":"no"}}"#;
    let failed = conclude_refusal(&request, &mut new_limiter(), 500, body, now());
    assert_eq!(
        failed.display_text(),
        "retryable provider failure: invalid_request_error: no"
    );
    assert_eq!(
        provider_error_from_transport(failed).kind,
        ProviderErrorKind::Transient
    );
    assert!(classify(&decode_openai_error(500, b"gone")).is_retryable());
    let error = decode_openai_error(
        400,
        br#"{"error":{"type":"invalid_request_error","message":"no"}}"#,
    );
    assert!(!classify(&error).is_retryable());
}

#[test]
fn stream_events_are_decoded() {
    let observer = OpenAiStreamRateLimitObserver {
        model: "gpt-5".to_owned(),
        tokens_per_minute: None,
    };
    let mut limiter = new_limiter();
    let keepalive = r#"{"type":"keepalive","sequence_number":4}"#;
    assert!(matches!(decode_stream_event(keepalive, &observer, &mut limiter, now()), Ok(None)));

    let delta = r#"{"type":"response.output_text.delta","sequence_number":2,"item_id":"msg_1",
        "output_index":0,"content_index":0,"delta":"x"}"#;
    assert!(matches!(
        decode_stream_event(delta, &observer, &mut limiter, now()),
        Ok(Some(ResponseStreamEvent::ResponseOutputTextDelta { delta })) if delta == "x"
    ));

    let cut_short = r#"{"type":"response.output_text.delta","delta":"x"}"#;
    for unreadable in [cut_short, "garbage"] {
        assert!(matches!(
            decode_stream_event(unreadable, &observer, &mut limiter, now()),
            Err(OpenAIError::JSONDeserialize(_, content)) if content == unreadable
        ));
    }
    assert!(limiter.cooldown("gpt-5", None).is_none());

    let limited = r#"{"type":"error","error":{"type":"requests","message":"Please try again in 1s"}}"#;
    assert!(matches!(
        decode_stream_event(limited, &observer, &mut limiter, now()),
        Err(OpenAIError::ApiError(error)) if error.kind.as_deref() == Some("requests")
    ));
    assert_eq!(limiter.cooldown("gpt-5", None), Some(now().plus(Duration::from_secs(1))));
}

#[test]
fn end_mark_ends_a_reply() {
    let observer = OpenAiStreamRateLimitObserver {
        model: "gpt-5".to_owned(),
        tokens_per_minute: None,
    };
    let mut limiter = new_limiter();
    assert!(matches!(
        take_stream_data("[DONE]", &observer, &mut limiter, now()),
        StreamStep::End
    ));
    let keepalive = r#"{"type":"keepalive","sequence_number":4}"#;
    assert!(matches!(
        take_stream_data(keepalive, &observer, &mut limiter, now()),
        StreamStep::Skip
    ));
    assert!(matches!(
        take_stream_data("nope", &observer, &mut limiter, now()),
        StreamStep::Item(Err(_))
    ));
}
