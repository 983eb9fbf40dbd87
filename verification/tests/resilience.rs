use std::collections::VecDeque;
use std::sync::Arc;

use halter_providers::http_client::Failure;
use halter_providers::protocol::{
    BlockId, MessageId, ProviderError, ProviderErrorKind, StopReason, StreamEvent,
};
use halter_providers::resilience::{
    setup_provider_error, stream_event_commits_attempt, CommitDedup, CompactFailure,
    CompactSession, DefaultProviderErrorClassifier, FailureAction, ProviderErrorClassifier,
    ProviderTimeouts, ResiliencePolicy, ResilientProvider, SessionAction, SessionInput,
    StreamSession,
};
use halter_providers::retry::RetryPolicy;
use halter_providers::time::Duration;

fn test_policy(max_attempts: u32) -> ResiliencePolicy {
    ResiliencePolicy {
        timeouts: ProviderTimeouts {
            connect: Duration::from_secs(1),
            request: Duration::from_secs(2),
            stream_idle: Duration::from_secs(3),
        },
        request_retry: RetryPolicy {
            max_attempts,
            base_backoff: Duration::from_millis(1),
            max_backoff: Duration::from_millis(5),
            deadline: Duration::from_secs(60),
            jitter_pct: 0,
        },
    }
}

fn transient_error(message: &str) -> ProviderError {
    ProviderError::with_kind(message.to_owned(), ProviderErrorKind::Transient)
}

fn message_start(id: &str) -> StreamEvent {
    StreamEvent::MessageStart { id: MessageId(id.to_owned()) }
}

fn text_delta(delta: &str) -> StreamEvent {
    StreamEvent::TextDelta { id: BlockId("text".to_owned()), delta: delta.to_owned() }
}

fn success(id: &str, text: &str) -> Vec<SessionInput> {
    vec![
        SessionInput::Event(message_start(id)),
        SessionInput::Event(text_delta(text)),
        SessionInput::Event(StreamEvent::MessageEnd {
            id: MessageId(id.to_owned()),
            stop_reason: StopReason::EndTurn,
            response_id: None,
        }),
        SessionInput::Ended,
    ]
}

/// Runs attempts, each a list of inputs, and gives back how many were made and
/// what the consumer saw.
fn drive(
    policy: ResiliencePolicy,
    classifier: &dyn ProviderErrorClassifier,
    attempts: Vec<Vec<SessionInput>>,
) -> (usize, Vec<Result<StreamEvent, ProviderError>>) {
    let mut session = StreamSession::new(policy);
    let mut scripts: VecDeque<Vec<SessionInput>> = attempts.into();
    let mut made = 0;
    let mut seen = Vec::new();
    loop {
        made += 1;
        assert_eq!(session.attempt_id() as usize, made);
        let script = scripts.pop_front().expect("a scripted attempt");
        let mut again = false;
        for input in script {
            match session.advance(classifier, input) {
                SessionAction::Forward(events) => seen.extend(events.into_iter().map(Ok)),
                SessionAction::RetryAfter(delay) => {
                    assert!(delay <= policy.request_retry.max_backoff);
                    again = true;
                    break;
                }
                SessionAction::Finish(events) => {
                    seen.extend(events.into_iter().map(Ok));
                    return (made, seen);
                }
                SessionAction::Fail(error) => {
                    seen.push(Err(error));
                    return (made, seen);
                }
            }
        }
        assert!(again, "an attempt has to end");
    }
}

fn said(seen: &[Result<StreamEvent, ProviderError>], wanted: &str) -> bool {
    seen.iter().any(|item| {
        matches!(item, Ok(StreamEvent::TextDelta { delta, .. }) if delta == wanted)
    })
}

fn starts(seen: &[Result<StreamEvent, ProviderError>]) -> usize {
    seen.iter().filter(|item| matches!(item, Ok(StreamEvent::MessageStart { .. }))).count()
}

#[test]
fn retries_pre_commit_retryable_stream_failure() {
    let (attempts, seen) = drive(
        test_policy(3),
        &DefaultProviderErrorClassifier,
        vec![
            vec![SessionInput::StreamFailed(transient_error("rate limited"))],
            success("msg_retry", "done"),
        ],
    );
    assert_eq!(attempts, 2);
    assert_eq!(starts(&seen), 1);
    assert!(said(&seen, "done"));
}

#[test]
fn does_not_retry_after_commit_boundary() {
    let (attempts, seen) = drive(
        test_policy(3),
        &DefaultProviderErrorClassifier,
        vec![
            vec![
                SessionInput::Event(message_start("msg_committed")),
                SessionInput::Event(text_delta("partial")),
                SessionInput::StreamFailed(transient_error("upstream reset")),
            ],
            success("msg_second", "should not run"),
        ],
    );
    assert!(seen.last().expect("an item").is_err(), "post-commit error should be propagated");
    assert_eq!(attempts, 1);
}

struct StartupClassifier;

impl ProviderErrorClassifier for StartupClassifier {
    fn classify(&self, error: ProviderError) -> ProviderError {
        if error.message.contains("temporary transport") {
            return ProviderError::with_kind(error.message, ProviderErrorKind::Transient);
        }
        error
    }
}

#[test]
fn classifier_can_make_startup_errors_retryable() {
    let failure = || {
        SessionInput::SetupFailed(ProviderError::with_kind(
            "temporary transport failure".to_owned(),
            ProviderErrorKind::Fatal,
        ))
    };
    let (attempts, seen) = drive(
        test_policy(2),
        &StartupClassifier,
        vec![vec![failure()], success("msg_startup", "ok")],
    );
    assert_eq!(attempts, 2);
    assert!(said(&seen, "ok"));
    let (attempts, _) =
        drive(test_policy(2), &DefaultProviderErrorClassifier, vec![vec![failure()]]);
    assert_eq!(attempts, 1);
}

#[test]
fn typed_fatal_startup_error_short_circuits_retry_budget() {
    let error = setup_provider_error(Failure::Typed(ProviderError::with_kind(
        "failed to encode request".to_owned(),
        ProviderErrorKind::Fatal,
    )));
    let (attempts, seen) = drive(
        test_policy(5),
        &DefaultProviderErrorClassifier,
        vec![vec![SessionInput::SetupFailed(error)]],
    );
    assert_eq!(attempts, 1);
    assert_eq!(seen.len(), 1);
    let error = seen[0].as_ref().expect_err("fatal setup error");
    assert_eq!(error.kind, ProviderErrorKind::Fatal);
    assert_eq!(error.message, "failed to encode request");
}

#[test]
fn retries_startup_errors_by_default() {
    let error = setup_provider_error(Failure::Untyped("temporary transport failure".to_owned()));
    let (attempts, seen) = drive(
        test_policy(2),
        &DefaultProviderErrorClassifier,
        vec![vec![SessionInput::SetupFailed(error)], success("msg_startup", "ok")],
    );
    assert_eq!(attempts, 2);
    assert!(said(&seen, "ok"));
}

#[test]
fn exhausts_retry_budget_and_emits_final_error() {
    let (attempts, seen) = drive(
        test_policy(2),
        &DefaultProviderErrorClassifier,
        vec![
            vec![SessionInput::StreamFailed(transient_error("first"))],
            vec![SessionInput::StreamFailed(transient_error("final"))],
        ],
    );
    assert_eq!(attempts, 2);
    assert_eq!(seen.len(), 1);
    let error = seen[0].as_ref().expect_err("final item should be error");
    assert_eq!(error.message, "final");
    assert!(error.retryable());
}

#[test]
fn emits_fatal_pre_commit_error_without_retry() {
    let (attempts, seen) = drive(
        test_policy(3),
        &DefaultProviderErrorClassifier,
        vec![
            vec![SessionInput::StreamFailed(ProviderError::with_kind(
                "bad request".to_owned(),
                ProviderErrorKind::Fatal,
            ))],
            success("msg_second", "should not run"),
        ],
    );
    assert_eq!(attempts, 1);
    assert_eq!(seen.len(), 1);
    let error = seen[0].as_ref().expect_err("fatal item should be error");
    assert_eq!(error.kind, ProviderErrorKind::Fatal);
}

#[test]
fn retries_pre_commit_in_band_error_event() {
    let (attempts, seen) = drive(
        test_policy(3),
        &DefaultProviderErrorClassifier,
        vec![
            vec![SessionInput::Event(StreamEvent::Error {
                error: transient_error("provider event error"),
            })],
            success("msg_retry_event", "done"),
        ],
    );
    assert_eq!(attempts, 2);
    assert!(said(&seen, "done"));
}

#[test]
fn request_setup_timeout_emits_retryable_error() {
    let (attempts, seen) = drive(
        test_policy(1),
        &DefaultProviderErrorClassifier,
        vec![vec![SessionInput::SetupTimedOut]],
    );
    assert_eq!(attempts, 1);
    let error = seen[0].as_ref().expect_err("timeout should emit an error");
    assert_eq!(error.kind, ProviderErrorKind::Transient);
    assert_eq!(
        error.message,
        "failed to execute provider request: request timed out after 2s"
    );
}

#[test]
fn stream_idle_timeout_emits_retryable_error() {
    let (_, seen) = drive(
        test_policy(1),
        &DefaultProviderErrorClassifier,
        vec![vec![SessionInput::IdleTimedOut]],
    );
    let error = seen[0].as_ref().expect_err("idle timeout should emit an error");
    assert_eq!(error.kind, ProviderErrorKind::Transient);
    assert_eq!(
        error.message,
        "failed to execute provider request: stream idle timeout after 3s"
    );
}

#[test]
fn cancellation_ends_the_stream() {
    let (_, seen) = drive(
        test_policy(3),
        &DefaultProviderErrorClassifier,
        vec![vec![SessionInput::Cancelled]],
    );
    assert!(seen[0].as_ref().expect_err("item should be cancellation").is_cancelled());
}

#[test]
fn provider_warning_does_not_commit_attempt() {
    let warning = StreamEvent::ProviderWarning { message: "provider degraded".to_owned() };
    assert!(!stream_event_commits_attempt(&warning));
    let (attempts, seen) = drive(
        test_policy(3),
        &DefaultProviderErrorClassifier,
        vec![
            vec![
                SessionInput::Event(warning),
                SessionInput::StreamFailed(transient_error("upstream reset")),
            ],
            success("msg_after_warning", "done"),
        ],
    );
    assert_eq!(attempts, 2, "warning must not foreclose the retry");
    assert!(said(&seen, "done"));
}

#[test]
fn events_of_a_failed_attempt_are_not_seen() {
    let (_, seen) = drive(
        test_policy(3),
        &DefaultProviderErrorClassifier,
        vec![
            vec![
                SessionInput::Event(message_start("first")),
                SessionInput::StreamFailed(transient_error("reset")),
            ],
            vec![
                SessionInput::Event(message_start("second")),
                SessionInput::Event(message_start("second")),
                SessionInput::Ended,
            ],
        ],
    );
    assert_eq!(seen, vec![Ok(message_start("second"))]);
}

#[test]
fn commit_dedup_suppresses_duplicate_message_start() {
    let mut dedup = CommitDedup::default();
    let id = MessageId("msg_alpha".to_owned());
    let other = MessageId("msg_beta".to_owned());

    assert!(dedup.allow(&StreamEvent::MessageStart { id: id.clone() }));
    assert!(!dedup.allow(&StreamEvent::MessageStart { id: id.clone() }));
    assert!(dedup.allow(&StreamEvent::MessageStart { id: other }));
}

#[test]
fn commit_dedup_passes_through_non_message_start_events() {
    let mut dedup = CommitDedup::default();
    let block = BlockId("blk_one".to_owned());
    let event = StreamEvent::TextStart { id: block.clone() };
    assert!(dedup.allow(&event));
    assert!(dedup.allow(&event));
    assert!(dedup.allow(&StreamEvent::TextEnd { id: block }));
}

#[test]
fn compact_retries_typed_retryable_failures() {
    let mut session = CompactSession::new(test_policy(3));
    let classifier = DefaultProviderErrorClassifier;
    let failure =
        || CompactFailure::Failed(Failure::Typed(transient_error("upstream hiccup")));
    assert!(matches!(
        session.advance(&classifier, failure()),
        FailureAction::RetryAfter(_)
    ));
    assert_eq!(session.attempt_id(), 2);
    assert!(matches!(
        session.advance(&classifier, failure()),
        FailureAction::RetryAfter(_)
    ));
    match session.advance(&classifier, failure()) {
        FailureAction::Fail(error) => assert_eq!(error.message, "upstream hiccup"),
        FailureAction::RetryAfter(_) => panic!("the budget is spent"),
    }
}

#[test]
fn compact_does_not_retry_untyped_or_fatal_failures() {
    let classifier = DefaultProviderErrorClassifier;
    let failures = [
        Failure::Untyped("provider does not support compaction".to_owned()),
        Failure::Typed(ProviderError::with_kind("no".to_owned(), ProviderErrorKind::Fatal)),
    ];
    for failure in failures {
        let mut session = CompactSession::new(test_policy(3));
        match session.advance(&classifier, CompactFailure::Failed(failure)) {
            FailureAction::Fail(error) => assert_eq!(error.kind, ProviderErrorKind::Fatal),
            FailureAction::RetryAfter(_) => panic!("not worth another attempt"),
        }
    }
}

#[test]
fn compact_times_out_hanging_requests() {
    let mut session = CompactSession::new(test_policy(1));
    match session.advance(&DefaultProviderErrorClassifier, CompactFailure::TimedOut) {
        FailureAction::Fail(error) => {
            assert_eq!(error.kind, ProviderErrorKind::Transient);
            assert_eq!(
                error.message,
                "failed to compact session: request timed out after 2s"
            );
        }
        FailureAction::RetryAfter(_) => panic!("one attempt only"),
    }
}

#[test]
fn default_policy_has_timeouts() {
    let policy = ResiliencePolicy::default();
    assert_eq!(policy.timeouts.connect, Duration::from_secs(10));
    assert_eq!(policy.timeouts.request, Duration::from_secs(60));
    assert_eq!(policy.timeouts.stream_idle, Duration::from_secs(60));
    assert_eq!(policy.timeouts, ProviderTimeouts::default());
    assert_eq!(policy.request_retry, RetryPolicy::default());
}

#[test]
fn default_classifier_changes_nothing() {
    let error = DefaultProviderErrorClassifier.classify(transient_error("busy"));
    assert_eq!(error.message, "busy");
    assert_eq!(error.kind, ProviderErrorKind::Transient);
}

#[test]
fn guarded_provider_keeps_what_it_is_given() {
    let guarded = ResilientProvider::new("plain", 7_u8, test_policy(3));
    assert_eq!(guarded.label, "plain");
    assert_eq!(*guarded.inner, 7);
    assert_eq!(guarded.policy, test_policy(3));

    struct Strict;
    impl ProviderErrorClassifier for Strict {
        fn classify(&self, error: ProviderError) -> ProviderError {
            ProviderError::with_kind(error.message, ProviderErrorKind::Fatal)
        }
    }
    let guarded =
        ResilientProvider::new_with_classifier("strict", 7_u8, test_policy(3), Arc::new(Strict));
    assert_eq!(
        guarded.classifier.classify(transient_error("busy")).kind,
        ProviderErrorKind::Fatal
    );
}

#[test]
fn last_attempt_is_what_is_seen() {
    let (attempts, seen) = drive(
        test_policy(3),
        &DefaultProviderErrorClassifier,
        vec![
            vec![
                SessionInput::Event(message_start("first")),
                SessionInput::StreamFailed(transient_error("reset")),
            ],
            success("second", "hello"),
        ],
    );
    assert_eq!(attempts, 2);
    let ids: Vec<&str> = seen
        .iter()
        .filter_map(|item| match item {
            Ok(StreamEvent::MessageStart { id }) => Some(id.0.as_str()),
            _ => None,
        })
        .collect();
    assert_eq!(ids, vec!["second"]);
    assert_eq!(seen.len(), 3);
    assert!(said(&seen, "hello"));
}
