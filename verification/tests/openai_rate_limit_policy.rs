use halter_providers::openai_rate_limit_policy::{
    estimate_openai_request_cost, parse_openai_reset_duration, parse_retry_after_duration,
    reconcile_rate_limit_snapshot, try_acquire_reservation, AcquireDecision,
    OpenAiRateLimitSnapshot, OpenAiRateLimitState, OpenAiReservation, OpenAiWindowSnapshot,
    OpenAiWindowState,
};
use halter_providers::time::{Duration, Moment, NANOS_PER_SEC};

fn start() -> Moment {
    Moment { nanos: 1_000_000 * NANOS_PER_SEC }
}

#[test]
fn parse_openai_reset_duration_supports_compound_values() {
    struct TestCase {
        name: &'static str,
        input: &'static str,
        want: Option<Duration>,
    }

    let tests = [
        TestCase { name: "seconds", input: "1s", want: Some(Duration::from_secs(1)) },
        TestCase {
            name: "minutes_and_seconds",
            input: "6m0s",
            want: Some(Duration::from_secs(360)),
        },
        TestCase {
            name: "minutes_seconds_and_millis",
            input: "2m3s150ms",
            want: Some(Duration::from_millis(123_150)),
        },
        TestCase { name: "invalid", input: "soon", want: None },
    ];

    for test in tests {
        assert_eq!(parse_openai_reset_duration(test.input), test.want, "{}", test.name);
    }
}

#[test]
fn parse_retry_after_duration_supports_seconds_and_http_dates() {
    let now_wall = 1_700_000_000 * NANOS_PER_SEC;
    let http_date = "Tue, 14 Nov 2023 22:13:25 GMT";

    assert_eq!(parse_retry_after_duration("2", now_wall), Some(Duration::from_secs(2)));
    assert_eq!(parse_retry_after_duration(http_date, now_wall), Some(Duration::from_secs(5)));
}

#[test]
fn try_acquire_reservation_waits_for_reset_when_requests_are_exhausted() {
    let now = start();
    let mut state = OpenAiRateLimitState {
        requests: Some(OpenAiWindowState {
            limit: 2,
            remaining: 1,
            reset_at: Some(now.plus(Duration::from_secs(3))),
        }),
        reserved: OpenAiReservation { requests: 1, tokens: 0 },
        ..OpenAiRateLimitState::default()
    };

    let decision = try_acquire_reservation(
        &mut state,
        OpenAiReservation { requests: 1, tokens: 0 },
        now,
    );

    assert_eq!(decision, AcquireDecision::WaitUntil(now.plus(Duration::from_secs(3))));
    assert_eq!(state.reserved.requests, 1);
}

#[test]
fn reconcile_rate_limit_snapshot_uses_lowest_remaining_within_same_window() {
    let now = start();
    let mut state = OpenAiRateLimitState {
        requests: Some(OpenAiWindowState {
            limit: 60,
            remaining: 10,
            reset_at: Some(now.plus(Duration::from_secs(30))),
        }),
        ..OpenAiRateLimitState::default()
    };

    reconcile_rate_limit_snapshot(
        &mut state,
        OpenAiReservation::default(),
        Some(OpenAiRateLimitSnapshot {
            requests: Some(OpenAiWindowSnapshot {
                limit: 60,
                remaining: 12,
                reset_after: Some(Duration::from_secs(29)),
            }),
            ..OpenAiRateLimitSnapshot::default()
        }),
        now,
    );

    let requests = state.requests.expect("request window");
    assert_eq!(requests.remaining, 10);
    assert!(requests.reset_at.expect("reset") >= now.plus(Duration::from_secs(29)));
}

#[test]
fn reconcile_rate_limit_snapshot_replaces_stale_window_after_reset() {
    let now = start();
    let mut state = OpenAiRateLimitState {
        requests: Some(OpenAiWindowState {
            limit: 60,
            remaining: 0,
            reset_at: Some(now.plus(Duration::from_secs(5))),
        }),
        ..OpenAiRateLimitState::default()
    };

    reconcile_rate_limit_snapshot(
        &mut state,
        OpenAiReservation::default(),
        Some(OpenAiRateLimitSnapshot {
            requests: Some(OpenAiWindowSnapshot {
                limit: 60,
                remaining: 59,
                reset_after: Some(Duration::from_secs(65)),
            }),
            ..OpenAiRateLimitSnapshot::default()
        }),
        now,
    );

    let requests = state.requests.expect("request window");
    assert_eq!(requests.remaining, 59);
    assert_eq!(requests.reset_at, Some(now.plus(Duration::from_secs(65))));
}

#[test]
fn a_request_costs_a_quarter_of_its_bytes_and_all_of_its_output() {
    let cost = estimate_openai_request_cost(401, Some(1_000));
    assert_eq!(cost, OpenAiReservation { requests: 1, tokens: 1_101 });
    assert_eq!(estimate_openai_request_cost(0, None).tokens, 0);
}

#[test]
fn a_granted_reservation_is_counted_and_given_back() {
    let now = start();
    let mut state = OpenAiRateLimitState::default();
    let reservation = OpenAiReservation { requests: 1, tokens: 5 };
    assert_eq!(try_acquire_reservation(&mut state, reservation, now), AcquireDecision::Ready);
    assert_eq!(state.reserved, reservation);
    reconcile_rate_limit_snapshot(&mut state, reservation, None, now);
    assert_eq!(state.reserved, OpenAiReservation::default());
}
