use std::time::Instant;

use halter_providers::retry::{
    backoff_with_draw, compute_backoff, RetryGate, RetryPolicy,
};
use halter_providers::time::Duration;

fn deterministic_policy(max_attempts: u32) -> RetryPolicy {
    RetryPolicy {
        max_attempts,
        base_backoff: Duration::from_millis(10),
        max_backoff: Duration::from_millis(80),
        deadline: Duration::from_secs(60),
        jitter_pct: 0,
    }
}

#[test]
fn compute_backoff_grows_exponentially_until_capped() {
    let policy = deterministic_policy(10);
    assert_eq!(compute_backoff(&policy, 1, None), Duration::from_millis(10));
    assert_eq!(compute_backoff(&policy, 2, None), Duration::from_millis(20));
    assert_eq!(compute_backoff(&policy, 3, None), Duration::from_millis(40));
    assert_eq!(compute_backoff(&policy, 4, None), Duration::from_millis(80));
    // Capped: further growth is clamped to max_backoff.
    assert_eq!(compute_backoff(&policy, 5, None), Duration::from_millis(80));
    assert_eq!(compute_backoff(&policy, 12, None), Duration::from_millis(80));
}

#[test]
fn compute_backoff_honors_hint_capped_to_max() {
    let policy = deterministic_policy(5);
    // Within cap: hint passes through unchanged.
    assert_eq!(
        compute_backoff(&policy, 1, Some(Duration::from_millis(45))),
        Duration::from_millis(45)
    );
    // Above cap: hostile server hint is clamped to max_backoff.
    assert_eq!(
        compute_backoff(&policy, 1, Some(Duration::from_secs(86_400))),
        Duration::from_millis(80)
    );
}

#[test]
fn compute_backoff_applies_jitter_to_hints() {
    let policy = RetryPolicy {
        max_attempts: 5,
        base_backoff: Duration::from_millis(10),
        max_backoff: Duration::from_millis(100),
        deadline: Duration::from_secs(60),
        jitter_pct: 25,
    };
    for _ in 0..32 {
        let backoff = compute_backoff(&policy, 1, Some(Duration::from_millis(40)));
        assert!(backoff >= Duration::from_millis(40));
        assert!(backoff <= Duration::from_millis(50));
    }
}

#[test]
fn compute_backoff_jitter_never_exceeds_max_backoff() {
    let policy = RetryPolicy {
        max_attempts: 5,
        base_backoff: Duration::from_millis(100),
        max_backoff: Duration::from_millis(100),
        deadline: Duration::from_secs(60),
        jitter_pct: 25,
    };
    for _ in 0..32 {
        assert_eq!(
            compute_backoff(&policy, 1, None),
            Duration::from_millis(100),
            "jitter must stay inside max_backoff"
        );
        assert_eq!(
            compute_backoff(&policy, 1, Some(Duration::from_millis(100))),
            Duration::from_millis(100),
            "hint jitter must stay inside max_backoff"
        );
    }
}

#[test]
fn compute_backoff_applies_jitter_below_the_cap() {
    let policy = RetryPolicy {
        max_attempts: 5,
        base_backoff: Duration::from_millis(100),
        max_backoff: Duration::from_secs(10),
        deadline: Duration::from_secs(60),
        jitter_pct: 25,
    };
    for _ in 0..32 {
        let backoff = compute_backoff(&policy, 1, None);
        assert!(backoff >= Duration::from_millis(100), "below floor: {backoff:?}");
        assert!(backoff < Duration::from_millis(125), "above 25% jitter ceiling: {backoff:?}");
    }
}

#[test]
fn retry_gate_returns_none_after_max_attempts() {
    let mut gate = RetryGate::new(deterministic_policy(3));
    assert!(gate.record_failure_and_next_backoff(None).is_some()); // attempt 1
    assert!(gate.record_failure_and_next_backoff(None).is_some()); // attempt 2
    assert!(gate.record_failure_and_next_backoff(None).is_none()); // 3 → exhausted
}

#[test]
fn retry_gate_max_attempts_means_total_calls() {
    let mut gate = RetryGate::new(deterministic_policy(5));

    for failed_attempt in 1..=4 {
        assert_eq!(gate.next_attempt_id(), failed_attempt);
        assert!(gate.record_failure_and_next_backoff(None).is_some());
    }
    assert_eq!(gate.next_attempt_id(), 5);
    assert!(gate.record_failure_and_next_backoff(None).is_none());
}

#[test]
fn retry_gate_clamps_backoff_to_remaining_deadline() {
    let policy = RetryPolicy {
        max_attempts: 100,
        base_backoff: Duration::from_millis(80),
        max_backoff: Duration::from_millis(80),
        deadline: Duration::from_millis(100),
        jitter_pct: 0,
    };
    let mut gate = RetryGate {
        policy,
        started: Instant::now() - std::time::Duration::from_millis(75),
        completed_attempts: 0,
    };

    let backoff = gate
        .record_failure_and_next_backoff(None)
        .expect("deadline should have a small remaining budget");

    assert!(backoff < policy.base_backoff);
    assert!(backoff <= Duration::from_millis(25));
}

#[test]
fn retry_gate_respects_deadline_independent_of_attempt_count() {
    let policy = RetryPolicy {
        max_attempts: 100,
        base_backoff: Duration::from_millis(1),
        max_backoff: Duration::from_millis(10),
        deadline: Duration::from_millis(50),
        jitter_pct: 0,
    };
    let mut gate = RetryGate::new(policy);
    assert!(gate.record_failure_and_next_backoff(None).is_some());
    gate.started = Instant::now() - std::time::Duration::from_millis(60);
    // Even though we still have 98 attempts left, the deadline budget is
    // exhausted and we must stop.
    assert!(gate.record_failure_and_next_backoff(None).is_none());
}

#[test]
fn retry_gate_next_attempt_id_tracks_observable_attempt() {
    let mut gate = RetryGate::new(deterministic_policy(5));
    assert_eq!(gate.next_attempt_id(), 1, "before any failure");
    gate.record_failure_and_next_backoff(None);
    assert_eq!(gate.next_attempt_id(), 2, "after first failure");
    gate.record_failure_and_next_backoff(None);
    assert_eq!(gate.next_attempt_id(), 3);
}

#[test]
fn a_draw_decides_how_much_jitter_is_added() {
    let policy = RetryPolicy {
        max_attempts: 5,
        base_backoff: Duration::from_millis(100),
        max_backoff: Duration::from_secs(10),
        deadline: Duration::from_secs(60),
        jitter_pct: 25,
    };
    assert_eq!(backoff_with_draw(&policy, 1, None, 0), Duration::from_millis(100));
    assert_eq!(backoff_with_draw(&policy, 1, None, 7), Duration::from_millis(107));
    assert_eq!(backoff_with_draw(&policy, 1, None, 25), Duration::from_millis(100));
}

#[test]
fn default_policy_is_bounded() {
    let policy = RetryPolicy::default();
    assert_eq!(policy.max_attempts, 5);
    assert_eq!(policy.base_backoff, Duration::from_millis(500));
    assert_eq!(policy.max_backoff, Duration::from_secs(30));
    assert_eq!(policy.deadline, Duration::from_secs(60));
    assert_eq!(policy.jitter_pct, 25);
}

#[test]
fn endless_base_delay_is_held_at_the_cap() {
    let mut policy = deterministic_policy(3);
    policy.base_backoff = Duration::from_secs(u64::MAX);
    assert_eq!(backoff_with_draw(&policy, 1, None, 0), policy.max_backoff);
}
