use halter_providers::openai_rate_limit::{
    snapshot_from_headers, Acquisition, OpenAiRateLimitPermit, OpenAiRateLimiter,
};
use halter_providers::openai_rate_limit_policy::OpenAiReservation;
use halter_providers::secret::SecretString;
use halter_providers::time::{Duration, Moment, NANOS_PER_SEC};
use reqwest::header::HeaderMap;

const WALL: u128 = 1_700_000_000 * NANOS_PER_SEC;

fn limiter(api_key: &str, base_url: &str) -> OpenAiRateLimiter {
    OpenAiRateLimiter::new(&SecretString::from(api_key), base_url)
}

fn now() -> Moment {
    Moment { nanos: 5_000 * NANOS_PER_SEC }
}

fn small_reservation() -> OpenAiReservation {
    OpenAiReservation { requests: 1, tokens: 1 }
}

fn acquire(limiter: &mut OpenAiRateLimiter, tokens_per_minute: Option<u64>) -> OpenAiRateLimitPermit {
    match limiter.try_acquire("gpt-5", small_reservation(), tokens_per_minute, now()) {
        Acquisition::Granted(permit) => permit,
        Acquisition::WaitUntil(_) => panic!("acquire"),
    }
}

fn rate_limit_headers(remaining_requests: &str, reset_requests: &str) -> HeaderMap {
    let mut h = HeaderMap::new();
    h.insert("x-ratelimit-limit-requests", "100".parse().unwrap());
    h.insert("x-ratelimit-remaining-requests", remaining_requests.parse().unwrap());
    h.insert("x-ratelimit-reset-requests", reset_requests.parse().unwrap());
    h
}

fn remaining_requests_for(limiter: &mut OpenAiRateLimiter, model: &str) -> Option<u64> {
    limiter.entry(model, Some(500_000)).requests.map(|window| window.remaining)
}

#[test]
fn separate_limiters_with_different_credentials_have_separate_entries() {
    let mut a = limiter("key-a", "https://api.openai.com");
    let mut b = limiter("key-b", "https://api.openai.com");

    a.entry("gpt-5", Some(500_000));
    b.entry("gpt-5", Some(500_000));
    a.apply_retry_after("gpt-5", Some(500_000), Duration::from_secs(60), now());

    assert!(a.credential_fingerprint() != b.credential_fingerprint());
    assert!(
        b.cooldown("gpt-5", Some(500_000)).is_none(),
        "limiters with different credentials must not share per-model entries",
    );
}

#[test]
fn dropping_limiter_drops_its_registry() {
    {
        let mut lim = limiter("key-shared", "https://api.openai.com");
        lim.apply_retry_after("gpt-5", Some(500_000), Duration::from_secs(60), now());
    }

    // Create a fresh limiter with the same scope.
    let mut lim = limiter("key-shared", "https://api.openai.com");
    let state = lim.entry("gpt-5", Some(500_000));
    assert!(
        state.cooldown_until.is_none(),
        "a fresh limiter's entry must have no cooldown",
    );
}

#[test]
fn parallel_limiters_for_same_model_do_not_interfere() {
    let mut lim_a = limiter("key-iso", "https://api.openai.com");
    let mut lim_b = limiter("key-iso", "https://api.openai.com");

    lim_a.apply_retry_after("gpt-5", Some(500_000), Duration::from_secs(100), now());

    let granted = lim_b.try_acquire("gpt-5", small_reservation(), Some(500_000), now());
    assert!(matches!(granted, Acquisition::Granted(_)));
    let waiting = lim_a.try_acquire("gpt-5", small_reservation(), Some(500_000), now());
    assert!(matches!(
        waiting,
        Acquisition::WaitUntil(at) if at == now().plus(Duration::from_secs(100))
    ));
}

#[test]
fn one_limiter_with_two_models_keeps_separate_entries() {
    let mut lim = limiter("key-multi", "https://api.openai.com");

    lim.entry("gpt-5", Some(500_000));
    lim.apply_retry_after("gpt-5", None, Duration::from_secs(9), now());
    let gpt5_again = lim.entry("gpt-5", Some(300_000));
    let other = lim.entry("gpt-4o", Some(300_000));

    assert!(
        gpt5_again.cooldown_until.is_some(),
        "same model on the same limiter must reuse the same entry",
    );
    assert_eq!(gpt5_again.tokens.map(|window| window.limit), Some(500_000));
    assert!(
        other.cooldown_until.is_none(),
        "different models on the same limiter must have different entries",
    );
    assert_eq!(other.tokens.map(|window| window.limit), Some(300_000));
}

#[test]
fn update_from_headers_with_2xx_status_reconciles_windows() {
    let mut lim = limiter("key-2xx", "https://api.openai.com");
    let mut permit = acquire(&mut lim, Some(500_000));

    let headers = rate_limit_headers("42", "60s");
    permit.update_from_headers(&mut lim, &headers, 200, now(), WALL);

    assert_eq!(
        remaining_requests_for(&mut lim, "gpt-5"),
        Some(42),
        "2xx must reconcile per-model windows from headers",
    );
}

#[test]
fn update_from_headers_with_429_status_reconciles_windows() {
    let mut lim = limiter("key-429", "https://api.openai.com");
    let mut permit = acquire(&mut lim, Some(500_000));

    let headers = rate_limit_headers("0", "30s");
    permit.update_from_headers(&mut lim, &headers, 429, now(), WALL);

    assert_eq!(
        remaining_requests_for(&mut lim, "gpt-5"),
        Some(0),
        "429 must reconcile per-model windows from headers",
    );
}

#[test]
fn update_from_headers_with_5xx_status_skips_reconcile() {
    let mut lim = limiter("key-5xx", "https://api.openai.com");
    let mut prime = acquire(&mut lim, Some(500_000));
    prime.update_from_headers(&mut lim, &rate_limit_headers("99", "60s"), 200, now(), WALL);
    let baseline = remaining_requests_for(&mut lim, "gpt-5");
    assert_eq!(baseline, Some(99));

    let mut permit = acquire(&mut lim, Some(500_000));
    permit.update_from_headers(&mut lim, &rate_limit_headers("1", "60s"), 500, now(), WALL);

    assert_eq!(
        remaining_requests_for(&mut lim, "gpt-5"),
        baseline,
        "5xx must not reconcile per-model windows",
    );
}

#[test]
fn update_from_headers_with_non_429_4xx_skips_reconcile() {
    let mut lim = limiter("key-4xx", "https://api.openai.com");
    let mut prime = acquire(&mut lim, Some(500_000));
    prime.update_from_headers(&mut lim, &rate_limit_headers("99", "60s"), 200, now(), WALL);
    let baseline = remaining_requests_for(&mut lim, "gpt-5");

    let mut permit = acquire(&mut lim, Some(500_000));
    permit.update_from_headers(&mut lim, &rate_limit_headers("1", "60s"), 400, now(), WALL);

    assert_eq!(
        remaining_requests_for(&mut lim, "gpt-5"),
        baseline,
        "non-429 4xx must not reconcile per-model windows",
    );
}

#[test]
fn update_from_headers_releases_reservation_for_every_status() {
    for (label, status) in [("200", 200), ("429", 429), ("500", 500), ("400", 400)] {
        let mut lim = limiter(&format!("key-{label}"), "https://api.openai.com");
        let mut permit = acquire(&mut lim, Some(500_000));
        assert_eq!(
            lim.entry("gpt-5", Some(500_000)).reserved.requests,
            1,
            "{label}: reservation should be recorded after acquire",
        );

        permit.update_from_headers(&mut lim, &rate_limit_headers("50", "60s"), status, now(), WALL);

        assert_eq!(
            lim.entry("gpt-5", Some(500_000)).reserved.requests,
            0,
            "{label}: reservation must be released by update_from_headers",
        );
        assert!(permit.resolved);
    }
}

#[test]
fn a_permit_gives_its_budget_back_only_once() {
    let mut lim = limiter("key-drop", "https://api.openai.com");
    let mut first = acquire(&mut lim, Some(500_000));
    let second = acquire(&mut lim, Some(500_000));
    assert_eq!(lim.entry("gpt-5", None).reserved.requests, 2);
    first.release_without_headers(&mut lim, now());
    first.release_without_headers(&mut lim, now());
    assert_eq!(lim.entry("gpt-5", None).reserved.requests, 1);
    assert!(!second.resolved);
}

#[test]
fn acquire_with_tpm_some_creates_token_window_at_that_ceiling() {
    let mut lim = limiter("key-tpm-startup", "https://api.openai.com");
    acquire(&mut lim, Some(123_456));

    let window = lim
        .entry("gpt-5", Some(123_456))
        .tokens
        .expect("acquire with TPM Some must seed a token window");
    assert_eq!(window.limit, 123_456);
}

#[test]
fn apply_retry_after_with_tpm_some_sets_cooldown() {
    let mut lim = limiter("key-tpm-midstream", "https://api.openai.com");
    let mut permit = acquire(&mut lim, Some(500_000));
    permit.release_without_headers(&mut lim, now());

    lim.apply_retry_after("gpt-5", Some(500_000), Duration::from_millis(50), now());

    assert_eq!(
        lim.cooldown("gpt-5", Some(500_000)),
        Some(now().plus(Duration::from_millis(50))),
        "apply_retry_after with TPM Some must set cooldown",
    );
}

#[test]
fn apply_retry_after_with_tpm_none_does_not_clobber_existing_window() {
    let mut lim = limiter("key-tpm-nonclobber", "https://api.openai.com");
    let mut permit = acquire(&mut lim, Some(500_000));
    permit.release_without_headers(&mut lim, now());
    assert_eq!(lim.token_window_limit("gpt-5", Some(500_000)), Some(500_000));

    lim.apply_retry_after("gpt-5", None, Duration::from_millis(10), now());

    assert_eq!(
        lim.token_window_limit("gpt-5", None),
        Some(500_000),
        "apply_retry_after(None) must not clobber an existing token window",
    );
}

#[test]
fn a_limiter_knows_where_and_as_whom_it_asks() {
    let lim = limiter("abc", "https://api.openai.com//");
    assert_eq!(lim.base_url(), "https://api.openai.com");
    assert_eq!(
        lim.credential_fingerprint(),
        "ba7816bf8f01cfea414140de5dae2223b00361a396177a9cb410ff61f20015ad"
    );
}

#[test]
fn headers_report_windows_and_waits() {
    assert_eq!(snapshot_from_headers(&HeaderMap::new(), WALL), None);

    let mut headers = rate_limit_headers(" 7 ", "6m0s");
    headers.insert("retry-after-ms", "1500".parse().unwrap());
    headers.insert("retry-after", "9".parse().unwrap());
    let report = snapshot_from_headers(&headers, WALL).expect("a report");
    let requests = report.requests.expect("a request window");
    assert_eq!(requests.limit, 100);
    assert_eq!(requests.remaining, 7);
    assert_eq!(requests.reset_after, Some(Duration::from_secs(360)));
    assert_eq!(report.tokens, None);
    assert_eq!(report.retry_after, Some(Duration::from_millis(1_500)));

    let mut headers = HeaderMap::new();
    headers.insert("Retry-After", "Tue, 14 Nov 2023 22:13:25 GMT".parse().unwrap());
    let report = snapshot_from_headers(&headers, WALL).expect("a report");
    assert_eq!(report.retry_after, Some(Duration::from_secs(5)));
}
