//! The budgets of all models behind one credential, and the permits that
//! running requests hold.

use reqwest::header::{HeaderMap, HeaderValue};
use vstd::prelude::*;
use vstd::utf8::encode_utf8;

use crate::hash::{hex_encode, hex_text, sha256, sha256_digest};
use crate::headers::{first_text, header_text};
use crate::json::string_view;
use crate::keyed::Keyed;
use crate::openai_rate_limit_policy::{
    acquired, initial_token_window, initial_window, no_reservation, parse_openai_reset_duration,
    parse_retry_after_duration, reconcile_rate_limit_snapshot, reconciled, reset_millis,
    retry_after_nanos, rfc2822_millis, span_view, try_acquire_reservation, unknown_state,
    AcquireDecision, OpenAiRateLimitSnapshot, OpenAiRateLimitState, OpenAiReservation,
    OpenAiWindowSnapshot,
};
use crate::secret::SecretString;
use crate::text::{
    parse_unsigned, parsed_unsigned, trim, trim_end_any, trim_end_any_spec, trimmed,
};
use crate::time::{Duration, Moment, NANOS_PER_MILLI};

verus! {

pub const HEADER_LIMIT_REQUESTS: &'static str = "x-ratelimit-limit-requests";

pub const HEADER_LIMIT_TOKENS: &'static str = "x-ratelimit-limit-tokens";

pub const HEADER_REMAINING_REQUESTS: &'static str = "x-ratelimit-remaining-requests";

pub const HEADER_REMAINING_TOKENS: &'static str = "x-ratelimit-remaining-tokens";

pub const HEADER_RESET_REQUESTS: &'static str = "x-ratelimit-reset-requests";

pub const HEADER_RESET_TOKENS: &'static str = "x-ratelimit-reset-tokens";

pub const HEADER_RETRY_AFTER: &'static str = "retry-after";

pub const HEADER_RETRY_AFTER_MS: &'static str = "retry-after-ms";

/// Where and as whom requests are made.
#[derive(Debug)]
pub struct OpenAiRateLimitScope {
    pub base_url: String,
    pub credential_fingerprint: String,
}

/// The budgets of all models that one credential has asked for.
#[derive(Debug)]
pub struct OpenAiRateLimiter {
    scope: OpenAiRateLimitScope,
    entries: Keyed<OpenAiRateLimitState>,
}

/// The budget that one running request holds.
#[derive(Debug)]
pub struct OpenAiRateLimitPermit {
    pub model: String,
    pub reservation: OpenAiReservation,
    pub resolved: bool,
}

/// A permit, or the moment to ask again.
#[derive(Debug)]
pub enum Acquisition {
    Granted(OpenAiRateLimitPermit),
    WaitUntil(Moment),
}

/// What is known of a model that was never asked for: its token budget, where
/// that is configured.
pub open spec fn initial_state(tokens_per_minute: Option<u64>) -> OpenAiRateLimitState {
    OpenAiRateLimitState {
        tokens: match tokens_per_minute {
            Some(limit) => Some(initial_window(limit)),
            None => None,
        },
        ..unknown_state()
    }
}

/// What is known of a model, whether or not it was asked for before.
pub open spec fn known_state(
    states: Map<Seq<char>, OpenAiRateLimitState>,
    model: Seq<char>,
    tokens_per_minute: Option<u64>,
) -> OpenAiRateLimitState {
    if states.dom().contains(model) {
        states[model]
    } else {
        initial_state(tokens_per_minute)
    }
}

/// What a server's request to wait amounts to.
pub open spec fn wait_report(retry_after: Duration) -> OpenAiRateLimitSnapshot {
    OpenAiRateLimitSnapshot { requests: None, tokens: None, retry_after: Some(retry_after) }
}

impl View for OpenAiRateLimiter {
    type V = Map<Seq<char>, OpenAiRateLimitState>;

    closed spec fn view(&self) -> Map<Seq<char>, OpenAiRateLimitState> {
        self.entries@
    }
}

impl OpenAiRateLimiter {
    pub closed spec fn base_url_spec(&self) -> Seq<char> {
        self.scope.base_url@
    }

    pub closed spec fn fingerprint_spec(&self) -> Seq<char> {
        self.scope.credential_fingerprint@
    }

    /// A limiter that knows nothing yet.
    pub fn new(api_key: &SecretString, base_url: &str) -> (limiter: OpenAiRateLimiter)
        ensures
            limiter.base_url_spec() == trim_end_any_spec(base_url@, "/"@),
            limiter.fingerprint_spec() == hex_text(sha256_digest(encode_utf8(api_key@))),
            limiter@ == Map::<Seq<char>, OpenAiRateLimitState>::empty(),
    {
        OpenAiRateLimiter {
            scope: OpenAiRateLimitScope {
                base_url: trim_end_any(base_url, "/"),
                credential_fingerprint: fingerprint_api_key(api_key.expose_secret()),
            },
            entries: Keyed::new(),
        }
    }

    /// Where requests are made.
    pub fn base_url(&self) -> (base_url: &str)
        ensures
            base_url@ == self.base_url_spec(),
    {
        self.scope.base_url.as_str()
    }

    /// The credential's digest.
    pub fn credential_fingerprint(&self) -> (fingerprint: &str)
        ensures
            fingerprint@ == self.fingerprint_spec(),
    {
        self.scope.credential_fingerprint.as_str()
    }

    /// What is known of a model; one that is new is entered with its token
    /// budget.
    pub fn entry(&mut self, model: &str, tokens_per_minute: Option<u64>) -> (state:
        OpenAiRateLimitState)
        ensures
            state == known_state(old(self)@, model@, tokens_per_minute),
            final(self)@ == old(self)@.insert(model@, state),
            final(self).base_url_spec() == old(self).base_url_spec(),
            final(self).fingerprint_spec() == old(self).fingerprint_spec(),
    {
        match self.entries.get(model) {
            Some(state) => {
                assert(self@.insert(model@, self@[model@]) =~= self@);
                *state
            },
            None => {
                let state = OpenAiRateLimitState {
                    requests: None,
                    tokens: match tokens_per_minute {
                        Some(limit) => Some(initial_token_window(limit)),
                        None => None,
                    },
                    reserved: OpenAiReservation { requests: 0, tokens: 0 },
                    cooldown_until: None,
                };
                self.entries.insert(model, state);
                state
            },
        }
    }

    /// Asks for the budget of one request.
    pub fn try_acquire(
        &mut self,
        model: &str,
        reservation: OpenAiReservation,
        tokens_per_minute: Option<u64>,
        now: Moment,
    ) -> (acquisition: Acquisition)
        ensures
            ({
                let known = known_state(old(self)@, model@, tokens_per_minute);
                let (state, decision) = acquired(known, reservation, now);
                &&& final(self)@ == old(self)@.insert(model@, state)
                &&& match (acquisition, decision) {
                    (Acquisition::Granted(permit), AcquireDecision::Ready) => permit.model@
                        == model@ && permit.reservation == reservation && !permit.resolved,
                    (Acquisition::WaitUntil(at), AcquireDecision::WaitUntil(deadline)) => at
                        == deadline,
                    _ => false,
                }
            }),
            final(self).base_url_spec() == old(self).base_url_spec(),
            final(self).fingerprint_spec() == old(self).fingerprint_spec(),
    {
        let mut state = self.entry(model, tokens_per_minute);
        let decision = try_acquire_reservation(&mut state, reservation, now);
        self.entries.insert(model, state);
        assert(self@ =~= old(self)@.insert(model@, state));
        match decision {
            AcquireDecision::Ready => Acquisition::Granted(
                OpenAiRateLimitPermit { model: model.to_owned(), reservation, resolved: false },
            ),
            AcquireDecision::WaitUntil(deadline) => Acquisition::WaitUntil(deadline),
        }
    }

    /// Takes in a server's request to wait. A model that is new is entered with
    /// its token budget first.
    pub fn apply_retry_after(
        &mut self,
        model: &str,
        tokens_per_minute: Option<u64>,
        retry_after: Duration,
        now: Moment,
    )
        ensures
            final(self)@ == old(self)@.insert(
                model@,
                reconciled(
                    known_state(old(self)@, model@, tokens_per_minute),
                    no_reservation(),
                    Some(wait_report(retry_after)),
                    now,
                ),
            ),
            final(self).base_url_spec() == old(self).base_url_spec(),
            final(self).fingerprint_spec() == old(self).fingerprint_spec(),
    {
        let mut state = self.entry(model, tokens_per_minute);
        reconcile_rate_limit_snapshot(
            &mut state,
            OpenAiReservation { requests: 0, tokens: 0 },
            Some(
                OpenAiRateLimitSnapshot {
                    requests: None,
                    tokens: None,
                    retry_after: Some(retry_after),
                },
            ),
            now,
        );
        self.entries.insert(model, state);
        assert(self@ =~= old(self)@.insert(model@, state));
    }

    /// Until when the model is to be left alone.
    pub fn cooldown(&mut self, model: &str, tokens_per_minute: Option<u64>) -> (until: Option<
        Moment,
    >)
        ensures
            until == known_state(old(self)@, model@, tokens_per_minute).cooldown_until,
            final(self)@ == old(self)@.insert(
                model@,
                known_state(old(self)@, model@, tokens_per_minute),
            ),
            final(self).base_url_spec() == old(self).base_url_spec(),
            final(self).fingerprint_spec() == old(self).fingerprint_spec(),
    {
        self.entry(model, tokens_per_minute).cooldown_until
    }

    /// The model's token budget.
    pub fn token_window_limit(&mut self, model: &str, tokens_per_minute: Option<u64>) -> (limit:
        Option<u64>)
        ensures
            limit == match known_state(old(self)@, model@, tokens_per_minute).tokens {
                Some(window) => Some(window.limit),
                None => None,
            },
            final(self)@ == old(self)@.insert(
                model@,
                known_state(old(self)@, model@, tokens_per_minute),
            ),
            final(self).base_url_spec() == old(self).base_url_spec(),
            final(self).fingerprint_spec() == old(self).fingerprint_spec(),
    {
        match self.entry(model, tokens_per_minute).tokens {
            Some(window) => Some(window.limit),
            None => None,
        }
    }
}

fn fingerprint_api_key(api_key: &str) -> (fingerprint: String)
    ensures
        fingerprint@ == hex_text(sha256_digest(encode_utf8(api_key@))),
{
    let digest = sha256(api_key.as_bytes());
    hex_encode(digest.as_slice())
}

/// The text of a header field with something in it but white space.
pub open spec fn field_text(headers: HeaderMap<HeaderValue>, name: Seq<char>) -> Option<Seq<char>> {
    match first_text(headers, name) {
        Some(text) => if trimmed(text).len() > 0 {
            Some(trimmed(text))
        } else {
            None
        },
        None => None,
    }
}

pub open spec fn field_number(headers: HeaderMap<HeaderValue>, name: Seq<char>) -> Option<nat> {
    match field_text(headers, name) {
        Some(text) => parsed_unsigned(text, u64::MAX as nat),
        None => None,
    }
}

/// The span until a window's reset, in nanoseconds.
pub open spec fn field_reset(headers: HeaderMap<HeaderValue>, name: Seq<char>) -> Option<nat> {
    match field_text(headers, name) {
        Some(text) => match reset_millis(text) {
            Some(millis) => Some(millis * NANOS_PER_MILLI as nat),
            None => None,
        },
        None => None,
    }
}

/// A report of one window: limit and remainder have to be there.
pub open spec fn is_window_report(
    report: Option<OpenAiWindowSnapshot>,
    headers: HeaderMap<HeaderValue>,
    limit: Seq<char>,
    remaining: Seq<char>,
    reset: Seq<char>,
) -> bool {
    match (field_number(headers, limit), field_number(headers, remaining)) {
        (Some(limit), Some(remaining)) => match report {
            Some(report) => report.limit == limit && report.remaining == remaining && span_view(
                report.reset_after,
            ) == field_reset(headers, reset),
            None => false,
        },
        _ => report is None,
    }
}

/// The wait that the fields ask for: in milliseconds, or else in seconds or by
/// a date.
pub open spec fn field_wait(headers: HeaderMap<HeaderValue>, wall_nanos: u128) -> Option<nat> {
    match field_number(headers, HEADER_RETRY_AFTER_MS@) {
        Some(millis) => Some(millis * NANOS_PER_MILLI as nat),
        None => match field_text(headers, HEADER_RETRY_AFTER@) {
            Some(text) => if trimmed(text).len() == 0 {
                None
            } else {
                retry_after_nanos(trimmed(text), rfc2822_millis(trimmed(text)), wall_nanos)
            },
            None => None,
        },
    }
}

/// A report holds exactly what the fields say, and there is one only where they
/// say something.
pub open spec fn is_report(
    report: Option<OpenAiRateLimitSnapshot>,
    headers: HeaderMap<HeaderValue>,
    wall_nanos: u128,
) -> bool {
    let (requests, tokens, wait) = match report {
        Some(report) => (report.requests, report.tokens, report.retry_after),
        None => (None, None, None),
    };
    &&& is_window_report(
        requests,
        headers,
        HEADER_LIMIT_REQUESTS@,
        HEADER_REMAINING_REQUESTS@,
        HEADER_RESET_REQUESTS@,
    )
    &&& is_window_report(
        tokens,
        headers,
        HEADER_LIMIT_TOKENS@,
        HEADER_REMAINING_TOKENS@,
        HEADER_RESET_TOKENS@,
    )
    &&& span_view(wait) == field_wait(headers, wall_nanos)
    &&& report is Some ==> (requests is Some || tokens is Some || wait is Some)
}

/// Replies whose fields are to be believed: successes, and the refusal of too
/// many requests. Other refusals may have come before the budget was counted,
/// and a failing server's fields may be anyone's.
pub open spec fn reports_budget(status: u16) -> bool {
    200 <= status < 300 || status == 429
}

fn header_string(headers: &HeaderMap<HeaderValue>, name: &str) -> (text: Option<String>)
    ensures
        string_view(text) == field_text(*headers, name@),
{
    match header_text(headers, name) {
        Some(text) => {
            let kept = trim(&text);
            if kept.as_str().is_empty() {
                None
            } else {
                Some(kept)
            }
        },
        None => None,
    }
}

fn header_u64(headers: &HeaderMap<HeaderValue>, name: &str) -> (number: Option<u64>)
    ensures
        match number {
            Some(number) => field_number(*headers, name@) == Some(number as nat),
            None => field_number(*headers, name@) is None,
        },
{
    match header_string(headers, name) {
        Some(text) => parse_unsigned(&text, u64::MAX),
        None => None,
    }
}

fn parse_window_snapshot(
    headers: &HeaderMap<HeaderValue>,
    limit_header: &str,
    remaining_header: &str,
    reset_header: &str,
) -> (report: Option<OpenAiWindowSnapshot>)
    ensures
        is_window_report(report, *headers, limit_header@, remaining_header@, reset_header@),
{
    match (header_u64(headers, limit_header), header_u64(headers, remaining_header)) {
        (Some(limit), Some(remaining)) => {
            let reset_after = match header_string(headers, reset_header) {
                Some(text) => parse_openai_reset_duration(&text),
                None => None,
            };
            Some(OpenAiWindowSnapshot { limit, remaining, reset_after })
        },
        _ => None,
    }
}

fn parse_retry_after(headers: &HeaderMap<HeaderValue>, wall_nanos: u128) -> (wait: Option<Duration>)
    ensures
        span_view(wait) == field_wait(*headers, wall_nanos),
{
    if let Some(millis) = header_u64(headers, HEADER_RETRY_AFTER_MS) {
        return Some(Duration::from_millis(millis));
    }
    match header_string(headers, HEADER_RETRY_AFTER) {
        Some(text) => parse_retry_after_duration(&text, wall_nanos),
        None => None,
    }
}

/// What a reply's header fields report, given the time of day in nanoseconds
/// since 1970.
pub fn snapshot_from_headers(headers: &HeaderMap<HeaderValue>, wall_nanos: u128) -> (report: Option<
    OpenAiRateLimitSnapshot,
>)
    ensures
        is_report(report, *headers, wall_nanos),
{
    let requests = parse_window_snapshot(
        headers,
        HEADER_LIMIT_REQUESTS,
        HEADER_REMAINING_REQUESTS,
        HEADER_RESET_REQUESTS,
    );
    let tokens = parse_window_snapshot(
        headers,
        HEADER_LIMIT_TOKENS,
        HEADER_REMAINING_TOKENS,
        HEADER_RESET_TOKENS,
    );
    let retry_after = parse_retry_after(headers, wall_nanos);
    if requests.is_some() || tokens.is_some() || retry_after.is_some() {
        Some(OpenAiRateLimitSnapshot { requests, tokens, retry_after })
    } else {
        None
    }
}

impl OpenAiRateLimitPermit {
    /// The permit is spent.
    pub open spec fn spent(self, before: OpenAiRateLimitPermit) -> bool {
        &&& self.resolved
        &&& self.model == before.model
        &&& self.reservation == before.reservation
    }

    /// Gives the budget back, once, and takes in what the server reported.
    pub fn resolve(
        &mut self,
        limiter: &mut OpenAiRateLimiter,
        snapshot: Option<OpenAiRateLimitSnapshot>,
        now: Moment,
    )
        requires
            old(limiter)@.dom().contains(old(self).model@),
        ensures
            final(self).spent(*old(self)),
            final(limiter)@ == if old(self).resolved {
                old(limiter)@
            } else {
                old(limiter)@.insert(
                    old(self).model@,
                    reconciled(
                        old(limiter)@[old(self).model@],
                        old(self).reservation,
                        snapshot,
                        now,
                    ),
                )
            },
            final(limiter).base_url_spec() == old(limiter).base_url_spec(),
            final(limiter).fingerprint_spec() == old(limiter).fingerprint_spec(),
    {
        if self.resolved {
            return ;
        }
        let mut state = limiter.entry(&self.model, None);
        reconcile_rate_limit_snapshot(&mut state, self.reservation, snapshot, now);
        limiter.entries.insert(&self.model, state);
        assert(limiter@ =~= old(limiter)@.insert(self.model@, state));
        self.resolved = true;
    }

    /// Gives the budget back, once; what the reply's fields report is taken in
    /// where its status lets them be believed.
    pub fn update_from_headers(
        &mut self,
        limiter: &mut OpenAiRateLimiter,
        headers: &HeaderMap<HeaderValue>,
        status: u16,
        now: Moment,
        wall_nanos: u128,
    )
        requires
            old(limiter)@.dom().contains(old(self).model@),
        ensures
            final(self).spent(*old(self)),
            old(self).resolved ==> final(limiter)@ == old(limiter)@,
            !old(self).resolved ==> exists|report: Option<OpenAiRateLimitSnapshot>|
                {
                    &&& if reports_budget(status) {
                        is_report(report, *headers, wall_nanos)
                    } else {
                        report is None
                    }
                    &&& final(limiter)@ == old(limiter)@.insert(
                        old(self).model@,
                        #[trigger] reconciled(
                            old(limiter)@[old(self).model@],
                            old(self).reservation,
                            report,
                            now,
                        ),
                    )
                },
            final(limiter).base_url_spec() == old(limiter).base_url_spec(),
            final(limiter).fingerprint_spec() == old(limiter).fingerprint_spec(),
    {
        let snapshot = if (200 <= status && status < 300) || status == 429 {
            snapshot_from_headers(headers, wall_nanos)
        } else {
            None
        };
        self.resolve(limiter, snapshot, now);
        assert(!old(self).resolved ==> limiter@ == old(limiter)@.insert(
            old(self).model@,
            reconciled(
                old(limiter)@[old(self).model@],
                old(self).reservation,
                snapshot,
                now,
            ),
        ));
    }

    /// Gives the budget back, once.
    pub fn release_without_headers(&mut self, limiter: &mut OpenAiRateLimiter, now: Moment)
        requires
            old(limiter)@.dom().contains(old(self).model@),
        ensures
            final(self).spent(*old(self)),
            final(limiter)@ == if old(self).resolved {
                old(limiter)@
            } else {
                old(limiter)@.insert(
                    old(self).model@,
                    reconciled(old(limiter)@[old(self).model@], old(self).reservation, None, now),
                )
            },
            final(limiter).base_url_spec() == old(limiter).base_url_spec(),
            final(limiter).fingerprint_spec() == old(limiter).fingerprint_spec(),
    {
        self.resolve(limiter, None, now);
    }
}

/// A report is fixed by the header fields and the time of day.
pub proof fn law_report_is_unique(
    left: Option<OpenAiRateLimitSnapshot>,
    right: Option<OpenAiRateLimitSnapshot>,
    headers: HeaderMap<HeaderValue>,
    wall_nanos: u128,
)
    requires
        is_report(left, headers, wall_nanos),
        is_report(right, headers, wall_nanos),
    ensures
        left == right,
{
}

/// Whatever the reply's status, the budget that a permit held is given back: a
/// model that nobody else was using is not in use afterwards.
pub proof fn law_every_reply_releases(
    state: OpenAiRateLimitState,
    reservation: OpenAiReservation,
    report: Option<OpenAiRateLimitSnapshot>,
    now: Moment,
)
    requires
        state.reserved == reservation,
    ensures
        reconciled(state, reservation, report, now).reserved == no_reservation(),
{
}

/// A wait without a configured token budget keeps the budget that is known.
pub proof fn law_wait_keeps_token_budget(
    states: Map<Seq<char>, OpenAiRateLimitState>,
    model: Seq<char>,
    tokens_per_minute: Option<u64>,
    retry_after: Duration,
    now: Moment,
)
    requires
        known_state(states, model, tokens_per_minute).tokens is Some,
    ensures
        ({
            let known = known_state(states, model, tokens_per_minute);
            let after = reconciled(known, no_reservation(), Some(wait_report(retry_after)), now);
            after.tokens is Some && after.tokens->0.limit == known.tokens->0.limit
                && after.cooldown_until is Some && after.cooldown_until->0@ >= now.after(
                retry_after,
            )@
        }),
{
}

/// A header is read without the white space round it, whatever the case of its name, and
/// one that holds nothing else is as good as missing.
pub proof fn law_fields_are_read(headers: HeaderMap<HeaderValue>, name: Seq<char>)
    ensures
        first_text(headers, name) is None ==> field_text(headers, name) is None,
        first_text(headers, name) is Some ==> {
            let text = trimmed(first_text(headers, name)->0);
            &&& text.len() == 0 ==> field_text(headers, name) is None && field_number(headers, name)
                is None && field_reset(headers, name) is None
            &&& text.len() > 0 ==> field_text(headers, name) == Some(text)
            &&& text.len() > 0 ==> field_number(headers, name) == parsed_unsigned(
                text,
                18_446_744_073_709_551_615,
            )
            &&& text.len() > 0 && reset_millis(text) is Some ==> field_reset(headers, name) == Some(
                reset_millis(text)->0 * 1_000_000,
            )
            &&& text.len() > 0 && reset_millis(text) is None ==> field_reset(headers, name) is None
        },
{
}

/// The budget for requests is read from the headers on requests, that for tokens from
/// those on tokens. A window is known where both its limit and what remains of it are.
pub proof fn law_windows_are_read_from_their_headers(
    report: Option<OpenAiRateLimitSnapshot>,
    headers: HeaderMap<HeaderValue>,
    wall_nanos: u128,
)
    requires
        is_report(report, headers, wall_nanos),
    ensures
        ({
            let limit = field_number(headers, "x-ratelimit-limit-requests"@);
            let remaining = field_number(headers, "x-ratelimit-remaining-requests"@);
            &&& limit is Some && remaining is Some ==> {
                &&& report is Some
                &&& report->0.requests is Some
                &&& report->0.requests->0.limit == limit->0
                &&& report->0.requests->0.remaining == remaining->0
                &&& span_view(report->0.requests->0.reset_after) == field_reset(
                    headers,
                    "x-ratelimit-reset-requests"@,
                )
            }
            &&& report is Some && (limit is None || remaining is None) ==> report->0.requests is None
        }),
        ({
            let limit = field_number(headers, "x-ratelimit-limit-tokens"@);
            let remaining = field_number(headers, "x-ratelimit-remaining-tokens"@);
            &&& limit is Some && remaining is Some ==> {
                &&& report is Some
                &&& report->0.tokens is Some
                &&& report->0.tokens->0.limit == limit->0
                &&& report->0.tokens->0.remaining == remaining->0
                &&& span_view(report->0.tokens->0.reset_after) == field_reset(
                    headers,
                    "x-ratelimit-reset-tokens"@,
                )
            }
            &&& report is Some && (limit is None || remaining is None) ==> report->0.tokens is None
        }),
{
}

/// A wait in milliseconds goes before one in seconds or up to a date.
pub proof fn law_wait_is_read_from_its_headers(
    report: Option<OpenAiRateLimitSnapshot>,
    headers: HeaderMap<HeaderValue>,
    wall_nanos: u128,
)
    requires
        is_report(report, headers, wall_nanos),
    ensures
        ({
            let millis = field_number(headers, "retry-after-ms"@);
            let text = field_text(headers, "retry-after"@);
            let wait = if report is Some {
                span_view(report->0.retry_after)
            } else {
                None
            };
            &&& millis is Some ==> wait == Some(millis->0 * 1_000_000)
            &&& millis is None && text is None ==> wait is None
            &&& millis is None && text is Some ==> wait == retry_after_nanos(
                text->0,
                rfc2822_millis(text->0),
                wall_nanos,
            )
        }),
{
    if field_text(headers, "retry-after"@) is Some {
        crate::text::law_trimming_drops_white_space(first_text(headers, "retry-after"@)->0);
    }
}

/// A reply reports the budget where the request was done, or refused for the budget.
pub proof fn law_replies_that_report(status: u16)
    ensures
        reports_budget(status) <==> (200 <= status <= 299 || status == 429),
{
}

/// Of a model that was never asked nothing is known but its budget for tokens, which is
/// whole; of another, what was known stays.
pub proof fn law_unknown_model_has_its_whole_budget(
    states: Map<Seq<char>, OpenAiRateLimitState>,
    model: Seq<char>,
    tokens_per_minute: Option<u64>,
)
    ensures
        states.dom().contains(model) ==> known_state(states, model, tokens_per_minute)
            == states[model],
        !states.dom().contains(model) ==> {
            let known = known_state(states, model, tokens_per_minute);
            &&& known.requests is None
            &&& known.cooldown_until is None
            &&& known.reserved.requests == 0 && known.reserved.tokens == 0
            &&& tokens_per_minute is None ==> known.tokens is None
            &&& tokens_per_minute is Some ==> known.tokens is Some && known.tokens->0.limit
                == tokens_per_minute->0 && known.tokens->0.remaining == tokens_per_minute->0
                && known.tokens->0.reset_at is None
        },
{
}

} // verus!
