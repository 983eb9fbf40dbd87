//! How request and token budgets are spent, waited for and brought in line with
//! what the server reports.

use vstd::prelude::*;

use crate::text::{
    all_digits, digits_value, is_digit, parse_unsigned, parsed_unsigned, read_digits, to_chars,
    trim, trimmed,
};
use crate::time::{min_nat, Duration, Moment, NANOS_PER_MILLI, NANOS_PER_SEC};

verus! {

/// Two reset times this close belong to the same window.
pub const SAME_WINDOW_TOLERANCE_NANOS: u128 = 1_500_000_000;

/// How long to wait for a window whose reset time is unknown.
pub const UNKNOWN_RESET_FALLBACK_NANOS: u128 = 1_000_000_000;

/// Budget that a request takes up while it runs.
#[derive(Debug, Clone, Copy, PartialEq, Eq, Structural)]
pub struct OpenAiReservation {
    pub requests: u64,
    pub tokens: u64,
}

/// What the server reports of one window.
#[derive(Debug, Clone, Copy, PartialEq, Eq, Structural)]
pub struct OpenAiWindowSnapshot {
    pub limit: u64,
    pub remaining: u64,
    pub reset_after: Option<Duration>,
}

/// What the server reports of a model's budgets.
#[derive(Debug, Clone, Copy, PartialEq, Eq, Structural)]
pub struct OpenAiRateLimitSnapshot {
    pub requests: Option<OpenAiWindowSnapshot>,
    pub tokens: Option<OpenAiWindowSnapshot>,
    pub retry_after: Option<Duration>,
}

/// One budget window as it is known.
#[derive(Debug, Clone, Copy, PartialEq, Eq, Structural)]
pub struct OpenAiWindowState {
    pub limit: u64,
    pub remaining: u64,
    pub reset_at: Option<Moment>,
}

/// A model's budgets as they are known, and what running requests have taken.
#[derive(Debug, Clone, Copy, PartialEq, Eq, Structural)]
pub struct OpenAiRateLimitState {
    pub requests: Option<OpenAiWindowState>,
    pub tokens: Option<OpenAiWindowState>,
    pub reserved: OpenAiReservation,
    pub cooldown_until: Option<Moment>,
}

#[derive(Debug, Clone, Copy, PartialEq, Eq, Structural)]
pub enum AcquireDecision {
    Ready,
    WaitUntil(Moment),
}

pub open spec fn no_reservation() -> OpenAiReservation {
    OpenAiReservation { requests: 0, tokens: 0 }
}

impl Default for OpenAiReservation {
    fn default() -> (reservation: OpenAiReservation)
        ensures
            reservation == no_reservation(),
    {
        OpenAiReservation { requests: 0, tokens: 0 }
    }
}

pub open spec fn empty_snapshot() -> OpenAiRateLimitSnapshot {
    OpenAiRateLimitSnapshot { requests: None, tokens: None, retry_after: None }
}

impl Default for OpenAiRateLimitSnapshot {
    fn default() -> (snapshot: OpenAiRateLimitSnapshot)
        ensures
            snapshot == empty_snapshot(),
    {
        OpenAiRateLimitSnapshot { requests: None, tokens: None, retry_after: None }
    }
}

pub open spec fn unknown_state() -> OpenAiRateLimitState {
    OpenAiRateLimitState {
        requests: None,
        tokens: None,
        reserved: no_reservation(),
        cooldown_until: None,
    }
}

impl Default for OpenAiRateLimitState {
    fn default() -> (state: OpenAiRateLimitState)
        ensures
            state == unknown_state(),
    {
        OpenAiRateLimitState {
            requests: None,
            tokens: None,
            reserved: OpenAiReservation::default(),
            cooldown_until: None,
        }
    }
}

pub open spec fn sat_add(a: u64, b: u64) -> u64 {
    min_nat((a + b) as nat, u64::MAX as nat) as u64
}

pub open spec fn sat_sub(a: u64, b: u64) -> u64 {
    if a >= b {
        (a - b) as u64
    } else {
        0
    }
}

/// The window that a model starts with where its tokens per minute are known.
pub open spec fn initial_window(tokens_per_minute: u64) -> OpenAiWindowState {
    OpenAiWindowState {
        limit: tokens_per_minute,
        remaining: tokens_per_minute,
        reset_at: None,
    }
}

pub fn initial_token_window(tokens_per_minute: u64) -> (window: OpenAiWindowState)
    ensures
        window == initial_window(tokens_per_minute),
{
    OpenAiWindowState {
        limit: tokens_per_minute,
        remaining: tokens_per_minute,
        reset_at: None,
    }
}

/// What a request is expected to cost: one request, a token for every four
/// bytes begun, and all the output it may produce.
pub fn estimate_openai_request_cost(
    request_json_bytes: usize,
    max_output_tokens: Option<u32>,
) -> (cost: OpenAiReservation)
    ensures
        cost.requests == 1,
        cost.tokens == sat_add(
            (sat_add(request_json_bytes as u64, 3) / 4) as u64,
            match max_output_tokens {
                Some(tokens) => tokens as u64,
                None => 0,
            },
        ),
{
    let input_tokens: u64 = (request_json_bytes as u64).saturating_add(3) / 4;
    let output_tokens: u64 = match max_output_tokens {
        Some(tokens) => tokens as u64,
        None => 0,
    };
    OpenAiReservation { requests: 1, tokens: input_tokens.saturating_add(output_tokens) }
}

// ---------------------------------------------------------------------------
// Windows

/// A window whose reset time has come is full again.
pub open spec fn refreshed_window(window: Option<OpenAiWindowState>, now: Moment) -> Option<
    OpenAiWindowState,
> {
    match window {
        Some(window) => match window.reset_at {
            Some(reset_at) if reset_at@ <= now@ => Some(
                OpenAiWindowState { limit: window.limit, remaining: window.limit, reset_at: None },
            ),
            _ => Some(window),
        },
        None => None,
    }
}

pub open spec fn refreshed(state: OpenAiRateLimitState, now: Moment) -> OpenAiRateLimitState {
    OpenAiRateLimitState {
        requests: refreshed_window(state.requests, now),
        tokens: refreshed_window(state.tokens, now),
        reserved: state.reserved,
        cooldown_until: match state.cooldown_until {
            Some(deadline) if deadline@ <= now@ => None,
            other => other,
        },
    }
}

/// When a window that lacks the budget is worth another look.
pub open spec fn window_deadline(
    window: Option<OpenAiWindowState>,
    required: u64,
    now: Moment,
) -> Option<Moment> {
    match window {
        Some(window) if window.remaining < required => match window.reset_at {
            Some(reset_at) => Some(reset_at),
            None => Some(now.after(Duration { nanos: UNKNOWN_RESET_FALLBACK_NANOS })),
        },
        _ => None,
    }
}

pub open spec fn earlier(a: Option<Moment>, b: Option<Moment>) -> Option<Moment> {
    match (a, b) {
        (Some(a), Some(b)) => if b@ < a@ {
            Some(b)
        } else {
            Some(a)
        },
        (Some(a), None) => Some(a),
        (None, b) => b,
    }
}

/// What is reserved once one more reservation is made.
pub open spec fn with_reservation(
    reserved: OpenAiReservation,
    more: OpenAiReservation,
) -> OpenAiReservation {
    OpenAiReservation {
        requests: sat_add(reserved.requests, more.requests),
        tokens: sat_add(reserved.tokens, more.tokens),
    }
}

pub open spec fn without_reservation(
    reserved: OpenAiReservation,
    less: OpenAiReservation,
) -> OpenAiReservation {
    OpenAiReservation {
        requests: sat_sub(reserved.requests, less.requests),
        tokens: sat_sub(reserved.tokens, less.tokens),
    }
}

/// The first moment that something in the way may be gone; nothing is in the
/// way where there is none.
pub open spec fn next_deadline(
    state: OpenAiRateLimitState,
    reservation: OpenAiReservation,
    now: Moment,
) -> Option<Moment> {
    let required = with_reservation(state.reserved, reservation);
    earlier(
        earlier(
            state.cooldown_until,
            window_deadline(state.requests, required.requests, now),
        ),
        window_deadline(state.tokens, required.tokens, now),
    )
}

/// The outcome of asking for a reservation.
pub open spec fn acquired(
    state: OpenAiRateLimitState,
    reservation: OpenAiReservation,
    now: Moment,
) -> (OpenAiRateLimitState, AcquireDecision) {
    let state = refreshed(state, now);
    match next_deadline(state, reservation, now) {
        Some(deadline) => (state, AcquireDecision::WaitUntil(deadline)),
        None => (
            OpenAiRateLimitState {
                reserved: with_reservation(state.reserved, reservation),
                ..state
            },
            AcquireDecision::Ready,
        ),
    }
}

pub open spec fn close_together(a: Moment, b: Moment) -> bool {
    -(SAME_WINDOW_TOLERANCE_NANOS as int) <= a@ - b@ <= SAME_WINDOW_TOLERANCE_NANOS
}

pub open spec fn reported_window(snapshot: OpenAiWindowSnapshot, now: Moment) -> OpenAiWindowState {
    OpenAiWindowState {
        limit: snapshot.limit,
        remaining: if snapshot.remaining <= snapshot.limit {
            snapshot.remaining
        } else {
            snapshot.limit
        },
        reset_at: match snapshot.reset_after {
            Some(span) => Some(now.after(span)),
            None => None,
        },
    }
}

pub open spec fn lower(a: u64, b: u64) -> u64 {
    if a <= b {
        a
    } else {
        b
    }
}

/// What is known of a window once a report has come in. A report on the same
/// window can only lower what remains; one on a later window replaces it; one
/// on an earlier window is out of date.
pub open spec fn reconciled_window(
    window: Option<OpenAiWindowState>,
    snapshot: OpenAiWindowSnapshot,
    now: Moment,
) -> OpenAiWindowState {
    let incoming = reported_window(snapshot, now);
    match refreshed_window(window, now) {
        None => incoming,
        Some(current) => match (current.reset_at, incoming.reset_at) {
            (None, _) => incoming,
            (Some(_), None) => OpenAiWindowState {
                limit: incoming.limit,
                remaining: lower(current.remaining, incoming.remaining),
                reset_at: current.reset_at,
            },
            (Some(known), Some(reported)) => if close_together(known, reported) {
                OpenAiWindowState {
                    limit: incoming.limit,
                    remaining: lower(current.remaining, incoming.remaining),
                    reset_at: if known@ >= reported@ {
                        Some(known)
                    } else {
                        Some(reported)
                    },
                }
            } else if reported@ > known@ {
                incoming
            } else {
                current
            },
        },
    }
}

pub open spec fn later(current: Option<Moment>, other: Moment) -> Moment {
    match current {
        Some(current) if current@ > other@ => current,
        _ => other,
    }
}

/// What is known once a request is over: its reservation is given back, and the
/// server's report, if there is one, is taken in.
pub open spec fn reconciled(
    state: OpenAiRateLimitState,
    reservation: OpenAiReservation,
    snapshot: Option<OpenAiRateLimitSnapshot>,
    now: Moment,
) -> OpenAiRateLimitState {
    let fresh = refreshed(state, now);
    let released = OpenAiRateLimitState {
        reserved: without_reservation(fresh.reserved, reservation),
        ..fresh
    };
    match snapshot {
        None => released,
        Some(snapshot) => OpenAiRateLimitState {
            requests: match snapshot.requests {
                Some(report) => Some(reconciled_window(released.requests, report, now)),
                None => released.requests,
            },
            tokens: match snapshot.tokens {
                Some(report) => Some(reconciled_window(released.tokens, report, now)),
                None => released.tokens,
            },
            cooldown_until: match snapshot.retry_after {
                Some(span) => Some(later(released.cooldown_until, now.after(span))),
                None => released.cooldown_until,
            },
            reserved: released.reserved,
        },
    }
}

fn refresh_window(window: Option<OpenAiWindowState>, now: Moment) -> (fresh: Option<
    OpenAiWindowState,
>)
    ensures
        fresh == refreshed_window(window, now),
{
    match window {
        Some(window) => match window.reset_at {
            Some(reset_at) => if reset_at.nanos <= now.nanos {
                Some(
                    OpenAiWindowState {
                        limit: window.limit,
                        remaining: window.limit,
                        reset_at: None,
                    },
                )
            } else {
                Some(window)
            },
            None => Some(window),
        },
        None => None,
    }
}

fn refresh_state(state: &mut OpenAiRateLimitState, now: Moment)
    ensures
        *final(state) == refreshed(*old(state), now),
{
    state.requests = refresh_window(state.requests, now);
    state.tokens = refresh_window(state.tokens, now);
    if let Some(deadline) = state.cooldown_until {
        if deadline.nanos <= now.nanos {
            state.cooldown_until = None;
        }
    }
}

fn window_ready_deadline(
    window: Option<OpenAiWindowState>,
    required_reserved: u64,
    now: Moment,
) -> (deadline: Option<Moment>)
    ensures
        deadline == window_deadline(window, required_reserved, now),
{
    match window {
        Some(window) => {
            if window.remaining >= required_reserved {
                return None;
            }
            match window.reset_at {
                Some(reset_at) => Some(reset_at),
                None => Some(now.plus(Duration { nanos: UNKNOWN_RESET_FALLBACK_NANOS })),
            }
        },
        None => None,
    }
}

fn earlier_of(a: Option<Moment>, b: Option<Moment>) -> (m: Option<Moment>)
    ensures
        m == earlier(a, b),
{
    match (a, b) {
        (Some(a), Some(b)) => if b.nanos < a.nanos {
            Some(b)
        } else {
            Some(a)
        },
        (Some(a), None) => Some(a),
        (None, b) => b,
    }
}

/// Takes the budget for one request, or says when to ask again.
pub fn try_acquire_reservation(
    state: &mut OpenAiRateLimitState,
    reservation: OpenAiReservation,
    now: Moment,
) -> (decision: AcquireDecision)
    ensures
        (*final(state), decision) == acquired(*old(state), reservation, now),
{
    refresh_state(state, now);
    let required_requests: u64 = state.reserved.requests.saturating_add(reservation.requests);
    let required_tokens: u64 = state.reserved.tokens.saturating_add(reservation.tokens);
    let deadline = earlier_of(
        earlier_of(
            state.cooldown_until,
            window_ready_deadline(state.requests, required_requests, now),
        ),
        window_ready_deadline(state.tokens, required_tokens, now),
    );
    match deadline {
        Some(deadline) => AcquireDecision::WaitUntil(deadline),
        None => {
            state.reserved = OpenAiReservation {
                requests: required_requests,
                tokens: required_tokens,
            };
            AcquireDecision::Ready
        },
    }
}

fn same_window(left: Moment, right: Moment) -> (same: bool)
    ensures
        same == close_together(left, right),
{
    if left.nanos >= right.nanos {
        left.nanos - right.nanos <= SAME_WINDOW_TOLERANCE_NANOS
    } else {
        right.nanos - left.nanos <= SAME_WINDOW_TOLERANCE_NANOS
    }
}

fn apply_window_snapshot(
    slot: Option<OpenAiWindowState>,
    snapshot: OpenAiWindowSnapshot,
    now: Moment,
) -> (window: OpenAiWindowState)
    ensures
        window == reconciled_window(slot, snapshot, now),
{
    let incoming = OpenAiWindowState {
        limit: snapshot.limit,
        remaining: if snapshot.remaining <= snapshot.limit {
            snapshot.remaining
        } else {
            snapshot.limit
        },
        reset_at: match snapshot.reset_after {
            Some(span) => Some(now.plus(span)),
            None => None,
        },
    };
    let current = match refresh_window(slot, now) {
        Some(current) => current,
        None => {
            return incoming;
        },
    };
    let remaining: u64 = if current.remaining <= incoming.remaining {
        current.remaining
    } else {
        incoming.remaining
    };
    match (current.reset_at, incoming.reset_at) {
        (None, _) => incoming,
        (Some(_), None) => OpenAiWindowState {
            limit: incoming.limit,
            remaining,
            reset_at: current.reset_at,
        },
        (Some(known), Some(reported)) => if same_window(known, reported) {
            OpenAiWindowState {
                limit: incoming.limit,
                remaining,
                reset_at: if known.nanos >= reported.nanos {
                    Some(known)
                } else {
                    Some(reported)
                },
            }
        } else if reported.nanos > known.nanos {
            incoming
        } else {
            current
        },
    }
}

/// Gives a reservation back and takes in what the server reported.
pub fn reconcile_rate_limit_snapshot(
    state: &mut OpenAiRateLimitState,
    reservation: OpenAiReservation,
    snapshot: Option<OpenAiRateLimitSnapshot>,
    now: Moment,
)
    ensures
        *final(state) == reconciled(*old(state), reservation, snapshot, now),
{
    refresh_state(state, now);
    state.reserved = OpenAiReservation {
        requests: state.reserved.requests.saturating_sub(reservation.requests),
        tokens: state.reserved.tokens.saturating_sub(reservation.tokens),
    };
    let snapshot = match snapshot {
        Some(snapshot) => snapshot,
        None => {
            return ;
        },
    };
    if let Some(retry_after) = snapshot.retry_after {
        let retry_at = now.plus(retry_after);
        state.cooldown_until = match state.cooldown_until {
            Some(current) => if current.nanos > retry_at.nanos {
                Some(current)
            } else {
                Some(retry_at)
            },
            None => Some(retry_at),
        };
    }
    if let Some(window) = snapshot.requests {
        state.requests = Some(apply_window_snapshot(state.requests, window, now));
    }
    if let Some(window) = snapshot.tokens {
        state.tokens = Some(apply_window_snapshot(state.tokens, window, now));
    }
}

// ---------------------------------------------------------------------------
// Laws

/// The window can pay for what is reserved.
pub open spec fn covers(window: Option<OpenAiWindowState>, reserved: u64) -> bool {
    match window {
        Some(window) => reserved <= window.remaining,
        None => true,
    }
}

/// A reservation that is granted is covered: every known window can pay for all
/// that is then reserved, and no cooldown is running.
pub proof fn law_granted_is_covered(
    state: OpenAiRateLimitState,
    reservation: OpenAiReservation,
    now: Moment,
)
    requires
        acquired(state, reservation, now).1 == AcquireDecision::Ready,
    ensures
        ({
            let after = acquired(state, reservation, now).0;
            &&& covers(after.requests, after.reserved.requests)
            &&& covers(after.tokens, after.reserved.tokens)
            &&& after.cooldown_until is None
            &&& after.reserved == with_reservation(state.reserved, reservation)
        }),
{
}

/// A request that has to wait takes nothing, and is told of a moment that is
/// still to come.
pub proof fn law_waiting_takes_nothing(
    state: OpenAiRateLimitState,
    reservation: OpenAiReservation,
    now: Moment,
)
    requires
        acquired(state, reservation, now).1 is WaitUntil,
        now@ < u128::MAX,
    ensures
        acquired(state, reservation, now).0.reserved == state.reserved,
        acquired(state, reservation, now).1->0@ > now@,
{
    let fresh = refreshed(state, now);
    let required = with_reservation(fresh.reserved, reservation);
    assert(match window_deadline(fresh.requests, required.requests, now) {
        Some(deadline) => deadline@ > now@,
        None => true,
    });
    assert(match window_deadline(fresh.tokens, required.tokens, now) {
        Some(deadline) => deadline@ > now@,
        None => true,
    });
}

/// A reservation that was granted and is given back without a report leaves
/// what is reserved as it was, unless the counters had run full.
pub proof fn law_release_undoes_acquire(
    state: OpenAiRateLimitState,
    reservation: OpenAiReservation,
    now: Moment,
    then: Moment,
)
    requires
        acquired(state, reservation, now).1 == AcquireDecision::Ready,
        state.reserved.requests + reservation.requests <= u64::MAX,
        state.reserved.tokens + reservation.tokens <= u64::MAX,
    ensures
        reconciled(acquired(state, reservation, now).0, reservation, None, then).reserved
            == state.reserved,
{
}

/// No window has more left than its limit.
pub open spec fn within_limits(state: OpenAiRateLimitState) -> bool {
    &&& match state.requests {
        Some(window) => window.remaining <= window.limit,
        None => true,
    }
    &&& match state.tokens {
        Some(window) => window.remaining <= window.limit,
        None => true,
    }
}

/// Windows stay within their limits, whatever is asked for and reported.
pub proof fn law_windows_stay_within_limits(
    state: OpenAiRateLimitState,
    reservation: OpenAiReservation,
    snapshot: Option<OpenAiRateLimitSnapshot>,
    now: Moment,
)
    requires
        within_limits(state),
    ensures
        within_limits(acquired(state, reservation, now).0),
        within_limits(reconciled(state, reservation, snapshot, now)),
{
}

/// A report never cuts a running cooldown short.
pub proof fn law_cooldown_is_never_shortened(
    state: OpenAiRateLimitState,
    reservation: OpenAiReservation,
    snapshot: Option<OpenAiRateLimitSnapshot>,
    now: Moment,
)
    requires
        state.cooldown_until is Some,
        state.cooldown_until->0@ > now@,
    ensures
        ({
            let after = reconciled(state, reservation, snapshot, now).cooldown_until;
            after is Some && after->0@ >= state.cooldown_until->0@
        }),
{
}

/// Until a window's reset time, a report on that same window never raises what
/// remains.
pub proof fn law_same_window_only_shrinks(
    window: OpenAiWindowState,
    snapshot: OpenAiWindowSnapshot,
    now: Moment,
)
    requires
        window.reset_at is Some,
        window.reset_at->0@ > now@,
        match snapshot.reset_after {
            Some(span) => close_together(window.reset_at->0, now.after(span)),
            None => true,
        },
    ensures
        reconciled_window(Some(window), snapshot, now).remaining <= window.remaining,
{
}

// ---------------------------------------------------------------------------
// Reading spans of time

/// How many characters at the front are digits.
pub open spec fn digit_run(text: Seq<char>) -> nat
    decreases text.len(),
{
    if text.len() > 0 && is_digit(text[0]) {
        1 + digit_run(text.drop_first())
    } else {
        0
    }
}

/// The unit at the front of a text: its milliseconds, and how many characters
/// it takes.
pub open spec fn unit_at(text: Seq<char>) -> Option<(nat, nat)> {
    if text.len() >= 2 && text[0] == 'm' && text[1] == 's' {
        Some((1, 2))
    } else if text.len() >= 1 && text[0] == 's' {
        Some((1_000, 1))
    } else if text.len() >= 1 && text[0] == 'm' {
        Some((60_000, 1))
    } else if text.len() >= 1 && text[0] == 'h' {
        Some((3_600_000, 1))
    } else {
        None
    }
}

/// The milliseconds that a run of numbers with units adds up to.
pub open spec fn reset_total(text: Seq<char>) -> Option<nat>
    decreases text.len(),
{
    if text.len() == 0 {
        Some(0)
    } else {
        let run = digit_run(text) as int;
        if run == 0 || run > text.len() {
            None
        } else {
            let rest = text.subrange(run, text.len() as int);
            match unit_at(rest) {
                Some((millis, width)) => match reset_total(
                    rest.subrange(width as int, rest.len() as int),
                ) {
                    Some(more) => Some(digits_value(text.subrange(0, run)) * millis + more),
                    None => None,
                },
                None => None,
            }
        }
    }
}

/// The span that a reset header stands for: one or more numbers with units,
/// adding up to no more milliseconds than 64 bits hold.
pub open spec fn reset_millis(value: Seq<char>) -> Option<nat> {
    let text = trimmed(value);
    match reset_total(text) {
        Some(total) if text.len() > 0 && total <= u64::MAX => Some(total),
        _ => None,
    }
}

proof fn lemma_digit_run(text: Seq<char>)
    ensures
        digit_run(text) <= text.len(),
        all_digits(text.subrange(0, digit_run(text) as int)),
        digit_run(text) < text.len() ==> !is_digit(text[digit_run(text) as int]),
    decreases text.len(),
{
    if text.len() > 0 && is_digit(text[0]) {
        let rest = text.drop_first();
        lemma_digit_run(rest);
        let run = digit_run(text) as int;
        assert forall|i: int| 0 <= i < run implies is_digit(#[trigger] text.subrange(0, run)[i]) by {
            if i > 0 {
                assert(rest.subrange(0, run - 1)[i - 1] == text[i]);
            }
        }
    }
}

fn read_digit_run(chars: &Vec<char>, from: usize) -> (end: usize)
    requires
        from <= chars@.len(),
    ensures
        from <= end <= chars@.len(),
        end - from == digit_run(chars@.subrange(from as int, chars@.len() as int)),
{
    let ghost rest = chars@.subrange(from as int, chars@.len() as int);
    let mut end: usize = from;
    assert(rest.subrange(0, rest.len() as int) == rest);
    while end < chars.len() && '0' <= chars[end] && chars[end] <= '9'
        invariant
            from <= end <= chars@.len(),
            digit_run(rest) == (end - from) + digit_run(
                chars@.subrange(end as int, chars@.len() as int),
            ),
        decreases chars@.len() - end,
    {
        let ghost here = chars@.subrange(end as int, chars@.len() as int);
        assert(here.drop_first() == chars@.subrange(end + 1, chars@.len() as int));
        end += 1;
    }
    end
}

fn read_unit(chars: &Vec<char>, at: usize) -> (unit: Option<(u64, usize)>)
    requires
        at <= chars@.len(),
    ensures
        match (unit, unit_at(chars@.subrange(at as int, chars@.len() as int))) {
            (Some((millis, width)), Some(expected)) => millis == expected.0 && width == expected.1
                && at + width <= chars@.len() && millis >= 1,
            (None, None) => true,
            _ => false,
        },
{
    let ghost rest = chars@.subrange(at as int, chars@.len() as int);
    if at >= chars.len() {
        return None;
    }
    assert(rest[0] == chars@[at as int]);
    if at + 1 < chars.len() {
        assert(rest[1] == chars@[at + 1]);
        if chars[at] == 'm' && chars[at + 1] == 's' {
            return Some((1, 2));
        }
    }
    if chars[at] == 's' {
        Some((1_000, 1))
    } else if chars[at] == 'm' {
        Some((60_000, 1))
    } else if chars[at] == 'h' {
        Some((3_600_000, 1))
    } else {
        None
    }
}

/// Reads spans such as `6m0s` or `2m3s150ms`.
pub fn parse_openai_reset_duration(value: &str) -> (span: Option<Duration>)
    ensures
        match (reset_millis(value@), span) {
            (Some(millis), Some(span)) => span@ == millis * NANOS_PER_MILLI as nat,
            (None, None) => true,
            _ => false,
        },
{
    let text = trim(value);
    let chars = to_chars(&text);
    if chars.len() == 0 {
        return None;
    }
    let ghost all = text@;
    let mut index: usize = 0;
    let mut total: u64 = 0;
    assert(all.subrange(0, all.len() as int) == all);
    while index < chars.len()
        invariant
            chars@ == all,
            all == trimmed(value@),
            all.len() > 0,
            index <= chars@.len(),
            reset_total(all) == match reset_total(all.subrange(index as int, all.len() as int)) {
                Some(more) => Some(total as nat + more),
                None => None,
            },
        decreases chars.len() - index,
    {
        let ghost here = all.subrange(index as int, all.len() as int);
        proof {
            lemma_digit_run(here);
        }
        let end = read_digit_run(&chars, index);
        if end == index {
            return None;
        }
        assert(here.subrange(0, end - index) == all.subrange(index as int, end as int));
        let ghost rest = here.subrange(end - index, here.len() as int);
        assert(rest == all.subrange(end as int, all.len() as int));
        let unit = read_unit(&chars, end);
        let (millis, width) = match unit {
            Some(unit) => unit,
            None => {
                return None;
            },
        };
        let ghost amount_value = digits_value(all.subrange(index as int, end as int));
        assert(rest.subrange(width as int, rest.len() as int) == all.subrange(
            end + width,
            all.len() as int,
        ));
        let amount = match read_digits(&chars, index, end) {
            Some(amount) => amount,
            None => {
                proof {
                    assert(amount_value * millis >= amount_value) by (nonlinear_arith)
                        requires
                            millis >= 1,
                    ;
                }
                return None;
            },
        };
        let product = match amount.checked_mul(millis) {
            Some(product) => product,
            None => {
                return None;
            },
        };
        let sum = match total.checked_add(product) {
            Some(sum) => sum,
            None => {
                return None;
            },
        };
        total = sum;
        index = end + width;
    }
    assert(all.subrange(index as int, all.len() as int) =~= Seq::empty());
    Some(Duration::from_millis(total))
}

/// The moment that an RFC 2822 date names, in milliseconds since 1970.
pub uninterp spec fn rfc2822_millis(text: Seq<char>) -> Option<i64>;

/// `chrono::DateTime::parse_from_rfc2822`, as milliseconds since 1970: whether
/// a text is such a date, and which moment it names, depends on the text alone.
#[verifier::external_body]
fn read_rfc2822(text: &str) -> (millis: Option<i64>)
    ensures
        millis == rfc2822_millis(text@),
{
    chrono::DateTime::parse_from_rfc2822(text).ok().map(|date| date.timestamp_millis())
}

/// Whole milliseconds from now, in nanoseconds since 1970, until a moment; none
/// where it has passed.
pub open spec fn millis_until(millis: i64, now_nanos: u128) -> nat {
    let left = millis * NANOS_PER_MILLI as int - now_nanos as int;
    if left <= 0 {
        0
    } else {
        (left / NANOS_PER_MILLI as int) as nat
    }
}

/// The wait that a `retry-after` header asks for, given the date it names, if
/// it names one: whole seconds, or until the date.
pub open spec fn retry_after_nanos(
    value: Seq<char>,
    date: Option<i64>,
    now_nanos: u128,
) -> Option<nat> {
    match parsed_unsigned(value, u64::MAX as nat) {
        Some(seconds) => Some(seconds * NANOS_PER_SEC as nat),
        None => match date {
            Some(millis) => Some(millis_until(millis, now_nanos) * NANOS_PER_MILLI as nat),
            None => None,
        },
    }
}

pub open spec fn span_view(span: Option<Duration>) -> Option<nat> {
    match span {
        Some(span) => Some(span@),
        None => None,
    }
}

/// Reads a trimmed `retry-after` value, given the date it names.
pub fn retry_after_with_date(value: &str, date: Option<i64>, now_nanos: u128) -> (span: Option<
    Duration,
>)
    ensures
        span_view(span) == retry_after_nanos(value@, date, now_nanos),
{
    if let Some(seconds) = parse_unsigned(value, u64::MAX) {
        return Some(Duration::from_secs(seconds));
    }
    let millis = match date {
        Some(millis) => millis,
        None => {
            return None;
        },
    };
    if millis <= 0 {
        return Some(Duration::from_millis(0));
    }
    let then: u128 = (millis as u128) * NANOS_PER_MILLI;
    if then <= now_nanos {
        return Some(Duration::from_millis(0));
    }
    let left: u128 = (then - now_nanos) / NANOS_PER_MILLI;
    Some(Duration::from_millis(left as u64))
}

/// Reads a `retry-after` header: seconds, or an HTTP date.
pub fn parse_retry_after_duration(value: &str, now_nanos: u128) -> (span: Option<Duration>)
    ensures
        span_view(span) == if trimmed(value@).len() == 0 {
            None
        } else {
            retry_after_nanos(trimmed(value@), rfc2822_millis(trimmed(value@)), now_nanos)
        },
{
    let text = trim(value);
    if text.as_str().is_empty() {
        return None;
    }
    let date = read_rfc2822(&text);
    retry_after_with_date(&text, date, now_nanos)
}

// ---------------------------------------------------------------------------
// What budgets are for

/// What a window can pay for at a moment: everything once its reset time has come,
/// and until then what is left.
pub open spec fn affordable(window: OpenAiWindowState, now: Moment) -> u64 {
    if window.reset_at is Some && window.reset_at->0.nanos <= now.nanos {
        window.limit
    } else {
        window.remaining
    }
}

/// A window whose reset time has come is full again: where no cooldown runs and
/// nothing is reserved, what is within every such window's limit is granted.
pub proof fn law_due_windows_are_full(
    state: OpenAiRateLimitState,
    reservation: OpenAiReservation,
    now: Moment,
)
    requires
        state.cooldown_until is Some ==> state.cooldown_until->0.nanos <= now.nanos,
        state.reserved.requests == 0,
        state.reserved.tokens == 0,
        state.requests is Some ==> {
            &&& state.requests->0.reset_at is Some
            &&& state.requests->0.reset_at->0.nanos <= now.nanos
            &&& reservation.requests <= state.requests->0.limit
        },
        state.tokens is Some ==> {
            &&& state.tokens->0.reset_at is Some
            &&& state.tokens->0.reset_at->0.nanos <= now.nanos
            &&& reservation.tokens <= state.tokens->0.limit
        },
    ensures
        acquired(state, reservation, now).1 == AcquireDecision::Ready,
        state.requests is Some ==> acquired(state, reservation, now).0.requests == Some(
            OpenAiWindowState {
                limit: state.requests->0.limit,
                remaining: state.requests->0.limit,
                reset_at: None,
            },
        ),
        state.tokens is Some ==> acquired(state, reservation, now).0.tokens == Some(
            OpenAiWindowState {
                limit: state.tokens->0.limit,
                remaining: state.tokens->0.limit,
                reset_at: None,
            },
        ),
{
}

/// A reservation is granted exactly where no cooldown runs and every known window
/// can pay for it on top of what is reserved; it is then held in full, and what is
/// known of windows that are not due stays as it is.
pub proof fn law_granted_exactly_where_affordable(
    state: OpenAiRateLimitState,
    reservation: OpenAiReservation,
    now: Moment,
)
    requires
        state.reserved.requests + reservation.requests <= u64::MAX,
        state.reserved.tokens + reservation.tokens <= u64::MAX,
    ensures
        (acquired(state, reservation, now).1 == AcquireDecision::Ready) == {
            &&& state.cooldown_until is Some ==> state.cooldown_until->0.nanos <= now.nanos
            &&& state.requests is Some ==> state.reserved.requests + reservation.requests
                <= affordable(state.requests->0, now)
            &&& state.tokens is Some ==> state.reserved.tokens + reservation.tokens <= affordable(
                state.tokens->0,
                now,
            )
        },
        ({
            let (after, decision) = acquired(state, reservation, now);
            &&& decision == AcquireDecision::Ready ==> after.reserved.requests
                == state.reserved.requests + reservation.requests && after.reserved.tokens
                == state.reserved.tokens + reservation.tokens
            &&& decision != AcquireDecision::Ready ==> after.reserved == state.reserved
            &&& state.requests is None ==> after.requests is None
            &&& state.tokens is None ==> after.tokens is None
            &&& state.requests is Some && (state.requests->0.reset_at is None
                || state.requests->0.reset_at->0.nanos > now.nanos) ==> after.requests
                == state.requests
            &&& state.tokens is Some && (state.tokens->0.reset_at is None
                || state.tokens->0.reset_at->0.nanos > now.nanos) ==> after.tokens == state.tokens
            &&& state.cooldown_until is Some && state.cooldown_until->0.nanos > now.nanos
                ==> after.cooldown_until == state.cooldown_until
        }),
{
}

/// A window is in the way until that moment: it cannot pay, and either its reset
/// time is known and to come, or it is looked at again in a second.
pub open spec fn in_the_way_until(
    window: Option<OpenAiWindowState>,
    required: int,
    now: Moment,
    until: int,
) -> bool {
    &&& window is Some
    &&& affordable(window->0, now) < required
    &&& if window->0.reset_at is Some && window->0.reset_at->0.nanos > now.nanos {
        until == window->0.reset_at->0.nanos
    } else {
        until == now.nanos + 1_000_000_000
    }
}

/// A request that has to wait waits for something that is in its way, and for the
/// first such thing to go.
pub proof fn law_wait_is_for_the_first_obstacle(
    state: OpenAiRateLimitState,
    reservation: OpenAiReservation,
    now: Moment,
)
    requires
        state.reserved.requests + reservation.requests <= u64::MAX,
        state.reserved.tokens + reservation.tokens <= u64::MAX,
        now.nanos + 1_000_000_000 <= u128::MAX,
    ensures
        acquired(state, reservation, now).1 matches AcquireDecision::WaitUntil(until) ==> {
            let requests = state.reserved.requests + reservation.requests;
            let tokens = state.reserved.tokens + reservation.tokens;
            let cooled = state.cooldown_until is Some && state.cooldown_until->0.nanos > now.nanos;
            &&& {
                ||| cooled && until.nanos == state.cooldown_until->0.nanos
                ||| in_the_way_until(state.requests, requests, now, until.nanos as int)
                ||| in_the_way_until(state.tokens, tokens, now, until.nanos as int)
            }
            &&& cooled ==> until.nanos <= state.cooldown_until->0.nanos
            &&& forall|at: int| #[trigger]
                in_the_way_until(state.requests, requests, now, at) ==> until.nanos <= at
            &&& forall|at: int| #[trigger]
                in_the_way_until(state.tokens, tokens, now, at) ==> until.nanos <= at
        },
{
}

/// What a report says of a window that nothing is known of, or whose known reset
/// time has come, is believed: its limit, what is left of it and when it resets.
pub proof fn law_report_on_a_new_window_is_believed(
    window: Option<OpenAiWindowState>,
    snapshot: OpenAiWindowSnapshot,
    now: Moment,
)
    requires
        window is Some ==> (window->0.reset_at is None || window->0.reset_at->0.nanos <= now.nanos),
        snapshot.reset_after is Some ==> now.nanos + snapshot.reset_after->0.nanos <= u128::MAX,
    ensures
        ({
            let after = reconciled_window(window, snapshot, now);
            &&& after.limit == snapshot.limit
            &&& snapshot.remaining <= snapshot.limit ==> after.remaining == snapshot.remaining
            &&& snapshot.remaining > snapshot.limit ==> after.remaining == snapshot.limit
            &&& after.reset_at is Some == snapshot.reset_after is Some
            &&& snapshot.reset_after is Some ==> after.reset_at->0.nanos == now.nanos
                + snapshot.reset_after->0.nanos
        }),
{
}

/// A report on a window that resets later than the known one replaces it; one on a
/// window that resets earlier is out of date and changes nothing.
pub proof fn law_report_on_another_window(
    window: OpenAiWindowState,
    snapshot: OpenAiWindowSnapshot,
    now: Moment,
)
    requires
        window.reset_at is Some,
        window.reset_at->0.nanos > now.nanos,
        snapshot.reset_after is Some,
        now.nanos + snapshot.reset_after->0.nanos <= u128::MAX,
        snapshot.remaining <= snapshot.limit,
    ensures
        ({
            let known = window.reset_at->0.nanos as int;
            let reported = now.nanos + snapshot.reset_after->0.nanos;
            let after = reconciled_window(Some(window), snapshot, now);
            &&& reported > known + 1_500_000_000 ==> after.limit == snapshot.limit
                && after.remaining == snapshot.remaining && after.reset_at is Some
                && after.reset_at->0.nanos == reported
            &&& reported < known - 1_500_000_000 ==> after == window
        }),
{
}

/// A report on the known window takes over its limit, keeps the smaller remainder
/// and the later reset time.
pub proof fn law_report_on_the_same_window(
    window: OpenAiWindowState,
    snapshot: OpenAiWindowSnapshot,
    now: Moment,
)
    requires
        window.reset_at is Some,
        window.reset_at->0.nanos > now.nanos,
        snapshot.remaining <= snapshot.limit,
        snapshot.reset_after is Some ==> {
            &&& now.nanos + snapshot.reset_after->0.nanos <= u128::MAX
            &&& -1_500_000_000 <= now.nanos + snapshot.reset_after->0.nanos
                - window.reset_at->0.nanos <= 1_500_000_000
        },
    ensures
        ({
            let after = reconciled_window(Some(window), snapshot, now);
            &&& after.limit == snapshot.limit
            &&& after.remaining <= window.remaining && after.remaining <= snapshot.remaining
            &&& after.remaining == window.remaining || after.remaining == snapshot.remaining
            &&& after.reset_at is Some
            &&& after.reset_at->0.nanos >= window.reset_at->0.nanos
            &&& snapshot.reset_after is None ==> after.reset_at == window.reset_at
            &&& snapshot.reset_after is Some ==> after.reset_at->0.nanos >= now.nanos
                + snapshot.reset_after->0.nanos
            &&& snapshot.reset_after is Some ==> after.reset_at->0.nanos
                == window.reset_at->0.nanos || after.reset_at->0.nanos == now.nanos
                + snapshot.reset_after->0.nanos
        }),
{
}

/// A request that is over gives back what it held, and only that; what is not
/// reported on stays, and a request to wait starts or lengthens the cooldown.
pub proof fn law_report_is_taken_in(
    state: OpenAiRateLimitState,
    reservation: OpenAiReservation,
    snapshot: OpenAiRateLimitSnapshot,
    now: Moment,
)
    requires
        reservation.requests <= state.reserved.requests,
        reservation.tokens <= state.reserved.tokens,
        snapshot.retry_after is Some ==> now.nanos + snapshot.retry_after->0.nanos <= u128::MAX,
    ensures
        ({
            let after = reconciled(state, reservation, Some(snapshot), now);
            let quiet = reconciled(state, reservation, None, now);
            &&& after.reserved.requests == state.reserved.requests - reservation.requests
            &&& after.reserved.tokens == state.reserved.tokens - reservation.tokens
            &&& quiet.reserved == after.reserved
            &&& snapshot.requests is None ==> after.requests == quiet.requests
            &&& snapshot.tokens is None ==> after.tokens == quiet.tokens
            &&& snapshot.requests is Some ==> after.requests == Some(
                reconciled_window(state.requests, snapshot.requests->0, now),
            )
            &&& snapshot.tokens is Some ==> after.tokens == Some(
                reconciled_window(state.tokens, snapshot.tokens->0, now),
            )
            &&& snapshot.retry_after is None ==> after.cooldown_until == quiet.cooldown_until
            &&& snapshot.retry_after is Some ==> {
                let asked = now.nanos + snapshot.retry_after->0.nanos;
                &&& after.cooldown_until is Some
                &&& after.cooldown_until->0.nanos >= asked
                &&& after.cooldown_until->0.nanos == asked || after.cooldown_until
                    == state.cooldown_until
            }
        }),
        ({
            let quiet = reconciled(state, reservation, None, now);
            &&& state.requests is None ==> quiet.requests is None
            &&& state.tokens is None ==> quiet.tokens is None
            &&& state.requests is Some ==> quiet.requests is Some && quiet.requests->0.limit
                == state.requests->0.limit && quiet.requests->0.remaining == affordable(
                state.requests->0,
                now,
            )
            &&& state.tokens is Some ==> quiet.tokens is Some && quiet.tokens->0.limit
                == state.tokens->0.limit && quiet.tokens->0.remaining == affordable(
                state.tokens->0,
                now,
            )
            &&& state.cooldown_until is Some && state.cooldown_until->0.nanos > now.nanos
                ==> quiet.cooldown_until == state.cooldown_until
            &&& state.cooldown_until is Some && state.cooldown_until->0.nanos <= now.nanos
                ==> quiet.cooldown_until is None
            &&& state.cooldown_until is None ==> quiet.cooldown_until is None
        }),
{
}

proof fn lemma_run_of_digits(digits: Seq<char>, rest: Seq<char>)
    requires
        all_digits(digits),
        rest.len() > 0,
        !is_digit(rest[0]),
    ensures
        digit_run(digits + rest) == digits.len(),
    decreases digits.len(),
{
    if digits.len() == 0 {
        assert(digits + rest =~= rest);
    } else {
        assert(is_digit(digits[0]));
        assert((digits + rest)[0] == digits[0]);
        assert((digits + rest).drop_first() =~= digits.drop_first() + rest);
        assert forall|i: int| 0 <= i < digits.drop_first().len() implies is_digit(
            #[trigger] digits.drop_first()[i],
        ) by {
            assert(is_digit(digits[i + 1]));
        }
        lemma_run_of_digits(digits.drop_first(), rest);
    }
}

/// A number with a unit adds to the span that the rest stands for: an hour is
/// 3,600,000 milliseconds, a minute 60,000, a second 1,000.
pub proof fn law_reset_units(digits: Seq<char>, rest: Seq<char>)
    requires
        all_digits(digits),
        digits.len() > 0,
        reset_total(rest) is Some,
    ensures
        reset_total(digits + ("h"@ + rest)) == Some(
            digits_value(digits) * 3_600_000 + reset_total(rest)->0,
        ),
        reset_total(digits + ("m"@ + rest)) == Some(
            digits_value(digits) * 60_000 + reset_total(rest)->0,
        ),
        reset_total(digits + ("s"@ + rest)) == Some(
            digits_value(digits) * 1_000 + reset_total(rest)->0,
        ),
        reset_total(digits + ("ms"@ + rest)) == Some(
            digits_value(digits) + reset_total(rest)->0,
        ),
        reset_total(Seq::empty()) == Some(0nat),
        reset_total(digits) is None,
{
    reveal_strlit("h");
    reveal_strlit("m");
    reveal_strlit("s");
    reveal_strlit("ms");
    assert("h"@.len() == 1 && "m"@.len() == 1 && "s"@.len() == 1 && "ms"@.len() == 2);
    assert("h"@[0] == 'h' && "m"@[0] == 'm' && "s"@[0] == 's');
    assert("ms"@[0] == 'm' && "ms"@[1] == 's');
    if rest.len() > 0 {
        lemma_digit_run(rest);
        assert(is_digit(rest[0]));
    }
    lemma_number_with_unit(digits, "h"@, rest, 3_600_000);
    lemma_number_with_unit(digits, "m"@, rest, 60_000);
    lemma_number_with_unit(digits, "s"@, rest, 1_000);
    lemma_number_with_unit(digits, "ms"@, rest, 1);
    lemma_digit_run(digits);
    if digit_run(digits) < digits.len() {
        assert(is_digit(digits[digit_run(digits) as int]));
    }
    assert(digits.subrange(digits.len() as int, digits.len() as int) =~= Seq::empty());
}

proof fn lemma_number_with_unit(digits: Seq<char>, unit: Seq<char>, rest: Seq<char>, millis: nat)
    requires
        all_digits(digits),
        digits.len() > 0,
        unit.len() > 0,
        !is_digit(unit[0]),
        unit_at(unit + rest) == Some((millis, unit.len())),
        reset_total(rest) is Some,
    ensures
        reset_total(digits + (unit + rest)) == Some(
            digits_value(digits) * millis + reset_total(rest)->0,
        ),
{
    let text = digits + (unit + rest);
    lemma_run_of_digits(digits, unit + rest);
    assert(text.subrange(0, digits.len() as int) =~= digits);
    let behind = text.subrange(digits.len() as int, text.len() as int);
    assert(behind =~= unit + rest);
    assert(behind.subrange(unit.len() as int, behind.len() as int) =~= rest);
}

/// A `retry-after` in whole seconds is that many seconds; one that names a date is
/// the time left until then, to the millisecond, and nothing once it has passed.
pub proof fn law_retry_after_is_waited_for(value: Seq<char>, date: Option<i64>, now_nanos: u128)
    ensures
        parsed_unsigned(value, u64::MAX as nat) matches Some(seconds) ==> retry_after_nanos(
            value,
            date,
            now_nanos,
        ) == Some(seconds * 1_000_000_000),
        parsed_unsigned(value, u64::MAX as nat) is None && date is None ==> retry_after_nanos(
            value,
            date,
            now_nanos,
        ) is None,
        parsed_unsigned(value, u64::MAX as nat) is None && date is Some ==> {
            let left = date->0 * 1_000_000 - now_nanos;
            let wait = retry_after_nanos(value, date, now_nanos);
            &&& wait is Some
            &&& left <= 0 ==> wait == Some(0nat)
            &&& left > 0 ==> wait->0 % 1_000_000 == 0 && wait->0 <= left < wait->0 + 1_000_000
        },
{
    if date is Some {
        let left = date->0 * 1_000_000 - now_nanos;
        let whole = left / 1_000_000;
        assert(left > 0 ==> whole * 1_000_000 <= left < (whole + 1) * 1_000_000);
        assert((whole * 1_000_000) % 1_000_000 == 0);
    }
}

/// The time until a reset is read without the white space round it; a text that says
/// nothing, or more than can be counted, is no such time.
pub proof fn law_reset_is_read(value: Seq<char>)
    ensures
        trimmed(value).len() == 0 ==> reset_millis(value) is None,
        reset_total(trimmed(value)) is None ==> reset_millis(value) is None,
        trimmed(value).len() > 0 && reset_total(trimmed(value)) is Some && reset_total(
            trimmed(value),
        )->0 <= 18_446_744_073_709_551_615 ==> reset_millis(value) == reset_total(trimmed(value)),
        reset_total(trimmed(value)) is Some && reset_total(trimmed(value))->0
            > 18_446_744_073_709_551_615 ==> reset_millis(value) is None,
{
}

} // verus!
