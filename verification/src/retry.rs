//! Bounded retries: how often, how long to wait, and when to give up.

use vstd::arithmetic::power2::{lemma_pow2_adds, lemma_pow2_strictly_increases, pow2};
use vstd::prelude::*;

use crate::time::{min_nat, Duration, MAX_NANOS, NANOS_PER_MILLI};

verus! {

/// A moment of the monotonic clock.
#[verifier::external_type_specification]
#[verifier::external_body]
pub struct ExInstant(std::time::Instant);

/// Bounded retry policy shared by the streaming provider pipeline.
#[derive(Debug, Clone, Copy, PartialEq, Eq, Structural)]
pub struct RetryPolicy {
    /// Total attempts allowed (initial attempt + retries).
    pub max_attempts: u32,
    /// Base delay used as the seed for exponential growth.
    pub base_backoff: Duration,
    /// Upper bound for any single backoff, even if exponential growth or a
    /// server-supplied hint would exceed it.
    pub max_backoff: Duration,
    /// Cumulative wall time budget across all attempts.
    pub deadline: Duration,
    /// Random offset, expressed as a percentage of the computed backoff, added
    /// on top. `0` disables it.
    pub jitter_pct: u32,
}

impl Default for RetryPolicy {
    fn default() -> (policy: RetryPolicy)
        ensures
            policy.max_attempts == 5,
            policy.base_backoff@ == 500 * NANOS_PER_MILLI,
            policy.max_backoff@ == 30_000 * NANOS_PER_MILLI,
            policy.deadline@ == 60_000 * NANOS_PER_MILLI,
            policy.jitter_pct == 25,
    {
        RetryPolicy {
            max_attempts: 5,
            base_backoff: Duration::from_millis(500),
            max_backoff: Duration::from_secs(30),
            deadline: Duration::from_secs(60),
            jitter_pct: 25,
        }
    }
}

/// Whole milliseconds of a span, as many as fit in 64 bits.
pub open spec fn millis_of(span: Duration) -> nat {
    min_nat(span@ / NANOS_PER_MILLI as nat, u64::MAX as nat)
}

/// How often the base delay is doubled before an attempt.
pub open spec fn doublings(attempt: u32) -> nat {
    if attempt == 0 {
        0
    } else {
        min_nat((attempt - 1) as nat, 20)
    }
}

/// The delay before jitter, in milliseconds: the hint where there is one, and
/// otherwise the base delay doubled with each attempt; never more than the cap.
pub open spec fn base_millis(policy: RetryPolicy, attempt: u32, hint: Option<Duration>) -> nat {
    match hint {
        Some(hint) => min_nat(millis_of(hint), millis_of(policy.max_backoff)),
        None => min_nat(
            millis_of(policy.base_backoff) * pow2(doublings(attempt)),
            millis_of(policy.max_backoff),
        ),
    }
}

/// What jitter stays below, in milliseconds.
pub open spec fn jitter_limit(millis: nat, jitter_pct: u32) -> nat {
    min_nat(millis * jitter_pct as nat, u64::MAX as nat) / 100
}

pub open spec fn jitter(millis: nat, jitter_pct: u32, random: u64) -> nat {
    if jitter_limit(millis, jitter_pct) == 0 {
        0
    } else {
        random as nat % jitter_limit(millis, jitter_pct)
    }
}

/// The delay, in milliseconds, for one outcome of the random draw.
pub open spec fn backoff_millis(
    policy: RetryPolicy,
    attempt: u32,
    hint: Option<Duration>,
    random: u64,
) -> nat {
    let millis = base_millis(policy, attempt, hint);
    min_nat(
        millis + jitter(millis, policy.jitter_pct, random),
        millis_of(policy.max_backoff),
    )
}

pub open spec fn backoff_nanos(
    policy: RetryPolicy,
    attempt: u32,
    hint: Option<Duration>,
    random: u64,
) -> nat {
    backoff_millis(policy, attempt, hint, random) * NANOS_PER_MILLI as nat
}

fn duration_millis_u64(duration: Duration) -> (millis: u64)
    ensures
        millis == millis_of(duration),
{
    let millis = duration.as_millis();
    if millis <= u64::MAX as u128 {
        millis as u64
    } else {
        u64::MAX
    }
}

fn power_of_two(exponent: u32) -> (power: u64)
    requires
        exponent <= 20,
    ensures
        power == pow2(exponent as nat),
        power <= 0x10_0000,
{
    let mut power: u64 = 1;
    let mut i: u32 = 0;
    proof {
        vstd::arithmetic::power2::lemma2_to64();
    }
    while i < exponent
        invariant
            i <= exponent <= 20,
            power == pow2(i as nat),
            pow2(20) == 0x10_0000,
            power <= 0x10_0000,
            pow2(1) == 2,
        decreases exponent - i,
    {
        proof {
            lemma_pow2_adds(i as nat, 1);
            if i + 1 < 20 {
                lemma_pow2_strictly_increases((i + 1) as nat, 20);
            }
            assert(pow2(i as nat) * pow2(1) == 2 * pow2(i as nat)) by (nonlinear_arith)
                requires
                    pow2(1) == 2,
            ;
        }
        power = power * 2;
        i += 1;
    }
    power
}

fn base_backoff_millis(policy: &RetryPolicy, attempt: u32, hint: Option<Duration>) -> (millis: u64)
    ensures
        millis == base_millis(*policy, attempt, hint),
{
    let cap = duration_millis_u64(policy.max_backoff);
    match hint {
        Some(hint) => {
            let millis = duration_millis_u64(hint);
            if millis <= cap {
                millis
            } else {
                cap
            }
        },
        None => {
            let exponent: u32 = if attempt == 0 {
                0
            } else if attempt - 1 <= 20 {
                attempt - 1
            } else {
                20
            };
            let base: u128 = duration_millis_u64(policy.base_backoff) as u128;
            let factor = power_of_two(exponent);
            proof {
                assert(base * factor <= 0x1_0000_0000_0000_0000 * 0x10_0000) by (nonlinear_arith)
                    requires
                        base <= 0x1_0000_0000_0000_0000,
                        factor <= 0x10_0000,
                ;
            }
            let grown: u128 = base * (factor as u128);
            if grown <= cap as u128 {
                grown as u64
            } else {
                cap
            }
        },
    }
}

fn jitter_ceiling(millis: u64, jitter_pct: u32) -> (limit: u64)
    ensures
        limit == jitter_limit(millis as nat, jitter_pct),
{
    proof {
        assert(millis * jitter_pct <= 0xffff_ffff_ffff_ffff * 0xffff_ffff) by (nonlinear_arith)
            requires
                millis <= 0xffff_ffff_ffff_ffff,
                jitter_pct <= 0xffff_ffff,
        ;
    }
    let product: u128 = (millis as u128) * (jitter_pct as u128);
    let bounded: u64 = if product <= u64::MAX as u128 {
        product as u64
    } else {
        u64::MAX
    };
    bounded / 100
}

/// The delay for a given random draw.
pub fn backoff_with_draw(
    policy: &RetryPolicy,
    attempt: u32,
    hint: Option<Duration>,
    random: u64,
) -> (delay: Duration)
    ensures
        delay@ == backoff_nanos(*policy, attempt, hint, random),
{
    let cap = duration_millis_u64(policy.max_backoff);
    let millis = base_backoff_millis(policy, attempt, hint);
    let limit = jitter_ceiling(millis, policy.jitter_pct);
    let offset: u64 = if limit == 0 {
        0
    } else {
        random % limit
    };
    let jittered: u128 = millis as u128 + offset as u128;
    if jittered <= cap as u128 {
        Duration::from_millis(jittered as u64)
    } else {
        Duration::from_millis(cap)
    }
}

/// `std::hash::RandomState` hashing nothing: a number that differs from call to
/// call. Nothing is claimed of it.
#[verifier::external_body]
fn draw_random() -> (random: u64) {
    std::hash::BuildHasher::hash_one(&std::hash::RandomState::new(), ())
}

/// The delay before the next attempt. Honors a server-supplied hint when
/// present, otherwise grows exponentially. Jitter is applied inside the cap.
pub fn compute_backoff(policy: &RetryPolicy, attempt: u32, hint: Option<Duration>) -> (delay:
    Duration)
    ensures
        exists|random: u64| delay@ == #[trigger] backoff_nanos(*policy, attempt, hint, random),
{
    let random = draw_random();
    let delay = backoff_with_draw(policy, attempt, hint, random);
    assert(delay@ == backoff_nanos(*policy, attempt, hint, random));
    delay
}

/// No delay exceeds the cap.
pub proof fn law_backoff_stays_within_cap(
    policy: RetryPolicy,
    attempt: u32,
    hint: Option<Duration>,
    random: u64,
)
    ensures
        backoff_nanos(policy, attempt, hint, random) <= policy.max_backoff@,
{
    let cap = policy.max_backoff@;
    let millis = backoff_millis(policy, attempt, hint, random);
    assert(millis <= cap / NANOS_PER_MILLI as nat);
    assert(millis * NANOS_PER_MILLI as nat <= cap) by (nonlinear_arith)
        requires
            millis <= cap / NANOS_PER_MILLI as nat,
            NANOS_PER_MILLI == 1_000_000,
    ;
}

/// A hint within the cap is waited for in full, to the millisecond, and no
/// longer where jitter is off.
pub proof fn law_hint_is_honored(policy: RetryPolicy, attempt: u32, hint: Duration, random: u64)
    requires
        millis_of(hint) <= millis_of(policy.max_backoff),
    ensures
        backoff_millis(policy, attempt, Some(hint), random) >= millis_of(hint),
        policy.jitter_pct == 0 ==> backoff_millis(policy, attempt, Some(hint), random) == millis_of(
            hint,
        ),
{
    let millis = base_millis(policy, attempt, Some(hint));
    if policy.jitter_pct == 0 {
        assert(millis * policy.jitter_pct as nat == 0) by (nonlinear_arith)
            requires
                policy.jitter_pct == 0,
        ;
    }
}

/// Without jitter, later attempts never wait less than earlier ones.
pub proof fn law_backoff_grows(policy: RetryPolicy, earlier: u32, later: u32, random: u64)
    requires
        policy.jitter_pct == 0,
        earlier <= later,
    ensures
        backoff_nanos(policy, earlier, None, random) <= backoff_nanos(policy, later, None, random),
{
    let base = millis_of(policy.base_backoff);
    let a = doublings(earlier);
    let b = doublings(later);
    if a < b {
        lemma_pow2_strictly_increases(a, b);
    }
    let low = pow2(a);
    let high = pow2(b);
    assert(base * low <= base * high) by (nonlinear_arith)
        requires
            low <= high,
    ;
    let first = base_millis(policy, earlier, None);
    let second = base_millis(policy, later, None);
    assert(first * policy.jitter_pct as nat == 0) by (nonlinear_arith)
        requires
            policy.jitter_pct == 0,
    ;
    assert(second * policy.jitter_pct as nat == 0) by (nonlinear_arith)
        requires
            policy.jitter_pct == 0,
    ;
    let x = backoff_millis(policy, earlier, None, random);
    let y = backoff_millis(policy, later, None, random);
    assert(x <= y);
    assert(x * NANOS_PER_MILLI as nat <= y * NANOS_PER_MILLI as nat) by (nonlinear_arith)
        requires
            x <= y,
    ;
}

/// Jitter adds less than its share of the delay.
pub proof fn law_jitter_is_bounded(
    policy: RetryPolicy,
    attempt: u32,
    hint: Option<Duration>,
    random: u64,
)
    ensures
        ({
            let millis = base_millis(policy, attempt, hint);
            let delay = backoff_millis(policy, attempt, hint, random);
            &&& millis <= delay
            &&& 100 * (delay - millis) <= millis * policy.jitter_pct
        }),
{
    let millis = base_millis(policy, attempt, hint);
    let limit = jitter_limit(millis, policy.jitter_pct);
    let share = millis * policy.jitter_pct as nat;
    assert(100 * limit <= share);
}

/// The clock readings and the random number that a wait is worked out from.
#[derive(Debug, Clone, Copy, PartialEq, Eq, Structural)]
pub struct Draw {
    pub checked: Duration,
    pub measured: Duration,
    pub random: u64,
}

impl Draw {
    /// Both readings are spans that a clock can give: none is longer than the
    /// longest span.
    pub open spec fn is_possible(self) -> bool {
        self.checked@ <= MAX_NANOS && self.measured@ <= MAX_NANOS
    }
}

/// Stateful retry tracker: a per-attempt counter with a cumulative deadline.
/// Callers ask for the next backoff after a failed attempt; `None` means the
/// budget is exhausted and the failure should be propagated.
#[derive(Debug)]
pub struct RetryGate {
    pub policy: RetryPolicy,
    pub started: std::time::Instant,
    pub completed_attempts: u32,
}

/// The wait that is granted after a failed attempt, given how much time had
/// passed when the budget was checked and when it was measured.
pub open spec fn granted_wait(
    policy: RetryPolicy,
    completed_attempts: u32,
    hint: Option<Duration>,
    checked: Duration,
    measured: Duration,
    random: u64,
) -> Option<nat> {
    if completed_attempts >= policy.max_attempts || checked@ >= policy.deadline@ || measured@
        >= policy.deadline@ {
        None
    } else {
        Some(
            min_nat(
                backoff_nanos(policy, completed_attempts, hint, random),
                (policy.deadline@ - measured@) as nat,
            ),
        )
    }
}

pub open spec fn counted(attempts: u32) -> u32 {
    if attempts < u32::MAX {
        (attempts + 1) as u32
    } else {
        attempts
    }
}

pub open spec fn wait_view(wait: Option<Duration>) -> Option<nat> {
    match wait {
        Some(wait) => Some(wait@),
        None => None,
    }
}

/// `std::time::Instant::now`. Nothing is claimed of it.
#[verifier::external_body]
fn current_instant() -> (now: std::time::Instant) {
    std::time::Instant::now()
}

/// `std::time::Instant::elapsed`, in nanoseconds. Nothing is claimed of how
/// long it was.
#[verifier::external_body]
fn elapsed_nanos(started: &std::time::Instant) -> (nanos: u128) {
    started.elapsed().as_nanos()
}

impl RetryGate {
    pub fn new(policy: RetryPolicy) -> (gate: RetryGate)
        ensures
            gate.policy == policy,
            gate.completed_attempts == 0,
    {
        RetryGate { policy, started: current_instant(), completed_attempts: 0 }
    }

    /// 1-indexed number of the attempt that comes next.
    pub fn next_attempt_id(&self) -> (id: u32)
        ensures
            id == counted(self.completed_attempts),
    {
        self.completed_attempts.saturating_add(1)
    }

    /// Records a failed attempt, given the clock readings and the random draw.
    pub fn record_failure_at(
        &mut self,
        hint: Option<Duration>,
        checked: Duration,
        measured: Duration,
        random: u64,
    ) -> (wait: Option<Duration>)
        ensures
            final(self).policy == old(self).policy,
            final(self).started == old(self).started,
            final(self).completed_attempts == counted(old(self).completed_attempts),
            wait_view(wait) == granted_wait(
                old(self).policy,
                final(self).completed_attempts,
                hint,
                checked,
                measured,
                random,
            ),
    {
        self.completed_attempts = self.completed_attempts.saturating_add(1);
        if self.completed_attempts >= self.policy.max_attempts || checked.as_nanos()
            >= self.policy.deadline.as_nanos() {
            return None;
        }
        let remaining = self.policy.deadline.saturating_sub(measured);
        if remaining.is_zero() {
            return None;
        }
        let delay = backoff_with_draw(&self.policy, self.completed_attempts, hint, random);
        Some(delay.at_most(remaining))
    }

    /// Reads the time since the start, twice, and draws a random number.
    /// Whatever the clock gives is brought within the longest span. How far it has
    /// moved on, and what the number is, is left open.
    pub fn draw(&self) -> (draw: Draw)
        ensures
            draw.is_possible(),
    {
        let checked = Duration::from_nanos(elapsed_nanos(&self.started));
        let measured = Duration::from_nanos(elapsed_nanos(&self.started));
        Draw { checked, measured, random: draw_random() }
    }

    /// Records a failed attempt and returns the backoff to wait before the next
    /// one, or `None` if the budget (attempts or deadline) is exhausted.
    pub fn record_failure_and_next_backoff(&mut self, hint: Option<Duration>) -> (wait: Option<
        Duration,
    >)
        ensures
            final(self).policy == old(self).policy,
            final(self).started == old(self).started,
            final(self).completed_attempts == counted(old(self).completed_attempts),
            exists|draw: Draw|
                {
                    &&& #[trigger] draw.is_possible()
                    &&& wait_view(wait) == granted_wait(
                        old(self).policy,
                        final(self).completed_attempts,
                        hint,
                        draw.checked,
                        draw.measured,
                        draw.random,
                    )
                },
    {
        let draw = self.draw();
        let wait = self.record_failure_at(hint, draw.checked, draw.measured, draw.random);
        assert(wait_view(wait) == granted_wait(
            old(self).policy,
            self.completed_attempts,
            hint,
            draw.checked,
            draw.measured,
            draw.random,
        ));
        wait
    }
}

/// A wait is granted only while attempts and time are left, and it ends within
/// both the cap and the deadline.
pub proof fn law_wait_keeps_the_budget(
    policy: RetryPolicy,
    completed_attempts: u32,
    hint: Option<Duration>,
    checked: Duration,
    measured: Duration,
    random: u64,
)
    ensures
        match granted_wait(policy, completed_attempts, hint, checked, measured, random) {
            Some(wait) => {
                &&& completed_attempts < policy.max_attempts
                &&& wait <= policy.max_backoff@
                &&& measured@ + wait <= policy.deadline@
            },
            None => completed_attempts >= policy.max_attempts || checked@ >= policy.deadline@
                || measured@ >= policy.deadline@,
        },
{
    law_backoff_stays_within_cap(policy, completed_attempts, hint, random);
}

/// The attempt counter after `failures` recorded failures of a new gate.
pub open spec fn counted_from_new(failures: nat) -> u32
    decreases failures,
{
    if failures == 0 {
        0
    } else {
        counted(counted_from_new((failures - 1) as nat))
    }
}

/// However the clock runs, a gate that has recorded as many failures as the
/// policy allows attempts grants no further one.
pub proof fn law_attempts_are_bounded(
    policy: RetryPolicy,
    failures: nat,
    hint: Option<Duration>,
    checked: Duration,
    measured: Duration,
    random: u64,
)
    requires
        failures >= policy.max_attempts,
        failures >= 1,
    ensures
        granted_wait(policy, counted_from_new(failures), hint, checked, measured, random) is None,
{
    lemma_counted(failures);
}

proof fn lemma_counted(failures: nat)
    ensures
        counted_from_new(failures) as nat == min_nat(failures, u32::MAX as nat),
    decreases failures,
{
    if failures > 0 {
        lemma_counted((failures - 1) as nat);
    }
}

/// Without a hint and without jitter the first wait is the base delay, and each
/// further one twice the one before it, up to the cap.
pub proof fn law_backoff_doubles(policy: RetryPolicy, attempt: u32, random: u64)
    requires
        policy.jitter_pct == 0,
        1 <= attempt <= 20,
        policy.base_backoff@ % 1_000_000 == 0,
        policy.max_backoff@ % 1_000_000 == 0,
        policy.base_backoff@ <= MAX_NANOS,
        policy.max_backoff@ <= MAX_NANOS,
        policy.base_backoff@ / 1_000_000 <= u64::MAX,
        policy.max_backoff@ / 1_000_000 <= u64::MAX,
    ensures
        backoff_nanos(policy, 1, None, random) == min_nat(policy.base_backoff@, policy.max_backoff@),
        ({
            let now = backoff_nanos(policy, attempt, None, random);
            let next = backoff_nanos(policy, (attempt + 1) as u32, None, random);
            &&& 2 * now <= policy.max_backoff@ ==> next == 2 * now
            &&& 2 * now > policy.max_backoff@ ==> next == policy.max_backoff@
        }),
{
    let base = millis_of(policy.base_backoff);
    let cap = millis_of(policy.max_backoff);
    assert(policy.base_backoff@ == base * 1_000_000);
    assert(policy.max_backoff@ == cap * 1_000_000);
    vstd::arithmetic::power2::lemma2_to64();
    let before = pow2(doublings(attempt));
    let after = pow2(doublings((attempt + 1) as u32));
    lemma_pow2_adds(doublings(attempt), 1);
    assert(before * pow2(1) == 2 * before) by (nonlinear_arith)
        requires
            pow2(1) == 2,
    ;
    assert(doublings((attempt + 1) as u32) == doublings(attempt) + 1);
    assert(base * after == 2 * (base * before)) by (nonlinear_arith)
        requires
            after == 2 * before,
    ;
    assert(base * pow2(0) == base) by (nonlinear_arith)
        requires
            pow2(0) == 1,
    ;
    assert(base_millis(policy, attempt, None) * policy.jitter_pct as nat == 0) by (nonlinear_arith)
        requires
            policy.jitter_pct == 0,
    ;
    assert(base_millis(policy, (attempt + 1) as u32, None) * policy.jitter_pct as nat == 0)
        by (nonlinear_arith)
        requires
            policy.jitter_pct == 0,
    ;
    assert(base_millis(policy, 1, None) * policy.jitter_pct as nat == 0) by (nonlinear_arith)
        requires
            policy.jitter_pct == 0,
    ;
}

/// A hint replaces the delay that the attempts would have grown to: the wait is the
/// hint's, whatever the attempt.
pub proof fn law_hint_replaces_growth(
    policy: RetryPolicy,
    first: u32,
    second: u32,
    hint: Duration,
    random: u64,
)
    ensures
        backoff_nanos(policy, first, Some(hint), random) == backoff_nanos(
            policy,
            second,
            Some(hint),
            random,
        ),
        policy.jitter_pct == 0 && hint@ % 1_000_000 == 0 && hint@ <= policy.max_backoff@ && hint@
            / 1_000_000 <= u64::MAX ==> backoff_nanos(policy, first, Some(hint), random) == hint@,
{
    assert(base_millis(policy, first, Some(hint)) * policy.jitter_pct as nat
        == policy.jitter_pct as nat * base_millis(policy, first, Some(hint))) by (nonlinear_arith);
    if policy.jitter_pct == 0 {
        assert(base_millis(policy, first, Some(hint)) * policy.jitter_pct as nat == 0)
            by (nonlinear_arith)
            requires
                policy.jitter_pct == 0,
        ;
    }
}

/// A wait is granted exactly while attempts and time are left; it ends within the
/// budget, and is otherwise the whole delay.
pub proof fn law_wait_is_granted_while_budget_is_left(
    policy: RetryPolicy,
    completed_attempts: u32,
    hint: Option<Duration>,
    checked: Duration,
    measured: Duration,
    random: u64,
)
    ensures
        ({
            let wait = granted_wait(
                policy,
                completed_attempts,
                hint,
                checked,
                measured,
                random,
            );
            let delay = backoff_nanos(policy, completed_attempts, hint, random);
            &&& wait is Some == (completed_attempts < policy.max_attempts && checked@
                < policy.deadline@ && measured@ < policy.deadline@)
            &&& wait is Some ==> measured@ + wait->0 <= policy.deadline@
            &&& wait is Some && measured@ + delay <= policy.deadline@ ==> wait->0 == delay
            &&& wait is Some && measured@ + delay > policy.deadline@ ==> measured@ + wait->0
                == policy.deadline@
        }),
{
}

/// What is drawn is added to the wait as it is, as long as it stays below the share that
/// may be added and the sum below the longest wait.
pub proof fn law_jitter_is_what_was_drawn(
    policy: RetryPolicy,
    attempt: u32,
    hint: Option<Duration>,
    random: u64,
)
    requires
        ({
            let millis = base_millis(policy, attempt, hint);
            &&& 100 * (random + 1) <= millis * policy.jitter_pct
            &&& millis * policy.jitter_pct <= u64::MAX
            &&& millis + random <= millis_of(policy.max_backoff)
        }),
    ensures
        backoff_millis(policy, attempt, hint, random) == base_millis(policy, attempt, hint) + random,
{
    let millis = base_millis(policy, attempt, hint);
    let limit = jitter_limit(millis, policy.jitter_pct);
    assert(limit > random);
    vstd::arithmetic::div_mod::lemma_small_mod(random as nat, limit);
}

/// An attempt is counted up to the largest count there is.
pub proof fn law_attempts_are_counted(attempts: u32)
    ensures
        attempts < 4_294_967_295 ==> counted(attempts) == attempts + 1,
        attempts == 4_294_967_295 ==> counted(attempts) == attempts,
{
}

} // verus!
