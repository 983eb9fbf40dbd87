//! Bounded retries around a provider: which failures start another attempt,
//! which events the consumer sees, and when a stream is past retrying.

use std::sync::Arc;

use vstd::prelude::*;

use crate::http_client::{failure_error, provider_error_from_failure, Failure};
use crate::protocol::{
    cancelled_error, events_view, push_event, turned_over, ErrorView, EventView, MessageId, ProviderError,
    ProviderErrorKind, StreamEvent,
};
use crate::retry::{counted, granted_wait, Draw, RetryGate, RetryPolicy};
use crate::text::{concat3, decimal, decimal_text, same_text};
use crate::time::{Duration, NANOS_PER_MILLI, NANOS_PER_SEC};

verus! {

/// How long to wait for the parts of a request.
#[derive(Debug, Clone, Copy, PartialEq, Eq, Structural)]
pub struct ProviderTimeouts {
    pub connect: Duration,
    pub request: Duration,
    pub stream_idle: Duration,
}

impl Default for ProviderTimeouts {
    fn default() -> (timeouts: ProviderTimeouts)
        ensures
            timeouts.connect@ == 10 * NANOS_PER_SEC,
            timeouts.request@ == 60 * NANOS_PER_SEC,
            timeouts.stream_idle@ == 60 * NANOS_PER_SEC,
    {
        ProviderTimeouts {
            connect: Duration::from_secs(10),
            request: Duration::from_secs(60),
            stream_idle: Duration::from_secs(60),
        }
    }
}

/// How a provider's requests are guarded.
#[derive(Debug, Clone, Copy, PartialEq, Eq, Structural)]
pub struct ResiliencePolicy {
    pub timeouts: ProviderTimeouts,
    pub request_retry: RetryPolicy,
}

/// The policy where none is given.
pub open spec fn is_default_policy(policy: ResiliencePolicy) -> bool {
    &&& policy.timeouts.connect@ == 10 * NANOS_PER_SEC
    &&& policy.timeouts.request@ == 60 * NANOS_PER_SEC
    &&& policy.timeouts.stream_idle@ == 60 * NANOS_PER_SEC
    &&& policy.request_retry.max_attempts == 5
    &&& policy.request_retry.base_backoff@ == 500 * NANOS_PER_MILLI
    &&& policy.request_retry.max_backoff@ == 30_000 * NANOS_PER_MILLI
    &&& policy.request_retry.deadline@ == 60_000 * NANOS_PER_MILLI
    &&& policy.request_retry.jitter_pct == 25
}

impl Default for ResiliencePolicy {
    fn default() -> (policy: ResiliencePolicy)
        ensures
            is_default_policy(policy),
    {
        ResiliencePolicy {
            timeouts: ProviderTimeouts::default(),
            request_retry: RetryPolicy::default(),
        }
    }
}

/// Decides anew how a provider's error is to be treated.
pub trait ProviderErrorClassifier: Send + Sync {
    fn classify(&self, error: ProviderError) -> (classified: ProviderError);
}

/// Leaves every error as it is.
#[derive(Debug, Default)]
pub struct DefaultProviderErrorClassifier;

impl ProviderErrorClassifier for DefaultProviderErrorClassifier {
    fn classify(&self, error: ProviderError) -> (classified: ProviderError)
        ensures
            classified == error,
    {
        error
    }
}

/// A provider with bounded retries and timeouts around it.
pub struct ResilientProvider<P, C: ?Sized> {
    pub label: &'static str,
    pub inner: Arc<P>,
    pub policy: ResiliencePolicy,
    pub classifier: Arc<C>,
}

impl<P> ResilientProvider<P, DefaultProviderErrorClassifier> {
    /// A guarded provider whose errors are taken as they are.
    pub fn new(label: &'static str, inner: P, policy: ResiliencePolicy) -> (guarded:
        ResilientProvider<P, DefaultProviderErrorClassifier>)
        ensures
            guarded.label == label,
            *guarded.inner == inner,
            guarded.policy == policy,
    {
        ResilientProvider::new_with_classifier(
            label,
            inner,
            policy,
            Arc::new(DefaultProviderErrorClassifier),
        )
    }
}

impl<P, C: ProviderErrorClassifier + ?Sized> ResilientProvider<P, C> {
    /// A guarded provider whose errors the classifier decides on.
    pub fn new_with_classifier(
        label: &'static str,
        inner: P,
        policy: ResiliencePolicy,
        classifier: Arc<C>,
    ) -> (guarded: ResilientProvider<P, C>)
        ensures
            guarded.label == label,
            *guarded.inner == inner,
            guarded.policy == policy,
            guarded.classifier == classifier,
    {
        ResilientProvider { label, inner: Arc::new(inner), policy, classifier }
    }
}

/// What follows a failed attempt.
#[derive(Debug)]
pub enum FailureAction {
    /// Wait, then try again.
    RetryAfter(Duration),
    /// Give the error to the caller.
    Fail(ProviderError),
}

/// The wait before the next attempt, if the error is worth one and the budget
/// allows it.
pub open spec fn next_wait(
    policy: RetryPolicy,
    failures: u32,
    error: ErrorView,
    draw: Draw,
) -> Option<nat> {
    if error.kind.is_retryable() {
        granted_wait(
            policy,
            counted(failures),
            error.backoff_hint,
            draw.checked,
            draw.measured,
            draw.random,
        )
    } else {
        None
    }
}

/// How many failures are counted; an error that is not worth another attempt is
/// not.
pub open spec fn failures_after(failures: u32, error: ErrorView) -> u32 {
    if error.kind.is_retryable() {
        counted(failures)
    } else {
        failures
    }
}

pub open spec fn is_failure_action(action: FailureAction, error: ErrorView, wait: Option<nat>) -> bool {
    match (action, wait) {
        (FailureAction::RetryAfter(span), Some(wait)) => span@ == wait,
        (FailureAction::Fail(failed), None) => failed@ == error,
        _ => false,
    }
}

/// Decides what follows a failed attempt, given the draw.
pub fn retry_or_fail_at(gate: &mut RetryGate, error: ProviderError, draw: Draw) -> (action:
    FailureAction)
    ensures
        final(gate).policy == old(gate).policy,
        final(gate).completed_attempts == failures_after(old(gate).completed_attempts, error@),
        is_failure_action(
            action,
            error@,
            next_wait(old(gate).policy, old(gate).completed_attempts, error@, draw),
        ),
{
    if !error.retryable() {
        return FailureAction::Fail(error);
    }
    match gate.record_failure_at(error.backoff_hint, draw.checked, draw.measured, draw.random) {
        Some(delay) => FailureAction::RetryAfter(delay),
        None => FailureAction::Fail(error),
    }
}

/// The error of an attempt that took too long.
pub open spec fn timeout_error(message: Seq<char>) -> ErrorView {
    ErrorView { message, kind: ProviderErrorKind::Transient, backoff_hint: None }
}

pub open spec fn request_timeout_message(limit: Duration) -> Seq<char> {
    "failed to execute provider request: request timed out after "@ + decimal(limit.whole_secs())
        + "s"@
}

pub open spec fn idle_timeout_message(limit: Duration) -> Seq<char> {
    "failed to execute provider request: stream idle timeout after "@ + decimal(
        limit.whole_secs(),
    ) + "s"@
}

pub open spec fn compact_timeout_message(limit: Duration) -> Seq<char> {
    "failed to compact session: request timed out after "@ + decimal(limit.whole_secs()) + "s"@
}

fn provider_timeout_error(what: &str, limit: Duration) -> (error: ProviderError)
    ensures
        error@ == timeout_error(what@ + decimal(limit.whole_secs()) + "s"@),
{
    ProviderError::with_kind(
        concat3(what, &decimal_text(limit.as_secs()), "s"),
        ProviderErrorKind::Transient,
    )
}

/// An error of setting a stream up: mere words count as a passing fault.
pub fn setup_provider_error(failure: Failure) -> (error: ProviderError)
    ensures
        error@ == failure_error(failure, ProviderErrorKind::Transient),
{
    provider_error_from_failure(failure)
}

/// An error of a compaction: mere words count as final, so that a provider that
/// cannot compact is not asked again.
pub fn compact_provider_error(failure: Failure) -> (error: ProviderError)
    ensures
        error@ == failure_error(failure, ProviderErrorKind::Fatal),
{
    match failure {
        Failure::Typed(error) => error,
        Failure::Untyped(message) => ProviderError::with_kind(message, ProviderErrorKind::Fatal),
    }
}

/// Whether an event is generated content, which puts the attempt past retrying.
/// A warning is not: nothing has been delivered with it.
pub open spec fn commits(event: EventView) -> bool {
    match event {
        EventView::TextDelta { .. } => true,
        EventView::ThinkingDelta { .. } => true,
        EventView::ToolCallStart { .. } => true,
        EventView::ToolArgsDelta { .. } => true,
        EventView::ToolCallEnd { .. } => true,
        EventView::MessageEnd { .. } => true,
        _ => false,
    }
}

pub fn stream_event_commits_attempt(event: &StreamEvent) -> (yes: bool)
    ensures
        yes == commits(event@),
{
    match event {
        StreamEvent::TextDelta { .. } => true,
        StreamEvent::ThinkingDelta { .. } => true,
        StreamEvent::ToolCallStart { .. } => true,
        StreamEvent::ToolArgsDelta { .. } => true,
        StreamEvent::ToolCallEnd { .. } => true,
        StreamEvent::MessageEnd { .. } => true,
        _ => false,
    }
}

/// Lets the start of a message pass once.
#[derive(Debug)]
pub struct CommitDedup {
    seen_message_starts: Vec<MessageId>,
}

/// A repeated start of a message.
pub open spec fn is_repeat(seen: Seq<Seq<char>>, event: EventView) -> bool {
    match event {
        EventView::MessageStart { id } => seen.contains(id),
        _ => false,
    }
}

pub open spec fn seen_after(seen: Seq<Seq<char>>, event: EventView) -> Seq<Seq<char>> {
    match event {
        EventView::MessageStart { id } => if seen.contains(id) {
            seen
        } else {
            seen.push(id)
        },
        _ => seen,
    }
}

/// The messages whose starts have been seen after some events, and the events
/// without repeated starts.
pub open spec fn deduplicated(seen: Seq<Seq<char>>, events: Seq<EventView>) -> (
    Seq<Seq<char>>,
    Seq<EventView>,
)
    decreases events.len(),
{
    if events.len() == 0 {
        (seen, Seq::empty())
    } else {
        let (seen, kept) = deduplicated(seen, events.drop_last());
        let event = events.last();
        (
            seen_after(seen, event),
            if is_repeat(seen, event) {
                kept
            } else {
                kept.push(event)
            },
        )
    }
}

pub open spec fn id_views(ids: Seq<MessageId>) -> Seq<Seq<char>> {
    ids.map_values(|id: MessageId| id.0@)
}

impl View for CommitDedup {
    type V = Seq<Seq<char>>;

    closed spec fn view(&self) -> Seq<Seq<char>> {
        id_views(self.seen_message_starts@)
    }
}

impl Default for CommitDedup {
    fn default() -> (dedup: CommitDedup)
        ensures
            dedup@ == Seq::<Seq<char>>::empty(),
    {
        let dedup = CommitDedup { seen_message_starts: Vec::new() };
        assert(dedup@ =~= Seq::<Seq<char>>::empty());
        dedup
    }
}

impl CommitDedup {
    fn has_seen(&self, id: &str) -> (seen: bool)
        ensures
            seen == self@.contains(id@),
    {
        let mut i: usize = 0;
        while i < self.seen_message_starts.len()
            invariant
                i <= self.seen_message_starts.len(),
                forall|k: int| 0 <= k < i ==> #[trigger] self@[k] != id@,
            decreases self.seen_message_starts.len() - i,
        {
            assert(self@[i as int] == self.seen_message_starts[i as int].0@);
            if same_text(&self.seen_message_starts[i].0, id) {
                return true;
            }
            i += 1;
        }
        false
    }

    /// Whether the event is to pass.
    pub fn allow(&mut self, event: &StreamEvent) -> (pass: bool)
        ensures
            pass == !is_repeat(old(self)@, event@),
            final(self)@ == seen_after(old(self)@, event@),
    {
        if let StreamEvent::MessageStart { id } = event {
            if self.has_seen(&id.0) {
                return false;
            }
            self.seen_message_starts.push(id.clone());
            assert(self@ =~= old(self)@.push(id.0@));
        }
        true
    }

    /// The events that are to pass.
    fn filter(&mut self, events: Vec<StreamEvent>) -> (kept: Vec<StreamEvent>)
        ensures
            (final(self)@, events_view(kept@)) == deduplicated(old(self)@, events_view(events@)),
    {
        let ghost all = events_view(events@);
        let ghost before = self@;
        let mut kept: Vec<StreamEvent> = Vec::new();
        let mut rest = turned_over(events);
        assert(all.subrange(0, 0) =~= Seq::empty());
        assert(events_view(kept@) =~= Seq::empty());
        while rest.len() > 0
            invariant
                rest@.len() <= all.len(),
                forall|k: int|
                    0 <= k < rest@.len() ==> #[trigger] rest@[k]@ == all[all.len() - 1 - k],
                (self@, events_view(kept@)) == deduplicated(
                    before,
                    all.subrange(0, all.len() - rest@.len()),
                ),
            decreases rest.len(),
        {
            let ghost done = all.len() - rest@.len();
            if let Some(event) = rest.pop() {
                assert(event@ == all[done]);
                assert(all.subrange(0, done + 1).drop_last() == all.subrange(0, done));
                assert(all.subrange(0, done + 1).last() == event@);
                if self.allow(&event) {
                    push_event(&mut kept, event);
                }
            }
        }
        assert(all.subrange(0, all.len() as int) == all);
        kept
    }
}

/// What happens while a stream is set up and read.
#[derive(Debug)]
pub enum SessionInput {
    /// The stream could not be set up.
    SetupFailed(ProviderError),
    /// Setting the stream up took too long.
    SetupTimedOut,
    /// The stream brought an event.
    Event(StreamEvent),
    /// The stream broke.
    StreamFailed(ProviderError),
    /// The stream brought nothing for too long.
    IdleTimedOut,
    /// The stream ended.
    Ended,
    /// The caller gave up.
    Cancelled,
}

/// What is to be done about it.
#[derive(Debug)]
pub enum SessionAction {
    /// Pass the events on, and read on.
    Forward(Vec<StreamEvent>),
    /// Wait, then set the stream up again.
    RetryAfter(Duration),
    /// Pass the events on; that was all.
    Finish(Vec<StreamEvent>),
    /// Pass the error on; that was all.
    Fail(ProviderError),
}

pub ghost enum InputView {
    SetupFailed(ErrorView),
    SetupTimedOut,
    Event(EventView),
    StreamFailed(ErrorView),
    IdleTimedOut,
    Ended,
    Cancelled,
}

pub ghost enum ActionView {
    Forward(Seq<EventView>),
    RetryAfter(nat),
    Finish(Seq<EventView>),
    Fail(ErrorView),
}

impl SessionInput {
    pub open spec fn view(&self) -> InputView {
        match self {
            SessionInput::SetupFailed(error) => InputView::SetupFailed(error@),
            SessionInput::SetupTimedOut => InputView::SetupTimedOut,
            SessionInput::Event(event) => InputView::Event(event@),
            SessionInput::StreamFailed(error) => InputView::StreamFailed(error@),
            SessionInput::IdleTimedOut => InputView::IdleTimedOut,
            SessionInput::Ended => InputView::Ended,
            SessionInput::Cancelled => InputView::Cancelled,
        }
    }
}

impl SessionAction {
    pub open spec fn view(&self) -> ActionView {
        match self {
            SessionAction::Forward(events) => ActionView::Forward(events_view(events@)),
            SessionAction::RetryAfter(wait) => ActionView::RetryAfter(wait@),
            SessionAction::Finish(events) => ActionView::Finish(events_view(events@)),
            SessionAction::Fail(error) => ActionView::Fail(error@),
        }
    }
}

/// A stream across its attempts: how many have failed, whether content has been
/// passed on, which events are held back until then, and which messages have
/// been started.
#[derive(Debug)]
pub struct StreamSession {
    timeouts: ProviderTimeouts,
    gate: RetryGate,
    commit_dedup: CommitDedup,
    pending_events: Vec<StreamEvent>,
    committed: bool,
}

pub ghost struct SessionView {
    pub policy: ResiliencePolicy,
    pub failures: u32,
    pub committed: bool,
    pub pending: Seq<EventView>,
    pub seen: Seq<Seq<char>>,
}

pub open spec fn new_session(policy: ResiliencePolicy) -> SessionView {
    SessionView {
        policy,
        failures: 0,
        committed: false,
        pending: Seq::empty(),
        seen: Seq::empty(),
    }
}

/// After a failure: another attempt, where nothing has been passed on, the error
/// is worth it and the budget allows it; the events held back are dropped then.
/// Otherwise the error.
pub open spec fn after_failure(session: SessionView, error: ErrorView, draw: Draw) -> (
    SessionView,
    ActionView,
) {
    if session.committed {
        (session, ActionView::Fail(error))
    } else {
        let failures = failures_after(session.failures, error);
        match next_wait(session.policy.request_retry, session.failures, error, draw) {
            Some(wait) => (
                SessionView { failures, pending: Seq::empty(), ..session },
                ActionView::RetryAfter(wait),
            ),
            None => (SessionView { failures, ..session }, ActionView::Fail(error)),
        }
    }
}

/// After an event: held back until the attempt is committed, passed on from then
/// on, without repeated starts of a message.
pub open spec fn after_event(session: SessionView, event: EventView) -> (SessionView, ActionView) {
    let pending = session.pending.push(event);
    if session.committed || commits(event) {
        let (seen, kept) = deduplicated(session.seen, pending);
        (
            SessionView { committed: true, pending: Seq::empty(), seen, ..session },
            ActionView::Forward(kept),
        )
    } else {
        (SessionView { pending, ..session }, ActionView::Forward(Seq::empty()))
    }
}

/// After the end of the stream: what was held back is passed on.
pub open spec fn after_end(session: SessionView) -> (SessionView, ActionView) {
    let (seen, kept) = deduplicated(session.seen, session.pending);
    (SessionView { pending: Seq::empty(), seen, ..session }, ActionView::Finish(kept))
}

/// One step of a stream.
pub open spec fn step(session: SessionView, input: InputView, draw: Draw) -> (
    SessionView,
    ActionView,
) {
    match input {
        InputView::SetupFailed(error) => after_failure(session, error, draw),
        InputView::SetupTimedOut => after_failure(
            session,
            timeout_error(request_timeout_message(session.policy.timeouts.request)),
            draw,
        ),
        InputView::Event(EventView::Error { error }) => after_failure(session, error, draw),
        InputView::Event(event) => after_event(session, event),
        InputView::StreamFailed(error) => after_failure(session, error, draw),
        InputView::IdleTimedOut => after_failure(
            session,
            timeout_error(idle_timeout_message(session.policy.timeouts.stream_idle)),
            draw,
        ),
        InputView::Ended => after_end(session),
        InputView::Cancelled => (session, ActionView::Fail(cancelled_error())),
    }
}

/// Whether the classifier may turn an error into another.
pub open spec fn may_classify<C: ProviderErrorClassifier + ?Sized>(
    classifier: &C,
    error: ProviderError,
    classified: ProviderError,
) -> bool {
    call_ensures(C::classify, (classifier, error), classified)
}

/// The error that an input carries, if the provider gave one.
pub open spec fn given_error(input: SessionInput) -> Option<ProviderError> {
    match input {
        SessionInput::SetupFailed(error) => Some(error),
        SessionInput::Event(StreamEvent::Error { error }) => Some(error),
        SessionInput::StreamFailed(error) => Some(error),
        _ => None,
    }
}

/// The input with another error in place of its own.
pub open spec fn reclassified(input: InputView, error: ErrorView) -> InputView {
    match input {
        InputView::SetupFailed(_) => InputView::SetupFailed(error),
        InputView::Event(EventView::Error { .. }) => InputView::Event(EventView::Error { error }),
        InputView::StreamFailed(_) => InputView::StreamFailed(error),
        other => other,
    }
}

/// The input as the classifier sees it: its error is what the classifier made of
/// it, and nothing else is changed.
pub open spec fn is_classified<C: ProviderErrorClassifier + ?Sized>(
    classifier: &C,
    input: SessionInput,
    classified: InputView,
) -> bool {
    match given_error(input) {
        Some(given) => exists|error: ProviderError|
            {
                &&& #[trigger] may_classify(classifier, given, error)
                &&& classified == reclassified(input@, error@)
            },
        None => classified == input@,
    }
}

/// Lets the classifier decide anew on the error that an input carries.
pub fn classify_input<C: ProviderErrorClassifier + ?Sized>(classifier: &C, input: SessionInput) -> (
classified: SessionInput)
    ensures
        is_classified(classifier, input, classified@),
{
    match input {
        SessionInput::SetupFailed(error) => {
            let ghost handed = error;
            let error = classifier.classify(error);
            assert(may_classify(classifier, handed, error));
            SessionInput::SetupFailed(error)
        },
        SessionInput::Event(StreamEvent::Error { error }) => {
            let ghost handed = error;
            let error = classifier.classify(error);
            assert(may_classify(classifier, handed, error));
            SessionInput::Event(StreamEvent::Error { error })
        },
        SessionInput::StreamFailed(error) => {
            let ghost handed = error;
            let error = classifier.classify(error);
            assert(may_classify(classifier, handed, error));
            SessionInput::StreamFailed(error)
        },
        other => other,
    }
}

impl View for StreamSession {
    type V = SessionView;

    closed spec fn view(&self) -> SessionView {
        SessionView {
            policy: ResiliencePolicy {
                timeouts: self.timeouts,
                request_retry: self.gate.policy,
            },
            failures: self.gate.completed_attempts,
            committed: self.committed,
            pending: events_view(self.pending_events@),
            seen: self.commit_dedup@,
        }
    }
}

impl StreamSession {
    pub fn new(policy: ResiliencePolicy) -> (session: StreamSession)
        ensures
            session@ == new_session(policy),
    {
        let session = StreamSession {
            timeouts: policy.timeouts,
            gate: RetryGate::new(policy.request_retry),
            commit_dedup: CommitDedup::default(),
            pending_events: Vec::new(),
            committed: false,
        };
        assert(session@.pending =~= Seq::empty());
        session
    }

    /// The number of the attempt that is under way.
    pub fn attempt_id(&self) -> (id: u32)
        ensures
            id == counted(self@.failures),
    {
        self.gate.next_attempt_id()
    }

    fn take_pending(&mut self) -> (events: Vec<StreamEvent>)
        ensures
            events_view(events@) == old(self)@.pending,
            final(self)@ == (SessionView { pending: Seq::empty(), ..old(self)@ }),
    {
        let mut events: Vec<StreamEvent> = Vec::new();
        std::mem::swap(&mut events, &mut self.pending_events);
        assert(self@.pending =~= Seq::empty());
        events
    }

    fn fail_at(&mut self, error: ProviderError, draw: Draw) -> (action: SessionAction)
        ensures
            (final(self)@, action@) == after_failure(old(self)@, error@, draw),
    {
        if self.committed {
            return SessionAction::Fail(error);
        }
        match retry_or_fail_at(&mut self.gate, error, draw) {
            FailureAction::RetryAfter(delay) => {
                self.take_pending();
                SessionAction::RetryAfter(delay)
            },
            FailureAction::Fail(error) => SessionAction::Fail(error),
        }
    }

    fn receive(&mut self, event: StreamEvent) -> (action: SessionAction)
        ensures
            (final(self)@, action@) == after_event(old(self)@, event@),
    {
        let commits_now = stream_event_commits_attempt(&event);
        push_event(&mut self.pending_events, event);
        if self.committed || commits_now {
            let events = self.take_pending();
            let kept = self.commit_dedup.filter(events);
            self.committed = true;
            SessionAction::Forward(kept)
        } else {
            let none: Vec<StreamEvent> = Vec::new();
            assert(events_view(none@) =~= Seq::empty());
            SessionAction::Forward(none)
        }
    }

    /// One step of the stream, given the draw. Errors are taken as they are.
    pub fn step_at(&mut self, input: SessionInput, draw: Draw) -> (action: SessionAction)
        ensures
            (final(self)@, action@) == step(old(self)@, input@, draw),
    {
        match input {
            SessionInput::SetupFailed(error) => self.fail_at(error, draw),
            SessionInput::SetupTimedOut => {
                let error = provider_timeout_error(
                    "failed to execute provider request: request timed out after ",
                    self.timeouts.request,
                );
                self.fail_at(error, draw)
            },
            SessionInput::Event(StreamEvent::Error { error }) => self.fail_at(error, draw),
            SessionInput::Event(event) => self.receive(event),
            SessionInput::StreamFailed(error) => self.fail_at(error, draw),
            SessionInput::IdleTimedOut => {
                let error = provider_timeout_error(
                    "failed to execute provider request: stream idle timeout after ",
                    self.timeouts.stream_idle,
                );
                self.fail_at(error, draw)
            },
            SessionInput::Ended => {
                let events = self.take_pending();
                SessionAction::Finish(self.commit_dedup.filter(events))
            },
            SessionInput::Cancelled => SessionAction::Fail(ProviderError::cancelled()),
        }
    }

    /// One step of the stream: the classifier decides on errors, the clock and
    /// chance on waits.
    pub fn advance<C: ProviderErrorClassifier + ?Sized>(
        &mut self,
        classifier: &C,
        input: SessionInput,
    ) -> (action: SessionAction)
        ensures
            exists|classified: InputView, draw: Draw|
                {
                    &&& #[trigger] is_classified(classifier, input, classified)
                    &&& draw.is_possible()
                    &&& (final(self)@, action@) == #[trigger] step(old(self)@, classified, draw)
                },
    {
        let ghost given = input;
        let classified = classify_input(classifier, input);
        let ghost shown = classified@;
        let draw = self.gate.draw();
        let ghost before = self@;
        let action = self.step_at(classified, draw);
        assert(is_classified(classifier, given, shown));
        assert((self@, action@) == step(before, shown, draw));
        action
    }
}

/// How a compaction failed.
#[derive(Debug)]
pub enum CompactFailure {
    Failed(Failure),
    TimedOut,
}

/// A compaction across its attempts.
#[derive(Debug)]
pub struct CompactSession {
    timeouts: ProviderTimeouts,
    gate: RetryGate,
}

pub ghost struct CompactSessionView {
    pub policy: ResiliencePolicy,
    pub failures: u32,
}

impl View for CompactSession {
    type V = CompactSessionView;

    closed spec fn view(&self) -> CompactSessionView {
        CompactSessionView {
            policy: ResiliencePolicy {
                timeouts: self.timeouts,
                request_retry: self.gate.policy,
            },
            failures: self.gate.completed_attempts,
        }
    }
}

/// A session after a failed attempt, and what follows.
pub open spec fn is_compact_step(
    before: CompactSessionView,
    after: CompactSessionView,
    action: FailureAction,
    error: ErrorView,
    draw: Draw,
) -> bool {
    &&& after.policy == before.policy
    &&& after.failures == failures_after(before.failures, error)
    &&& is_failure_action(
        action,
        error,
        next_wait(before.policy.request_retry, before.failures, error, draw),
    )
}

/// The error of a failed compaction: what the classifier made of the provider's,
/// or that it took too long.
pub open spec fn is_compact_error<C: ProviderErrorClassifier + ?Sized>(
    classifier: &C,
    failure: CompactFailure,
    limit: Duration,
    error: ProviderError,
) -> bool {
    match failure {
        CompactFailure::Failed(failure) => exists|given: ProviderError|
            {
                &&& #[trigger] may_classify(classifier, given, error)
                &&& given@ == failure_error(failure, ProviderErrorKind::Fatal)
            },
        CompactFailure::TimedOut => error@ == timeout_error(compact_timeout_message(limit)),
    }
}

impl CompactSession {
    pub fn new(policy: ResiliencePolicy) -> (session: CompactSession)
        ensures
            session@ == (CompactSessionView { policy, failures: 0 }),
    {
        CompactSession { timeouts: policy.timeouts, gate: RetryGate::new(policy.request_retry) }
    }

    /// The number of the attempt that is under way.
    pub fn attempt_id(&self) -> (id: u32)
        ensures
            id == counted(self@.failures),
    {
        self.gate.next_attempt_id()
    }

    /// Decides what follows a failed attempt, given the draw.
    pub fn fail_at(&mut self, error: ProviderError, draw: Draw) -> (action: FailureAction)
        ensures
            is_compact_step(old(self)@, final(self)@, action, error@, draw),
    {
        retry_or_fail_at(&mut self.gate, error, draw)
    }

    /// Decides what follows a failed attempt: the classifier decides on errors
    /// that the provider gave, the clock and chance on waits.
    pub fn advance<C: ProviderErrorClassifier + ?Sized>(
        &mut self,
        classifier: &C,
        failure: CompactFailure,
    ) -> (action: FailureAction)
        ensures
            exists|error: ProviderError, draw: Draw|
                {
                    &&& #[trigger] is_compact_step(
                        old(self)@,
                        final(self)@,
                        action,
                        error@,
                        draw,
                    )
                    &&& draw.is_possible()
                    &&& #[trigger] is_compact_error(
                        classifier,
                        failure,
                        old(self)@.policy.timeouts.request,
                        error,
                    )
                },
    {
        let ghost given = failure;
        let error = match failure {
            CompactFailure::Failed(failure) => {
                let handed = compact_provider_error(failure);
                let ghost shown = handed;
                let error = classifier.classify(handed);
                assert(may_classify(classifier, shown, error));
                error
            },
            CompactFailure::TimedOut => provider_timeout_error(
                "failed to compact session: request timed out after ",
                self.timeouts.request,
            ),
        };
        let ghost shown = error;
        let draw = self.gate.draw();
        let action = self.fail_at(error, draw);
        assert(is_compact_error(
            classifier,
            given,
            old(self)@.policy.timeouts.request,
            shown,
        ));
        assert(is_compact_step(old(self)@, self@, action, shown@, draw));
        action
    }
}

/// The default classifier leaves every input as it is.
pub proof fn law_default_classifier_changes_nothing(
    classifier: &DefaultProviderErrorClassifier,
    input: SessionInput,
    classified: InputView,
)
    requires
        is_classified(classifier, input, classified),
    ensures
        classified == input@,
{
    if let Some(given) = given_error(input) {
        let error = choose|error: ProviderError|
            {
                &&& #[trigger] may_classify(classifier, given, error)
                &&& classified == reclassified(input@, error@)
            };
        assert(error == given);
    }
}

/// A provider that cannot compact, and says so in mere words, is not asked again.
pub proof fn law_untyped_compaction_failure_is_final(
    message: String,
    before: CompactSessionView,
    after: CompactSessionView,
    action: FailureAction,
    draw: Draw,
)
    requires
        is_compact_step(
            before,
            after,
            action,
            failure_error(Failure::Untyped(message), ProviderErrorKind::Fatal),
            draw,
        ),
    ensures
        action matches FailureAction::Fail(error) && error@.message == message@,
        after.failures == before.failures,
{
}

/// What counts as output: words, thoughts, calls and the end of a message. Anything else
/// can be taken back by another attempt.
pub proof fn law_output_commits(event: EventView)
    ensures
        commits(event) <==> (event is TextDelta || event is ThinkingDelta || event is ToolCallStart
            || event is ToolArgsDelta || event is ToolCallEnd || event is MessageEnd),
{
}

/// Before output, events are held back; with the first output everything held back is
/// passed on, and from then on every event at once.
pub proof fn law_events_are_held_back_until_output(
    session: SessionView,
    event: EventView,
    draw: Draw,
)
    requires
        !(event is Error),
    ensures
        ({
            let (after, action) = step(session, InputView::Event(event), draw);
            let output = event is TextDelta || event is ThinkingDelta || event is ToolCallStart
                || event is ToolArgsDelta || event is ToolCallEnd || event is MessageEnd;
            &&& after.policy == session.policy && after.failures == session.failures
            &&& !session.committed && !output ==> {
                &&& action == ActionView::Forward(Seq::empty())
                &&& after.pending == session.pending.push(event)
                &&& !after.committed && after.seen == session.seen
            }
            &&& session.committed || output ==> {
                &&& action == ActionView::Forward(
                    deduplicated(session.seen, session.pending.push(event)).1,
                )
                &&& after.committed
                &&& after.pending.len() == 0
            }
        }),
{
}

/// Only a message that starts again under an id that was seen is left out.
pub proof fn law_only_repeated_starts_are_left_out(
    seen: Seq<Seq<char>>,
    events: Seq<EventView>,
    event: EventView,
)
    ensures
        deduplicated(seen, Seq::empty()) == (seen, Seq::<EventView>::empty()),
        ({
            let (known, kept) = deduplicated(seen, events);
            let (later, passed) = deduplicated(seen, events.push(event));
            &&& !(event is MessageStart) ==> passed == kept.push(event) && later == known
            &&& event is MessageStart && known.contains(event->MessageStart_id) ==> passed == kept
                && later == known
            &&& event is MessageStart && !known.contains(event->MessageStart_id) ==> passed
                == kept.push(event) && later == known.push(event->MessageStart_id)
        }),
{
    assert(events.push(event).drop_last() =~= events);
}

/// A failure before output is waited for and tried again where it is a passing one or a
/// rate limit and the budget for attempts grants a wait; what was held back is dropped.
/// Every other failure is told as it is.
pub proof fn law_failures_before_output_are_tried_again(
    session: SessionView,
    error: ErrorView,
    draw: Draw,
)
    ensures
        ({
            let (after, action) = step(session, InputView::StreamFailed(error), draw);
            let passing = error.kind == ProviderErrorKind::Transient || error.kind
                == ProviderErrorKind::RateLimited;
            let wait = granted_wait(
                session.policy.request_retry,
                counted(session.failures),
                error.backoff_hint,
                draw.checked,
                draw.measured,
                draw.random,
            );
            &&& step(session, InputView::SetupFailed(error), draw) == (after, action)
            &&& step(session, InputView::Event(EventView::Error { error }), draw) == (after, action)
            &&& after.committed == session.committed && after.policy == session.policy
            &&& session.committed || !passing || wait is None ==> action == ActionView::Fail(error)
            &&& !session.committed && passing && wait is Some ==> action == ActionView::RetryAfter(
                wait->0,
            ) && after.pending.len() == 0
            &&& !session.committed && passing ==> after.failures == counted(session.failures)
            &&& session.committed || !passing ==> after.failures == session.failures
        }),
{
}

/// A limit that ran out is a passing failure that names the limit in whole seconds.
pub proof fn law_limits_are_named(session: SessionView, draw: Draw)
    ensures
        step(session, InputView::SetupTimedOut, draw) == step(
            session,
            InputView::SetupFailed(
                ErrorView {
                    message: "failed to execute provider request: request timed out after "@
                        + decimal(session.policy.timeouts.request.whole_secs()) + "s"@,
                    kind: ProviderErrorKind::Transient,
                    backoff_hint: None,
                },
            ),
            draw,
        ),
        step(session, InputView::IdleTimedOut, draw) == step(
            session,
            InputView::StreamFailed(
                ErrorView {
                    message: "failed to execute provider request: stream idle timeout after "@
                        + decimal(session.policy.timeouts.stream_idle.whole_secs()) + "s"@,
                    kind: ProviderErrorKind::Transient,
                    backoff_hint: None,
                },
            ),
            draw,
        ),
        timeout_error(compact_timeout_message(session.policy.timeouts.request)).message
            == "failed to compact session: request timed out after "@ + decimal(
            session.policy.timeouts.request.whole_secs(),
        ) + "s"@,
{
}

/// A stream that ends passes on what was held back; one that is given up is cancelled.
pub proof fn law_end_passes_on_the_rest(session: SessionView, draw: Draw)
    ensures
        step(session, InputView::Ended, draw).1 == ActionView::Finish(
            deduplicated(session.seen, session.pending).1,
        ),
        step(session, InputView::Ended, draw).0.pending.len() == 0,
        step(session, InputView::Cancelled, draw).1 == ActionView::Fail(
            ErrorView {
                message: "provider request cancelled"@,
                kind: ProviderErrorKind::Cancelled,
                backoff_hint: None,
            },
        ),
        step(session, InputView::Cancelled, draw).0 == session,
{
}

/// By itself a request has ten seconds to connect, a minute to be answered and a minute
/// between two events; it is tried five times at most within a minute, after waits from
/// half a second to half a minute that differ by a quarter.
pub proof fn law_default_limits(policy: ResiliencePolicy)
    requires
        is_default_policy(policy),
    ensures
        policy.timeouts.connect@ == 10_000_000_000,
        policy.timeouts.request@ == 60_000_000_000,
        policy.timeouts.stream_idle@ == 60_000_000_000,
        policy.request_retry.max_attempts == 5,
        policy.request_retry.base_backoff@ == 500_000_000,
        policy.request_retry.max_backoff@ == 30_000_000_000,
        policy.request_retry.deadline@ == 60_000_000_000,
        policy.request_retry.jitter_pct == 25,
{
}

/// A compaction that failed is tried again under the same rule, and fails with its error
/// otherwise.
pub proof fn law_failed_compaction_is_tried_again(
    before: CompactSessionView,
    after: CompactSessionView,
    action: FailureAction,
    error: ErrorView,
    draw: Draw,
)
    requires
        is_compact_step(before, after, action, error, draw),
    ensures
        ({
            let passing = error.kind == ProviderErrorKind::Transient || error.kind
                == ProviderErrorKind::RateLimited;
            let wait = granted_wait(
                before.policy.request_retry,
                counted(before.failures),
                error.backoff_hint,
                draw.checked,
                draw.measured,
                draw.random,
            );
            &&& after.policy == before.policy
            &&& passing && wait is Some ==> (action matches FailureAction::RetryAfter(span)
                && span@ == wait->0)
            &&& !passing || wait is None ==> (action matches FailureAction::Fail(failed) && failed@
                == error)
            &&& passing ==> after.failures == counted(before.failures)
            &&& !passing ==> after.failures == before.failures
        }),
{
}

/// A request that was not made yet has failed never, told nothing and held nothing back.
pub proof fn law_new_session_has_no_past(policy: ResiliencePolicy)
    ensures
        new_session(policy).policy == policy,
        new_session(policy).failures == 0,
        !new_session(policy).committed,
        new_session(policy).pending.len() == 0,
        new_session(policy).seen.len() == 0,
{
}

} // verus!
