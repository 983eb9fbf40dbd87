//! The data that passes between the runtime and the providers.

use vstd::prelude::*;

use crate::json::{items_view, string_view, Json, JsonView};
use crate::time::Duration;

verus! {

#[derive(Debug, PartialEq, Eq)]
pub struct MessageId(pub String);

#[derive(Debug, PartialEq, Eq)]
pub struct BlockId(pub String);

#[derive(Debug, PartialEq, Eq)]
pub struct ToolCallId(pub String);

#[derive(Debug, PartialEq, Eq)]
pub struct ToolName(pub String);

impl Clone for MessageId {
    fn clone(&self) -> (copy: Self)
        ensures
            copy == *self,
    {
        MessageId(self.0.clone())
    }
}

impl Clone for BlockId {
    fn clone(&self) -> (copy: Self)
        ensures
            copy == *self,
    {
        BlockId(self.0.clone())
    }
}

impl Clone for ToolCallId {
    fn clone(&self) -> (copy: Self)
        ensures
            copy == *self,
    {
        ToolCallId(self.0.clone())
    }
}

impl Clone for ToolName {
    fn clone(&self) -> (copy: Self)
        ensures
            copy == *self,
    {
        ToolName(self.0.clone())
    }
}

#[derive(Debug, Clone, Copy, PartialEq, Eq, Structural)]
pub enum ProviderKind {
    OpenAi,
    Anthropic,
    OpenRouter,
}

/// The wire protocol that a model is spoken to in.
#[derive(Debug, Clone, Copy, PartialEq, Eq, Structural)]
pub enum ApiKind {
    OpenAiResponses,
    OpenAiChat,
    AnthropicMessages,
}

#[derive(Debug, Clone, Copy, PartialEq, Eq, Structural)]
pub enum ReasoningEffort {
    Low,
    Medium,
    High,
    Xhigh,
}

#[derive(Debug, Clone, Copy, PartialEq, Eq, Structural)]
pub enum StopReason {
    EndTurn,
    ToolUse,
    MaxTokens,
    Interrupted,
    Error,
}

/// Token counts of one request.
#[derive(Debug, Clone, Copy, PartialEq, Eq, Structural)]
pub struct Usage {
    pub input_tokens: u64,
    pub output_tokens: u64,
    pub cache_creation_input_tokens: u64,
    pub cache_read_input_tokens: u64,
}

pub open spec fn no_usage() -> Usage {
    Usage {
        input_tokens: 0,
        output_tokens: 0,
        cache_creation_input_tokens: 0,
        cache_read_input_tokens: 0,
    }
}

impl Default for Usage {
    fn default() -> (usage: Usage)
        ensures
            usage == no_usage(),
    {
        Usage {
            input_tokens: 0,
            output_tokens: 0,
            cache_creation_input_tokens: 0,
            cache_read_input_tokens: 0,
        }
    }
}

/// How an error is to be treated.
#[derive(Debug, Clone, Copy, PartialEq, Eq, Structural)]
pub enum ProviderErrorKind {
    /// May go away by itself: worth another attempt.
    Transient,
    /// The server asked for less traffic: worth another attempt after a wait.
    RateLimited,
    /// Another attempt would fail the same way.
    Fatal,
    /// The caller gave up.
    Cancelled,
}

impl ProviderErrorKind {
    pub open spec fn is_retryable(self) -> bool {
        self == ProviderErrorKind::Transient || self == ProviderErrorKind::RateLimited
    }
}

/// A failed provider request.
#[derive(Debug, PartialEq, Eq)]
pub struct ProviderError {
    pub message: String,
    pub kind: ProviderErrorKind,
    pub backoff_hint: Option<Duration>,
}

pub ghost struct ErrorView {
    pub message: Seq<char>,
    pub kind: ProviderErrorKind,
    pub backoff_hint: Option<Duration>,
}

pub const CANCELLED_MESSAGE: &'static str = "provider request cancelled";

impl ProviderError {
    pub open spec fn view(&self) -> ErrorView {
        ErrorView { message: self.message@, kind: self.kind, backoff_hint: self.backoff_hint }
    }

    /// An error that is either worth another attempt or not.
    pub fn new(message: String, retryable: bool) -> (error: ProviderError)
        ensures
            error@ == (ErrorView {
                message: message@,
                kind: if retryable {
                    ProviderErrorKind::Transient
                } else {
                    ProviderErrorKind::Fatal
                },
                backoff_hint: None,
            }),
    {
        ProviderError {
            message,
            kind: if retryable {
                ProviderErrorKind::Transient
            } else {
                ProviderErrorKind::Fatal
            },
            backoff_hint: None,
        }
    }

    pub fn with_kind(message: String, kind: ProviderErrorKind) -> (error: ProviderError)
        ensures
            error@ == (ErrorView { message: message@, kind, backoff_hint: None }),
    {
        ProviderError { message, kind, backoff_hint: None }
    }

    pub fn with_backoff_hint(self, backoff_hint: Option<Duration>) -> (error: ProviderError)
        ensures
            error@ == (ErrorView { backoff_hint, ..self@ }),
    {
        ProviderError { message: self.message, kind: self.kind, backoff_hint }
    }

    pub fn cancelled() -> (error: ProviderError)
        ensures
            error@ == cancelled_error(),
    {
        ProviderError {
            message: CANCELLED_MESSAGE.to_owned(),
            kind: ProviderErrorKind::Cancelled,
            backoff_hint: None,
        }
    }

    pub fn retryable(&self) -> (yes: bool)
        ensures
            yes == self.kind.is_retryable(),
    {
        self.kind == ProviderErrorKind::Transient || self.kind == ProviderErrorKind::RateLimited
    }

    pub fn is_cancelled(&self) -> (yes: bool)
        ensures
            yes == (self.kind == ProviderErrorKind::Cancelled),
    {
        self.kind == ProviderErrorKind::Cancelled
    }
}

pub open spec fn cancelled_error() -> ErrorView {
    ErrorView {
        message: CANCELLED_MESSAGE@,
        kind: ProviderErrorKind::Cancelled,
        backoff_hint: None,
    }
}

impl Clone for ProviderError {
    fn clone(&self) -> (copy: Self)
        ensures
            copy == *self,
    {
        ProviderError {
            message: self.message.clone(),
            kind: self.kind,
            backoff_hint: self.backoff_hint,
        }
    }
}

/// A request that could not be built or a reply that could not be read.
#[derive(Debug, PartialEq, Eq)]
pub struct CodecError {
    pub message: String,
}

impl CodecError {
    pub open spec fn view(&self) -> Seq<char> {
        self.message@
    }

    pub fn new(message: &str) -> (error: CodecError)
        ensures
            error@ == message@,
    {
        CodecError { message: message.to_owned() }
    }
}

/// One step of a streamed reply.
#[allow(inconsistent_fields)]
#[derive(Debug, PartialEq, Eq)]
pub enum StreamEvent {
    MessageStart { id: MessageId },
    TextStart { id: BlockId },
    TextDelta { id: BlockId, delta: String },
    TextEnd { id: BlockId },
    ThinkingStart { id: BlockId },
    ThinkingDelta { id: BlockId, delta: String },
    ThinkingEnd { id: BlockId, signature: Option<String> },
    ToolCallStart { id: BlockId, tool_call_id: ToolCallId, name: ToolName },
    ToolArgsDelta { id: BlockId, delta: String },
    ToolCallEnd { id: BlockId },
    UsageUpdate { usage: Usage },
    MessageEnd { id: MessageId, stop_reason: StopReason, response_id: Option<String> },
    Error { error: ProviderError },
    ProviderWarning { message: String },
    Keepalive,
}

pub ghost enum EventView {
    MessageStart { id: Seq<char> },
    TextStart { id: Seq<char> },
    TextDelta { id: Seq<char>, delta: Seq<char> },
    TextEnd { id: Seq<char> },
    ThinkingStart { id: Seq<char> },
    ThinkingDelta { id: Seq<char>, delta: Seq<char> },
    ThinkingEnd { id: Seq<char>, signature: Option<Seq<char>> },
    ToolCallStart { id: Seq<char>, tool_call_id: Seq<char>, name: Seq<char> },
    ToolArgsDelta { id: Seq<char>, delta: Seq<char> },
    ToolCallEnd { id: Seq<char> },
    UsageUpdate { usage: Usage },
    MessageEnd { id: Seq<char>, stop_reason: StopReason, response_id: Option<Seq<char>> },
    Error { error: ErrorView },
    ProviderWarning { message: Seq<char> },
    Keepalive,
}

impl StreamEvent {
    pub open spec fn view(&self) -> EventView {
        match self {
            StreamEvent::MessageStart { id } => EventView::MessageStart { id: id.0@ },
            StreamEvent::TextStart { id } => EventView::TextStart { id: id.0@ },
            StreamEvent::TextDelta { id, delta } => EventView::TextDelta {
                id: id.0@,
                delta: delta@,
            },
            StreamEvent::TextEnd { id } => EventView::TextEnd { id: id.0@ },
            StreamEvent::ThinkingStart { id } => EventView::ThinkingStart { id: id.0@ },
            StreamEvent::ThinkingDelta { id, delta } => EventView::ThinkingDelta {
                id: id.0@,
                delta: delta@,
            },
            StreamEvent::ThinkingEnd { id, signature } => EventView::ThinkingEnd {
                id: id.0@,
                signature: string_view(*signature),
            },
            StreamEvent::ToolCallStart { id, tool_call_id, name } => EventView::ToolCallStart {
                id: id.0@,
                tool_call_id: tool_call_id.0@,
                name: name.0@,
            },
            StreamEvent::ToolArgsDelta { id, delta } => EventView::ToolArgsDelta {
                id: id.0@,
                delta: delta@,
            },
            StreamEvent::ToolCallEnd { id } => EventView::ToolCallEnd { id: id.0@ },
            StreamEvent::UsageUpdate { usage } => EventView::UsageUpdate { usage: *usage },
            StreamEvent::MessageEnd { id, stop_reason, response_id } => EventView::MessageEnd {
                id: id.0@,
                stop_reason: *stop_reason,
                response_id: string_view(*response_id),
            },
            StreamEvent::Error { error } => EventView::Error { error: error@ },
            StreamEvent::ProviderWarning { message } => EventView::ProviderWarning {
                message: message@,
            },
            StreamEvent::Keepalive => EventView::Keepalive,
        }
    }
}

pub open spec fn events_view(events: Seq<StreamEvent>) -> Seq<EventView> {
    events.map_values(|event: StreamEvent| event@)
}

/// Appends an event.
pub fn push_event(events: &mut Vec<StreamEvent>, event: StreamEvent)
    ensures
        events_view(final(events)@) == events_view(old(events)@).push(event@),
{
    events.push(event);
    assert(events_view(events@) =~= events_view(old(events)@).push(event@));
}

/// The events in opposite order, so that they can be taken off the end in order.
pub fn turned_over(events: Vec<StreamEvent>) -> (turned: Vec<StreamEvent>)
    ensures
        turned@.len() == events@.len(),
        forall|k: int|
            0 <= k < turned@.len() ==> #[trigger] turned@[k] == events@[events@.len() - 1 - k],
{
    let ghost all = events@;
    let mut events = events;
    let mut turned: Vec<StreamEvent> = Vec::new();
    while events.len() > 0
        invariant
            events@.len() + turned@.len() == all.len(),
            forall|k: int| 0 <= k < events@.len() ==> #[trigger] events@[k] == all[k],
            forall|k: int|
                0 <= k < turned@.len() ==> #[trigger] turned@[k] == all[all.len() - 1 - k],
        decreases events.len(),
    {
        if let Some(event) = events.pop() {
            turned.push(event);
        }
    }
    turned
}

/// A step of a streamed reply, or what ended it.
pub open spec fn outcome_view(outcome: Result<StreamEvent, ProviderError>) -> Result<
    EventView,
    ErrorView,
> {
    match outcome {
        Ok(event) => Ok(event@),
        Err(error) => Err(error@),
    }
}

pub open spec fn outcomes_view(outcomes: Seq<Result<StreamEvent, ProviderError>>) -> Seq<
    Result<EventView, ErrorView>,
> {
    outcomes.map_values(|outcome: Result<StreamEvent, ProviderError>| outcome_view(outcome))
}

/// Appends an outcome.
pub fn push_outcome(
    outcomes: &mut Vec<Result<StreamEvent, ProviderError>>,
    outcome: Result<StreamEvent, ProviderError>,
)
    ensures
        outcomes_view(final(outcomes)@) == outcomes_view(old(outcomes)@).push(
            outcome_view(outcome),
        ),
{
    outcomes.push(outcome);
    assert(outcomes_view(outcomes@) =~= outcomes_view(old(outcomes)@).push(outcome_view(outcome)));
}

/// A stream that holds nothing but an error.
pub fn single_error(error: ProviderError) -> (outcomes: Vec<Result<StreamEvent, ProviderError>>)
    ensures
        outcomes_view(outcomes@) == seq![Err::<EventView, ErrorView>(error@)],
{
    let mut outcomes: Vec<Result<StreamEvent, ProviderError>> = Vec::new();
    assert(outcomes_view(outcomes@) =~= Seq::empty());
    push_outcome(&mut outcomes, Err(error));
    outcomes
}

/// Events as outcomes: an event that reports an error counts as the error.
pub open spec fn with_errors_raised(events: Seq<EventView>) -> Seq<Result<EventView, ErrorView>> {
    events.map_values(
        |event: EventView|
            match event {
                EventView::Error { error } => Err::<EventView, ErrorView>(error),
                event => Ok(event),
            },
    )
}

/// Events as they are.
pub open spec fn as_outcomes(events: Seq<EventView>) -> Seq<Result<EventView, ErrorView>> {
    events.map_values(|event: EventView| Ok::<EventView, ErrorView>(event))
}

/// Events as outcomes, in order; where `raise` is set, an event that reports an
/// error becomes the error.
pub fn outcomes_of(events: Vec<StreamEvent>, raise: bool) -> (outcomes: Vec<
    Result<StreamEvent, ProviderError>,
>)
    ensures
        outcomes_view(outcomes@) == if raise {
            with_errors_raised(events_view(events@))
        } else {
            as_outcomes(events_view(events@))
        },
{
    let ghost all = events_view(events@);
    let mut turned = turned_over(events);
    let mut outcomes: Vec<Result<StreamEvent, ProviderError>> = Vec::new();
    while turned.len() > 0
        invariant
            outcomes@.len() + turned@.len() == all.len(),
            forall|k: int|
                0 <= k < turned@.len() ==> #[trigger] turned@[k]@ == all[all.len() - 1 - k],
            forall|k: int|
                0 <= k < outcomes@.len() ==> outcome_view(#[trigger] outcomes@[k]) == if raise {
                    with_errors_raised(all)[k]
                } else {
                    as_outcomes(all)[k]
                },
        decreases turned.len(),
    {
        let ghost done = all.len() - turned@.len();
        if let Some(event) = turned.pop() {
            assert(event@ == all[done]);
            match event {
                StreamEvent::Error { error } => if raise {
                    outcomes.push(Err(error));
                } else {
                    outcomes.push(Ok(StreamEvent::Error { error }));
                },
                event => {
                    assert(with_errors_raised(all)[done] == Ok::<EventView, ErrorView>(all[done]));
                    outcomes.push(Ok(event));
                },
            }
        }
    }
    if raise {
        assert(outcomes_view(outcomes@) =~= with_errors_raised(all));
    } else {
        assert(outcomes_view(outcomes@) =~= as_outcomes(all));
    }
    outcomes
}

/// Bytes of an attachment, few enough that their base64 text fits in memory.
#[derive(Debug)]
pub struct MediaBytes {
    bytes: Vec<u8>,
}

pub open spec fn media_limit() -> nat {
    (usize::MAX / 8 * 3) as nat
}

impl View for MediaBytes {
    type V = Seq<u8>;

    closed spec fn view(&self) -> Seq<u8> {
        self.bytes@
    }
}

impl MediaBytes {
    #[verifier::type_invariant]
    spec fn fits(self) -> bool {
        self.bytes@.len() <= media_limit()
    }

    /// The bytes as an attachment, unless there are too many.
    pub fn new(bytes: Vec<u8>) -> (media: Option<MediaBytes>)
        ensures
            match media {
                Some(media) => media@ == bytes@ && bytes@.len() <= media_limit(),
                None => bytes@.len() > media_limit(),
            },
    {
        if bytes.len() <= usize::MAX / 8 * 3 {
            Some(MediaBytes { bytes })
        } else {
            None
        }
    }

    pub fn duplicate(&self) -> (copy: MediaBytes)
        ensures
            copy@ == self@,
    {
        proof {
            use_type_invariant(self);
        }
        let mut bytes: Vec<u8> = Vec::new();
        let mut i: usize = 0;
        while i < self.bytes.len()
            invariant
                i <= self.bytes.len(),
                bytes@ == self.bytes@.subrange(0, i as int),
            decreases self.bytes.len() - i,
        {
            bytes.push(self.bytes[i]);
            i += 1;
        }
        assert(self.bytes@.subrange(0, i as int) == self.bytes@);
        MediaBytes { bytes }
    }

    pub fn as_slice(&self) -> (bytes: &[u8])
        ensures
            bytes@ == self@,
            bytes@.len() <= media_limit(),
    {
        proof {
            use_type_invariant(self);
        }
        self.bytes.as_slice()
    }
}

#[derive(Debug)]
pub enum UserPart {
    Text { text: String },
    Image { media_type: String, data: MediaBytes },
    Document { media_type: String, data: MediaBytes },
}

#[derive(Debug)]
pub struct SystemMessage {
    pub text: String,
}

#[derive(Debug)]
pub struct UserMessage {
    pub id: MessageId,
    pub parts: Vec<UserPart>,
}

#[derive(Debug)]
pub struct ThinkingBlock {
    pub text: String,
    pub signature: Option<String>,
}

#[derive(Debug)]
pub struct ToolCall {
    pub id: ToolCallId,
    pub name: ToolName,
    pub arguments: Json,
}

#[derive(Debug)]
pub enum AssistantPart {
    Text { text: String },
    Thinking(ThinkingBlock),
    ToolCall(ToolCall),
}

#[derive(Debug)]
pub struct AssistantMessage {
    pub id: MessageId,
    pub parts: Vec<AssistantPart>,
}

#[derive(Debug)]
pub enum ToolResult {
    Empty,
    Text { text: String },
    Json { value: Json },
}

#[derive(Debug)]
pub struct ToolError {
    pub message: String,
}

#[derive(Debug)]
pub struct ToolResultMessage {
    pub call_id: ToolCallId,
    pub content: ToolResult,
    pub error: Option<ToolError>,
}

#[derive(Debug)]
pub enum Message {
    System(SystemMessage),
    User(UserMessage),
    Assistant(AssistantMessage),
    Tool(ToolResultMessage),
}

/// The name that one provider knows a tool by.
#[derive(Debug)]
pub struct ToolAlias {
    pub provider_kind: ProviderKind,
    pub alias: String,
}

#[derive(Debug)]
pub struct ToolSpec {
    pub name: ToolName,
    pub description: String,
    pub input_schema: Json,
    /// At most one alias for each provider kind; the first one counts.
    pub provider_aliases: Vec<ToolAlias>,
}

#[derive(Debug)]
pub struct ResolvedModel {
    pub id: String,
    pub provider: String,
    pub provider_kind: ProviderKind,
    pub api_kind: ApiKind,
    pub model: String,
    pub max_input_tokens: Option<u32>,
    pub max_output_tokens: Option<u32>,
    pub reasoning: Option<ReasoningEffort>,
    pub tokens_per_minute: Option<u64>,
}

impl Clone for ResolvedModel {
    fn clone(&self) -> (copy: Self)
        ensures
            copy == *self,
    {
        ResolvedModel {
            id: self.id.clone(),
            provider: self.provider.clone(),
            provider_kind: self.provider_kind,
            api_kind: self.api_kind,
            model: self.model.clone(),
            max_input_tokens: self.max_input_tokens,
            max_output_tokens: self.max_output_tokens,
            reasoning: self.reasoning,
            tokens_per_minute: self.tokens_per_minute,
        }
    }
}

/// Where the runtime wants the prompt prefix pinned in the provider's cache.
#[derive(Debug, Clone, Copy, PartialEq, Eq, Structural)]
pub struct CacheBreakpoints {
    pub after_system: bool,
    pub after_skills: bool,
    pub after_tools: bool,
    pub after_user_prompt: bool,
}

/// The assembled prompt: its segments in order, system segments first, then
/// skill segments, then everything that was appended.
#[derive(Debug)]
pub struct AssembledPrompt {
    pub ordered_segments: Vec<String>,
    pub prefix_cache_key: String,
    pub rendered_prefix: String,
    pub cache_breakpoints: CacheBreakpoints,
    pub system_segment_count: usize,
    pub skill_segment_count: usize,
}

#[derive(Debug)]
pub struct ProviderRequest {
    pub model: ResolvedModel,
    pub prompt: AssembledPrompt,
    pub compacted_prefix: Vec<Json>,
    pub messages: Vec<Message>,
    pub tools: Vec<ToolSpec>,
    pub previous_response_id: Option<String>,
    pub new_messages_start: usize,
}

#[derive(Debug)]
pub struct ProviderCompactionRequest {
    pub session_id: String,
    pub model: ResolvedModel,
    pub compacted_prefix: Vec<Json>,
    pub messages: Vec<Message>,
    pub tools: Vec<ToolSpec>,
    pub instructions: String,
}

#[derive(Debug)]
pub struct ProviderCompactionResponse {
    pub output: Vec<Json>,
    pub usage: Usage,
}

pub ghost struct CompactionView {
    pub output: Seq<JsonView>,
    pub usage: Usage,
}

impl ProviderCompactionResponse {
    pub open spec fn view(&self) -> CompactionView {
        CompactionView { output: items_view(self.output@), usage: self.usage }
    }
}

/// Nothing of an event is left out of what is seen of it.
pub proof fn law_events_are_seen_whole(event: StreamEvent)
    ensures
        match event {
            StreamEvent::MessageStart { id } => event@ == (EventView::MessageStart { id: id.0@ }),
            StreamEvent::TextDelta { id, delta } => event@ == (EventView::TextDelta {
                id: id.0@,
                delta: delta@,
            }),
            StreamEvent::ThinkingDelta { id, delta } => event@ == (EventView::ThinkingDelta {
                id: id.0@,
                delta: delta@,
            }),
            StreamEvent::ThinkingEnd { id, signature } => event@ == (EventView::ThinkingEnd {
                id: id.0@,
                signature: string_view(signature),
            }),
            StreamEvent::ToolCallStart { id, tool_call_id, name } => event@ == (
            EventView::ToolCallStart { id: id.0@, tool_call_id: tool_call_id.0@, name: name.0@ }),
            StreamEvent::ToolArgsDelta { id, delta } => event@ == (EventView::ToolArgsDelta {
                id: id.0@,
                delta: delta@,
            }),
            StreamEvent::UsageUpdate { usage } => event@ == (EventView::UsageUpdate { usage }),
            StreamEvent::MessageEnd { id, stop_reason, response_id } => event@ == (
            EventView::MessageEnd {
                id: id.0@,
                stop_reason,
                response_id: string_view(response_id),
            }),
            StreamEvent::Error { error } => event@ == (EventView::Error {
                error: ErrorView {
                    message: error.message@,
                    kind: error.kind,
                    backoff_hint: error.backoff_hint,
                },
            }),
            StreamEvent::TextStart { id } => event@ == (EventView::TextStart { id: id.0@ }),
            StreamEvent::TextEnd { id } => event@ == (EventView::TextEnd { id: id.0@ }),
            StreamEvent::ThinkingStart { id } => event@ == (EventView::ThinkingStart { id: id.0@ }),
            StreamEvent::ToolCallEnd { id } => event@ == (EventView::ToolCallEnd { id: id.0@ }),
            StreamEvent::ProviderWarning { message } => event@ == (EventView::ProviderWarning {
                message: message@,
            }),
            StreamEvent::Keepalive => event@ == EventView::Keepalive,
        },
{
}

/// Errors among events are raised in their place, everything else is passed on as it is.
pub proof fn law_errors_are_raised_in_their_place(events: Seq<EventView>, i: int)
    requires
        0 <= i < events.len(),
    ensures
        with_errors_raised(events).len() == events.len(),
        events[i] is Error ==> with_errors_raised(events)[i] == Err::<EventView, ErrorView>(
            events[i]->Error_error,
        ),
        !(events[i] is Error) ==> with_errors_raised(events)[i] == Ok::<EventView, ErrorView>(
            events[i],
        ),
{
}

/// What is worth another attempt: a passing failure and a rate limit.
pub proof fn law_kinds_worth_another_attempt()
    ensures
        ProviderErrorKind::Transient.is_retryable(),
        ProviderErrorKind::RateLimited.is_retryable(),
        !ProviderErrorKind::Fatal.is_retryable(),
        !ProviderErrorKind::Cancelled.is_retryable(),
        cancelled_error().message == "provider request cancelled"@,
        cancelled_error().kind == ProviderErrorKind::Cancelled,
        cancelled_error().backoff_hint is None,
{
}

} // verus!
