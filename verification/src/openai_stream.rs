//! Turns the events of a streamed Responses reply into stream events.

use vstd::prelude::*;

use crate::codec_common::{
    canonical_name, canonical_tool_name, duplicate_tool_specs, tool_names, ToolNames,
};
use crate::ids::{IdSource, IdsView};
use crate::json::{str_view, string_view};
use crate::openai_codec::{
    is_message_item_id, is_responses_message_item_id, synthesized_message_id,
    synthesized_responses_message_id,
};
use crate::protocol::{
    events_view, push_event, BlockId, CodecError, EventView, MessageId, ProviderKind,
    ProviderRequest, StopReason, StreamEvent, ToolCallId, ToolSpec, Usage,
};
use crate::text::{
    concat2, concat3, decimal, decimal_text, has_prefix, join, joined, push_piece, same_text,
    starts_with, views,
};

verus! {

// ---------------------------------------------------------------------------
// The reply's events, as plain data

#[derive(Debug)]
pub enum OutputMessageContent {
    OutputText(String),
    Refusal(String),
}

#[derive(Debug)]
pub struct OutputMessage {
    pub id: String,
    pub content: Vec<OutputMessageContent>,
}

#[derive(Debug)]
pub struct ReasoningItem {
    pub summary: Vec<String>,
    pub content: Option<Vec<String>>,
    pub encrypted_content: Option<String>,
}

#[derive(Debug)]
pub struct FunctionToolCall {
    pub id: Option<String>,
    pub call_id: String,
    pub name: String,
    pub arguments: String,
}

#[derive(Debug)]
pub enum OutputItem {
    Message(OutputMessage),
    Reasoning(ReasoningItem),
    FunctionCall(FunctionToolCall),
    /// An item of any other kind; nothing is read from it.
    Other,
}

#[derive(Debug)]
pub struct ResponseUsage {
    pub input_tokens: u32,
    pub output_tokens: u32,
    pub cached_tokens: u32,
}

#[derive(Debug)]
pub struct Response {
    pub id: String,
    pub usage: Option<ResponseUsage>,
    pub incomplete_reason: Option<String>,
    pub error_message: Option<String>,
}

/// One event of a streamed reply.
#[derive(Debug)]
pub enum ResponseStreamEvent {
    ResponseCreated { response: Response },
    ResponseOutputItemAdded { output_index: u32, item: OutputItem },
    ResponseOutputTextDelta { delta: String },
    ResponseOutputTextDone { text: String },
    ResponseRefusalDelta { delta: String },
    ResponseRefusalDone { refusal: String },
    ResponseReasoningSummaryPartAdded,
    ResponseReasoningSummaryTextDelta { delta: String },
    ResponseReasoningSummaryTextDone { text: String },
    ResponseReasoningTextDelta { delta: String },
    ResponseReasoningTextDone { text: String },
    ResponseFunctionCallArgumentsDelta { item_id: String, delta: String },
    ResponseFunctionCallArgumentsDone { item_id: String, arguments: String },
    ResponseOutputItemDone { output_index: u32, item: OutputItem },
    ResponseCompleted { response: Response },
    ResponseIncomplete { response: Response },
    ResponseFailed { response: Response },
    ResponseError { message: String },
    /// An event of any other kind; nothing is read from it.
    Other,
}

// The same as mathematical values

pub ghost enum ContentView {
    OutputText(Seq<char>),
    Refusal(Seq<char>),
}

pub ghost struct OutputMessageView {
    pub id: Seq<char>,
    pub content: Seq<ContentView>,
}

pub ghost struct ReasoningItemView {
    pub summary: Seq<Seq<char>>,
    pub content: Option<Seq<Seq<char>>>,
    pub encrypted_content: Option<Seq<char>>,
}

pub ghost struct FunctionCallView {
    pub id: Option<Seq<char>>,
    pub call_id: Seq<char>,
    pub name: Seq<char>,
    pub arguments: Seq<char>,
}

pub ghost enum ItemView {
    Message(OutputMessageView),
    Reasoning(ReasoningItemView),
    FunctionCall(FunctionCallView),
    Other,
}

pub ghost struct ResponseView {
    pub id: Seq<char>,
    pub usage: Option<ResponseUsage>,
    pub incomplete_reason: Option<Seq<char>>,
    pub error_message: Option<Seq<char>>,
}

pub ghost enum ReplyView {
    ResponseCreated { response: ResponseView },
    ResponseOutputItemAdded { output_index: u32, item: ItemView },
    ResponseOutputTextDelta { delta: Seq<char> },
    ResponseOutputTextDone { text: Seq<char> },
    ResponseRefusalDelta { delta: Seq<char> },
    ResponseRefusalDone { refusal: Seq<char> },
    ResponseReasoningSummaryPartAdded,
    ResponseReasoningSummaryTextDelta { delta: Seq<char> },
    ResponseReasoningSummaryTextDone { text: Seq<char> },
    ResponseReasoningTextDelta { delta: Seq<char> },
    ResponseReasoningTextDone { text: Seq<char> },
    ResponseFunctionCallArgumentsDelta { item_id: Seq<char>, delta: Seq<char> },
    ResponseFunctionCallArgumentsDone { item_id: Seq<char>, arguments: Seq<char> },
    ResponseOutputItemDone { output_index: u32, item: ItemView },
    ResponseCompleted { response: ResponseView },
    ResponseIncomplete { response: ResponseView },
    ResponseFailed { response: ResponseView },
    ResponseError { message: Seq<char> },
    Other,
}

impl OutputMessageContent {
    pub open spec fn view(&self) -> ContentView {
        match self {
            OutputMessageContent::OutputText(text) => ContentView::OutputText(text@),
            OutputMessageContent::Refusal(refusal) => ContentView::Refusal(refusal@),
        }
    }
}

pub open spec fn contents_view(content: Seq<OutputMessageContent>) -> Seq<ContentView> {
    content.map_values(|piece: OutputMessageContent| piece@)
}

impl ReasoningItem {
    pub open spec fn view(&self) -> ReasoningItemView {
        ReasoningItemView {
            summary: views(self.summary@),
            content: match self.content {
                Some(content) => Some(views(content@)),
                None => None,
            },
            encrypted_content: string_view(self.encrypted_content),
        }
    }
}

impl FunctionToolCall {
    pub open spec fn view(&self) -> FunctionCallView {
        FunctionCallView {
            id: string_view(self.id),
            call_id: self.call_id@,
            name: self.name@,
            arguments: self.arguments@,
        }
    }
}

impl OutputItem {
    pub open spec fn view(&self) -> ItemView {
        match self {
            OutputItem::Message(message) => ItemView::Message(
                OutputMessageView {
                    id: message.id@,
                    content: contents_view(message.content@),
                },
            ),
            OutputItem::Reasoning(reasoning) => ItemView::Reasoning(reasoning@),
            OutputItem::FunctionCall(call) => ItemView::FunctionCall(call@),
            OutputItem::Other => ItemView::Other,
        }
    }
}

impl Response {
    pub open spec fn view(&self) -> ResponseView {
        ResponseView {
            id: self.id@,
            usage: self.usage,
            incomplete_reason: string_view(self.incomplete_reason),
            error_message: string_view(self.error_message),
        }
    }
}

impl ResponseStreamEvent {
    pub open spec fn view(&self) -> ReplyView {
        match self {
            ResponseStreamEvent::ResponseCreated { response } => ReplyView::ResponseCreated {
                response: response@,
            },
            ResponseStreamEvent::ResponseOutputItemAdded { output_index, item } =>
                ReplyView::ResponseOutputItemAdded { output_index: *output_index, item: item@ },
            ResponseStreamEvent::ResponseOutputTextDelta { delta } =>
                ReplyView::ResponseOutputTextDelta { delta: delta@ },
            ResponseStreamEvent::ResponseOutputTextDone { text } =>
                ReplyView::ResponseOutputTextDone { text: text@ },
            ResponseStreamEvent::ResponseRefusalDelta { delta } =>
                ReplyView::ResponseRefusalDelta { delta: delta@ },
            ResponseStreamEvent::ResponseRefusalDone { refusal } =>
                ReplyView::ResponseRefusalDone { refusal: refusal@ },
            ResponseStreamEvent::ResponseReasoningSummaryPartAdded =>
                ReplyView::ResponseReasoningSummaryPartAdded,
            ResponseStreamEvent::ResponseReasoningSummaryTextDelta { delta } =>
                ReplyView::ResponseReasoningSummaryTextDelta { delta: delta@ },
            ResponseStreamEvent::ResponseReasoningSummaryTextDone { text } =>
                ReplyView::ResponseReasoningSummaryTextDone { text: text@ },
            ResponseStreamEvent::ResponseReasoningTextDelta { delta } =>
                ReplyView::ResponseReasoningTextDelta { delta: delta@ },
            ResponseStreamEvent::ResponseReasoningTextDone { text } =>
                ReplyView::ResponseReasoningTextDone { text: text@ },
            ResponseStreamEvent::ResponseFunctionCallArgumentsDelta { item_id, delta } =>
                ReplyView::ResponseFunctionCallArgumentsDelta {
                    item_id: item_id@,
                    delta: delta@,
                },
            ResponseStreamEvent::ResponseFunctionCallArgumentsDone { item_id, arguments } =>
                ReplyView::ResponseFunctionCallArgumentsDone {
                    item_id: item_id@,
                    arguments: arguments@,
                },
            ResponseStreamEvent::ResponseOutputItemDone { output_index, item } =>
                ReplyView::ResponseOutputItemDone { output_index: *output_index, item: item@ },
            ResponseStreamEvent::ResponseCompleted { response } => ReplyView::ResponseCompleted {
                response: response@,
            },
            ResponseStreamEvent::ResponseIncomplete { response } => ReplyView::ResponseIncomplete {
                response: response@,
            },
            ResponseStreamEvent::ResponseFailed { response } => ReplyView::ResponseFailed {
                response: response@,
            },
            ResponseStreamEvent::ResponseError { message } => ReplyView::ResponseError {
                message: message@,
            },
            ResponseStreamEvent::Other => ReplyView::Other,
        }
    }
}

// ---------------------------------------------------------------------------
// The decoder

/// Whether a reasoning block streams its summary or its full text.
#[derive(Debug, Clone, Copy, PartialEq, Eq, Structural)]
pub enum ReasoningStreamMode {
    Summary,
    Text,
}

#[derive(Debug)]
pub struct PendingTextBlock {
    pub id: BlockId,
    pub text: String,
}

#[derive(Debug)]
pub struct PendingReasoningBlock {
    pub id: BlockId,
    pub text: String,
    pub mode: Option<ReasoningStreamMode>,
    pub summary_started: bool,
}

#[derive(Debug)]
pub struct PendingToolCallBlock {
    pub item_key: String,
    pub id: BlockId,
    pub arguments: String,
}

/// Reads one streamed reply, event by event.
#[derive(Debug)]
pub struct ResponsesStreamDecoder {
    pub tool_specs: Vec<ToolSpec>,
    pub provider_kind: ProviderKind,
    pub track_response_id: bool,
    pub response_id: Option<String>,
    pub message_id: Option<MessageId>,
    pub started: bool,
    pub saw_tool_call: bool,
    pub active_text: Option<PendingTextBlock>,
    pub active_reasoning: Option<PendingReasoningBlock>,
    pub active_tool_calls: Vec<PendingToolCallBlock>,
    pub completed_tool_calls: Vec<String>,
}

pub ghost struct TextView {
    pub id: Seq<char>,
    pub text: Seq<char>,
}

pub ghost struct ReasoningView {
    pub id: Seq<char>,
    pub text: Seq<char>,
    pub mode: Option<ReasoningStreamMode>,
    pub summary_started: bool,
}

pub ghost struct CallView {
    pub item_key: Seq<char>,
    pub id: Seq<char>,
    pub arguments: Seq<char>,
}

/// What a decoder knows between two events.
pub ghost struct ResponsesState {
    pub names: Seq<ToolNames>,
    pub track_response_id: bool,
    pub response_id: Option<Seq<char>>,
    pub message_id: Option<Seq<char>>,
    pub started: bool,
    pub saw_tool_call: bool,
    pub text: Option<TextView>,
    pub reasoning: Option<ReasoningView>,
    pub active: Seq<CallView>,
    pub completed: Seq<Seq<char>>,
}

pub open spec fn text_view(block: Option<PendingTextBlock>) -> Option<TextView> {
    match block {
        Some(block) => Some(TextView { id: block.id.0@, text: block.text@ }),
        None => None,
    }
}

pub open spec fn reasoning_view(block: Option<PendingReasoningBlock>) -> Option<ReasoningView> {
    match block {
        Some(block) => Some(
            ReasoningView {
                id: block.id.0@,
                text: block.text@,
                mode: block.mode,
                summary_started: block.summary_started,
            },
        ),
        None => None,
    }
}

pub open spec fn call_view(block: PendingToolCallBlock) -> CallView {
    CallView { item_key: block.item_key@, id: block.id.0@, arguments: block.arguments@ }
}

pub open spec fn calls_view(blocks: Seq<PendingToolCallBlock>) -> Seq<CallView> {
    blocks.map_values(|block: PendingToolCallBlock| call_view(block))
}

pub open spec fn id_view(id: Option<MessageId>) -> Option<Seq<char>> {
    match id {
        Some(id) => Some(id.0@),
        None => None,
    }
}

impl ResponsesStreamDecoder {
    pub open spec fn view(&self) -> ResponsesState {
        ResponsesState {
            names: tool_names(self.tool_specs@, self.provider_kind),
            track_response_id: self.track_response_id,
            response_id: string_view(self.response_id),
            message_id: id_view(self.message_id),
            started: self.started,
            saw_tool_call: self.saw_tool_call,
            text: text_view(self.active_text),
            reasoning: reasoning_view(self.active_reasoning),
            active: calls_view(self.active_tool_calls@),
            completed: views(self.completed_tool_calls@),
        }
    }
}

/// A decoder at work on one event: its state, the identifiers that are left and
/// the stream events so far.
pub ghost struct Run {
    pub state: ResponsesState,
    pub ids: IdsView,
    pub events: Seq<EventView>,
}

impl Run {
    pub open spec fn say(self, event: EventView) -> Run {
        Run { events: self.events.push(event), ..self }
    }

    pub open spec fn with(self, state: ResponsesState) -> Run {
        Run { state, ..self }
    }
}

pub open spec fn stripped(full: Seq<char>, prefix: Seq<char>) -> Option<Seq<char>> {
    if has_prefix(full, prefix) {
        Some(full.subrange(prefix.len() as int, full.len() as int))
    } else {
        None
    }
}

// Text blocks

pub open spec fn close_text(run: Run) -> Run {
    match run.state.text {
        Some(block) => run.with(ResponsesState { text: None, ..run.state }).say(
            EventView::TextEnd { id: block.id },
        ),
        None => run,
    }
}

pub open spec fn open_text(run: Run) -> Run {
    let run = close_text(run);
    let id = run.ids.fresh();
    Run {
        state: ResponsesState { text: Some(TextView { id, text: Seq::empty() }), ..run.state },
        ids: run.ids.advanced(),
        events: run.events.push(EventView::TextStart { id }),
    }
}

/// Adds to the open text block.
pub open spec fn extend_text(run: Run, delta: Seq<char>) -> Run {
    match run.state.text {
        Some(block) if delta.len() > 0 => run.with(
            ResponsesState {
                text: Some(TextView { id: block.id, text: block.text + delta }),
                ..run.state
            },
        ).say(EventView::TextDelta { id: block.id, delta }),
        _ => run,
    }
}

/// Adds text, in a new block where none is open.
pub open spec fn push_text(run: Run, delta: Seq<char>) -> Run {
    if delta.len() == 0 {
        run
    } else if run.state.text is None {
        extend_text(open_text(run), delta)
    } else {
        extend_text(run, delta)
    }
}

/// Closes the open text block, first adding what the full text has beyond it.
pub open spec fn finish_text(run: Run, full: Seq<char>) -> Run {
    match run.state.text {
        Some(block) => match stripped(full, block.text) {
            Some(delta) => close_text(extend_text(run, delta)),
            None => close_text(run),
        },
        None => run,
    }
}

// Reasoning blocks

pub open spec fn close_reasoning(run: Run, signature: Option<Seq<char>>) -> Run {
    match run.state.reasoning {
        Some(block) => run.with(ResponsesState { reasoning: None, ..run.state }).say(
            EventView::ThinkingEnd { id: block.id, signature },
        ),
        None => run,
    }
}

pub open spec fn open_reasoning(run: Run) -> Run {
    let run = close_reasoning(run, None);
    let id = run.ids.fresh();
    Run {
        state: ResponsesState {
            reasoning: Some(
                ReasoningView { id, text: Seq::empty(), mode: None, summary_started: false },
            ),
            ..run.state
        },
        ids: run.ids.advanced(),
        events: run.events.push(EventView::ThinkingStart { id }),
    }
}

/// Adds to the open reasoning block, unless it streams in the other mode.
pub open spec fn extend_reasoning(run: Run, delta: Seq<char>, mode: ReasoningStreamMode) -> Run {
    match run.state.reasoning {
        Some(block) if delta.len() > 0 && (block.mode is None || block.mode == Some(mode)) =>
        run.with(
            ResponsesState {
                reasoning: Some(
                    ReasoningView { text: block.text + delta, mode: Some(mode), ..block },
                ),
                ..run.state
            },
        ).say(EventView::ThinkingDelta { id: block.id, delta }),
        _ => run,
    }
}

/// Adds reasoning, in a new block where none is open.
pub open spec fn push_reasoning(run: Run, delta: Seq<char>, mode: ReasoningStreamMode) -> Run {
    if delta.len() == 0 {
        run
    } else if run.state.reasoning is None {
        extend_reasoning(open_reasoning(run), delta, mode)
    } else {
        extend_reasoning(run, delta, mode)
    }
}

/// Begins a part of the summary; parts after the first stand apart by a blank
/// line.
pub open spec fn start_summary_part(run: Run) -> Run {
    let run = if run.state.reasoning is None {
        open_reasoning(run)
    } else {
        run
    };
    let block = run.state.reasoning->0;
    if block.mode == Some(ReasoningStreamMode::Text) {
        run
    } else {
        let run = if block.summary_started {
            extend_reasoning(run, "\n\n"@, ReasoningStreamMode::Summary)
        } else {
            run
        };
        run.with(
            ResponsesState {
                reasoning: Some(
                    ReasoningView {
                        mode: Some(ReasoningStreamMode::Summary),
                        summary_started: true,
                        ..run.state.reasoning->0
                    },
                ),
                ..run.state
            },
        )
    }
}

/// Adds what a finished fragment has beyond the open block.
pub open spec fn finish_fragment(run: Run, full: Seq<char>, mode: ReasoningStreamMode) -> Run {
    match run.state.reasoning {
        Some(block) => match stripped(full, block.text) {
            Some(delta) => extend_reasoning(run, delta, mode),
            None => run,
        },
        None => run,
    }
}

/// Closes the open reasoning block, first adding what the full text has beyond
/// it.
pub open spec fn finish_reasoning(
    run: Run,
    full: Seq<char>,
    signature: Option<Seq<char>>,
) -> Run {
    match run.state.reasoning {
        Some(block) => {
            let mode = match block.mode {
                Some(mode) => mode,
                None => ReasoningStreamMode::Summary,
            };
            close_reasoning(finish_fragment(run, full, mode), signature)
        },
        None => run,
    }
}

// Tool calls

/// The position of the open call with that key.
pub open spec fn call_at(calls: Seq<CallView>, item_key: Seq<char>) -> Option<int>
    decreases calls.len(),
{
    if calls.len() == 0 {
        None
    } else if calls.last().item_key == item_key {
        Some(calls.len() - 1)
    } else {
        call_at(calls.drop_last(), item_key)
    }
}

/// Adds arguments to an open call.
pub open spec fn extend_call(run: Run, item_key: Seq<char>, delta: Seq<char>) -> Run {
    match call_at(run.state.active, item_key) {
        Some(at) if delta.len() > 0 => {
            let call = run.state.active[at];
            run.with(
                ResponsesState {
                    active: run.state.active.update(
                        at,
                        CallView { arguments: call.arguments + delta, ..call },
                    ),
                    ..run.state
                },
            ).say(EventView::ToolArgsDelta { id: call.id, delta })
        },
        _ => run,
    }
}

/// Opens a call, unless its item has been seen before.
pub open spec fn start_call(
    run: Run,
    item_key: Seq<char>,
    call_id: Seq<char>,
    name: Seq<char>,
    arguments: Seq<char>,
) -> Run {
    if call_at(run.state.active, item_key) is Some || run.state.completed.contains(item_key) {
        run
    } else {
        let id = run.ids.fresh();
        let opened = Run {
            state: ResponsesState {
                active: run.state.active.push(
                    CallView { item_key, id, arguments: Seq::empty() },
                ),
                saw_tool_call: true,
                ..run.state
            },
            ids: run.ids.advanced(),
            events: run.events.push(
                EventView::ToolCallStart {
                    id,
                    tool_call_id: call_id,
                    name: canonical_name(name, run.state.names),
                },
            ),
        };
        extend_call(opened, item_key, arguments)
    }
}

/// Closes a call, first adding what the full arguments have beyond it.
pub open spec fn close_call(run: Run, item_key: Seq<char>, full: Seq<char>) -> Run {
    let at = call_at(run.state.active, item_key)->0;
    let run = match stripped(full, run.state.active[at].arguments) {
        Some(delta) => extend_call(run, item_key, delta),
        None => run,
    };
    run.with(
        ResponsesState {
            active: run.state.active.remove(at),
            completed: run.state.completed.push(item_key),
            ..run.state
        },
    ).say(EventView::ToolCallEnd { id: run.state.active[at].id })
}

/// A call that is told of only when it is complete.
pub open spec fn whole_call(
    run: Run,
    item_key: Seq<char>,
    full: Seq<char>,
    call_id: Seq<char>,
    name: Seq<char>,
) -> Run {
    let id = run.ids.fresh();
    let start = EventView::ToolCallStart {
        id,
        tool_call_id: call_id,
        name: canonical_name(name, run.state.names),
    };
    let said = if full.len() > 0 {
        seq![start, EventView::ToolArgsDelta { id, delta: full }, EventView::ToolCallEnd { id }]
    } else {
        seq![start, EventView::ToolCallEnd { id }]
    };
    Run {
        state: ResponsesState { completed: run.state.completed.push(item_key), ..run.state },
        ids: run.ids.advanced(),
        events: run.events + said,
    }
}

/// Completes a call. One that was not open is told of as a whole where its name
/// is known, and one that was completed before is not told of again.
pub open spec fn finish_call(
    run: Run,
    item_key: Seq<char>,
    full: Seq<char>,
    call: Option<(Seq<char>, Seq<char>)>,
) -> Run {
    if call_at(run.state.active, item_key) is Some {
        close_call(run, item_key, full)
    } else if run.state.completed.contains(item_key) {
        run
    } else {
        match call {
            Some((call_id, name)) => whole_call(run, item_key, full, call_id, name),
            None => run,
        }
    }
}

// The message

pub open spec fn remember_response(run: Run, response_id: Seq<char>) -> Run {
    if run.state.track_response_id && response_id.len() > 0 {
        run.with(ResponsesState { response_id: Some(response_id), ..run.state })
    } else {
        run
    }
}

/// Opens the message, unless it is open. It goes by the identifier that the API
/// gave it, or by one made from the response's, or by a fresh one.
pub open spec fn start_message(run: Run, given: Option<Seq<char>>) -> Run {
    if run.state.started {
        run
    } else {
        let known = match run.state.message_id {
            Some(id) => Some(id),
            None => match given {
                Some(id) if is_message_item_id(id) => Some(id),
                _ => match run.state.response_id {
                    Some(id) => Some(synthesized_message_id(id)),
                    None => None,
                },
            },
        };
        let id = match known {
            Some(id) => id,
            None => run.ids.fresh(),
        };
        Run {
            state: ResponsesState { message_id: Some(id), started: true, ..run.state },
            ids: if known is Some {
                run.ids
            } else {
                run.ids.advanced()
            },
            events: run.events.push(EventView::MessageStart { id }),
        }
    }
}

pub open spec fn stop_reason_spec(reason: Option<Seq<char>>, saw_tool_call: bool) -> StopReason {
    if saw_tool_call {
        StopReason::ToolUse
    } else if reason == Some("max_output_tokens"@) || reason == Some("max_completion_tokens"@) {
        StopReason::MaxTokens
    } else {
        StopReason::EndTurn
    }
}

pub open spec fn usage_spec(usage: ResponseUsage) -> Usage {
    Usage {
        input_tokens: usage.input_tokens as u64,
        output_tokens: usage.output_tokens as u64,
        cache_creation_input_tokens: 0,
        cache_read_input_tokens: usage.cached_tokens as u64,
    }
}

/// Reports the usage and ends the message, opening it first where it is not
/// open.
pub open spec fn finish_response_spec(run: Run, response: ResponseView) -> Run {
    let run = start_message(remember_response(run, response.id), None);
    let run = match response.usage {
        Some(usage) => run.say(EventView::UsageUpdate { usage: usage_spec(usage) }),
        None => run,
    };
    run.say(
        EventView::MessageEnd {
            id: run.state.message_id->0,
            stop_reason: stop_reason_spec(
                response.incomplete_reason,
                run.state.saw_tool_call,
            ),
            response_id: run.state.response_id,
        },
    )
}

// Items

pub open spec fn content_text(content: ContentView) -> Seq<char> {
    match content {
        ContentView::OutputText(text) => text,
        ContentView::Refusal(refusal) => refusal,
    }
}

/// The texts of a message one after another.
pub open spec fn message_text(content: Seq<ContentView>) -> Seq<char>
    decreases content.len(),
{
    if content.len() == 0 {
        Seq::empty()
    } else {
        message_text(content.drop_last()) + content_text(content.last())
    }
}

pub open spec fn nonempty_texts(texts: Seq<Seq<char>>) -> Seq<Seq<char>>
    decreases texts.len(),
{
    if texts.len() == 0 {
        Seq::empty()
    } else {
        let before = nonempty_texts(texts.drop_last());
        if texts.last().len() > 0 {
            before.push(texts.last())
        } else {
            before
        }
    }
}

/// The summary of a reasoning item, or its full text where it has no summary.
pub open spec fn reasoning_text_spec(item: ReasoningItemView) -> Seq<char> {
    let summary = joined(nonempty_texts(item.summary), "\n\n"@);
    if summary.len() > 0 {
        summary
    } else {
        match item.content {
            Some(content) => joined(nonempty_texts(content), "\n"@),
            None => Seq::empty(),
        }
    }
}

/// What a tool call's events are matched by: the item's identifier, or one that
/// no item has, made from its position.
pub open spec fn item_key_spec(item_id: Option<Seq<char>>, output_index: u32) -> Seq<char> {
    match item_id {
        Some(item_id) => item_id,
        None => "__halter_synth__:output_index:"@ + decimal(output_index as nat),
    }
}

pub open spec fn item_added(run: Run, output_index: u32, item: ItemView) -> Run {
    match item {
        ItemView::Message(message) => push_text(
            open_text(start_message(run, Some(message.id))),
            message_text(message.content),
        ),
        ItemView::Reasoning(reasoning) => push_reasoning(
            open_reasoning(start_message(run, None)),
            reasoning_text_spec(reasoning),
            if reasoning.summary.len() == 0 {
                ReasoningStreamMode::Text
            } else {
                ReasoningStreamMode::Summary
            },
        ),
        ItemView::FunctionCall(call) => start_call(
            start_message(run, None),
            item_key_spec(call.id, output_index),
            call.call_id,
            call.name,
            call.arguments,
        ),
        ItemView::Other => run,
    }
}

pub open spec fn item_done(run: Run, output_index: u32, item: ItemView) -> Run {
    match item {
        ItemView::Message(message) => finish_text(run, message_text(message.content)),
        ItemView::Reasoning(reasoning) => finish_reasoning(
            run,
            reasoning_text_spec(reasoning),
            reasoning.encrypted_content,
        ),
        ItemView::FunctionCall(call) => finish_call(
            run,
            item_key_spec(call.id, output_index),
            call.arguments,
            Some((call.call_id, call.name)),
        ),
        ItemView::Other => run,
    }
}

pub open spec fn failure_message(response: ResponseView) -> Seq<char> {
    match (response.error_message, response.incomplete_reason) {
        (Some(message), _) => "failed to execute provider request: "@ + message,
        (None, Some(reason)) => "failed to execute provider request: incomplete: "@ + reason,
        (None, None) => "failed to execute provider request: openai response failed"@,
    }
}

pub open spec fn missing_call(item_key: Seq<char>) -> Seq<char> {
    "failed to decode openai responses stream: missing tool call '"@ + item_key + "'"@
}

/// What one event of the reply makes of a decoder, or why it fails.
pub open spec fn decoded(run: Run, event: ReplyView) -> Result<Run, Seq<char>> {
    match event {
        ReplyView::ResponseCreated { response } => Ok(
            remember_response(run, response.id),
        ),
        ReplyView::ResponseOutputItemAdded { output_index, item } => Ok(
            item_added(run, output_index, item),
        ),
        ReplyView::ResponseOutputTextDelta { delta } => Ok(push_text(run, delta)),
        ReplyView::ResponseOutputTextDone { text } => Ok(finish_text(run, text)),
        ReplyView::ResponseRefusalDelta { delta } => Ok(push_text(run, delta)),
        ReplyView::ResponseRefusalDone { refusal } => Ok(finish_text(run, refusal)),
        ReplyView::ResponseReasoningSummaryPartAdded => Ok(start_summary_part(run)),
        ReplyView::ResponseReasoningSummaryTextDelta { delta } => Ok(
            push_reasoning(run, delta, ReasoningStreamMode::Summary),
        ),
        ReplyView::ResponseReasoningSummaryTextDone { text } => Ok(
            finish_fragment(run, text, ReasoningStreamMode::Summary),
        ),
        ReplyView::ResponseReasoningTextDelta { delta } => Ok(
            push_reasoning(run, delta, ReasoningStreamMode::Text),
        ),
        ReplyView::ResponseReasoningTextDone { text } => Ok(
            finish_fragment(run, text, ReasoningStreamMode::Text),
        ),
        ReplyView::ResponseFunctionCallArgumentsDelta { item_id, delta } => if delta.len()
            > 0 && call_at(run.state.active, item_id) is None {
            Err(missing_call(item_id))
        } else {
            Ok(extend_call(run, item_id, delta))
        },
        ReplyView::ResponseFunctionCallArgumentsDone { item_id, arguments } => Ok(
            finish_call(run, item_id, arguments, None),
        ),
        ReplyView::ResponseOutputItemDone { output_index, item } => Ok(
            item_done(run, output_index, item),
        ),
        ReplyView::ResponseCompleted { response } => Ok(
            finish_response_spec(run, response),
        ),
        ReplyView::ResponseIncomplete { response } => Ok(
            finish_response_spec(run, response),
        ),
        ReplyView::ResponseFailed { response } => Err(failure_message(response)),
        ReplyView::ResponseError { message } => Err(
            "failed to execute provider request: "@ + message,
        ),
        ReplyView::Other => Ok(run),
    }
}

// ---------------------------------------------------------------------------
// Reading items

fn strip_prefix(full: &str, prefix: &str) -> (rest: Option<String>)
    ensures
        string_view(rest) == stripped(full@, prefix@),
{
    if starts_with(full, prefix) {
        let start = prefix.unicode_len();
        let end = full.unicode_len();
        Some(full.substring_char(start, end).to_owned())
    } else {
        None
    }
}

fn output_message_text(message: &OutputMessage) -> (text: String)
    ensures
        text@ == message_text(contents_view(message.content@)),
{
    let ghost all = contents_view(message.content@);
    let mut text = String::new();
    let mut i: usize = 0;
    while i < message.content.len()
        invariant
            all == contents_view(message.content@),
            i <= message.content.len(),
            text@ == message_text(all.subrange(0, i as int)),
        decreases message.content.len() - i,
    {
        assert(all.subrange(0, i + 1).drop_last() == all.subrange(0, i as int));
        assert(all.subrange(0, i + 1).last() == message.content@[i as int]@);
        match &message.content[i] {
            OutputMessageContent::OutputText(piece) => {
                text.append(piece);
            },
            OutputMessageContent::Refusal(piece) => {
                text.append(piece);
            },
        }
        i += 1;
    }
    assert(all.subrange(0, i as int) == all);
    text
}

fn join_nonempty(texts: &Vec<String>, separator: &str) -> (text: String)
    ensures
        text@ == joined(nonempty_texts(views(texts@)), separator@),
{
    let ghost all = views(texts@);
    let mut kept: Vec<String> = Vec::new();
    let mut i: usize = 0;
    while i < texts.len()
        invariant
            all == views(texts@),
            i <= texts.len(),
            views(kept@) == nonempty_texts(all.subrange(0, i as int)),
        decreases texts.len() - i,
    {
        assert(all.subrange(0, i + 1).drop_last() == all.subrange(0, i as int));
        assert(all.subrange(0, i + 1).last() == texts@[i as int]@);
        if !texts[i].as_str().is_empty() {
            push_piece(&mut kept, texts[i].clone());
        }
        i += 1;
    }
    assert(all.subrange(0, i as int) == all);
    join(&kept, separator)
}

fn reasoning_item_text(item: &ReasoningItem) -> (text: String)
    ensures
        text@ == reasoning_text_spec(item@),
{
    let summary = join_nonempty(&item.summary, "\n\n");
    if !summary.as_str().is_empty() {
        return summary;
    }
    match &item.content {
        Some(content) => join_nonempty(content, "\n"),
        None => String::new(),
    }
}

pub fn tool_item_key(item_id: &Option<String>, output_index: u32) -> (key: String)
    ensures
        key@ == item_key_spec(string_view(*item_id), output_index),
{
    match item_id {
        Some(item_id) => item_id.clone(),
        None => concat2("__halter_synth__:output_index:", &decimal_text(output_index as u64)),
    }
}

fn response_failure_message(response: &Response) -> (message: String)
    ensures
        message@ == failure_message(response@),
{
    match (&response.error_message, &response.incomplete_reason) {
        (Some(message), _) => concat2("failed to execute provider request: ", message),
        (None, Some(reason)) => concat2("failed to execute provider request: incomplete: ", reason),
        (None, None) => "failed to execute provider request: openai response failed".to_owned(),
    }
}

fn decode_responses_usage(usage: &ResponseUsage) -> (decoded: Usage)
    ensures
        decoded == usage_spec(*usage),
{
    Usage {
        input_tokens: usage.input_tokens as u64,
        output_tokens: usage.output_tokens as u64,
        cache_creation_input_tokens: 0,
        cache_read_input_tokens: usage.cached_tokens as u64,
    }
}

/// Why a reply stopped.
pub fn responses_stop_reason(reason: Option<&str>, saw_tool_call: bool) -> (stop: StopReason)
    ensures
        stop == stop_reason_spec(str_view(reason), saw_tool_call),
{
    if saw_tool_call {
        return StopReason::ToolUse;
    }
    match reason {
        Some(reason) => if same_text(reason, "max_output_tokens") || same_text(
            reason,
            "max_completion_tokens",
        ) {
            StopReason::MaxTokens
        } else {
            StopReason::EndTurn
        },
        None => StopReason::EndTurn,
    }
}

// ---------------------------------------------------------------------------
// Decoding

/// What always holds of a decoder: a message that has started has an
/// identifier, and no tool call is open twice, or open and completed at once.
pub open spec fn coherent(state: ResponsesState) -> bool {
    &&& state.started ==> state.message_id is Some
    &&& forall|i: int, j: int|
        #![trigger state.active[i], state.active[j]]
        0 <= i < j < state.active.len() ==> state.active[i].item_key != state.active[j].item_key
    &&& forall|i: int|
        0 <= i < state.active.len() ==> !state.completed.contains(
            (#[trigger] state.active[i]).item_key,
        )
}

pub open spec fn run_of(state: ResponsesState, ids: IdsView, events: Seq<EventView>) -> Run {
    Run { state, ids, events }
}

pub proof fn lemma_call_at(calls: Seq<CallView>, item_key: Seq<char>)
    ensures
        match call_at(calls, item_key) {
            Some(at) => 0 <= at < calls.len() && calls[at].item_key == item_key,
            None => forall|i: int|
                0 <= i < calls.len() ==> (#[trigger] calls[i]).item_key != item_key,
        },
    decreases calls.len(),
{
    if calls.len() > 0 && calls.last().item_key != item_key {
        lemma_call_at(calls.drop_last(), item_key);
        if call_at(calls.drop_last(), item_key) is None {
            assert forall|i: int| 0 <= i < calls.len() implies (#[trigger] calls[i]).item_key
                != item_key by {
                if i < calls.len() - 1 {
                    assert(calls.drop_last()[i] == calls[i]);
                }
            }
        }
    }
}

fn find_call(calls: &Vec<PendingToolCallBlock>, item_key: &str) -> (at: Option<usize>)
    ensures
        match at {
            Some(at) => call_at(calls_view(calls@), item_key@) == Some(at as int) && at
                < calls@.len(),
            None => call_at(calls_view(calls@), item_key@) is None,
        },
{
    let ghost all = calls_view(calls@);
    let mut i: usize = calls.len();
    assert(all.subrange(0, i as int) == all);
    while i > 0
        invariant
            i <= calls.len(),
            all == calls_view(calls@),
            call_at(all, item_key@) == call_at(all.subrange(0, i as int), item_key@),
        decreases i,
    {
        let ghost rest = all.subrange(0, i as int);
        assert(rest.last() == call_view(calls@[i - 1]));
        if same_text(&calls[i - 1].item_key, item_key) {
            return Some(i - 1);
        }
        assert(rest.drop_last() == all.subrange(0, i - 1));
        i -= 1;
    }
    None
}

fn contains_key(keys: &Vec<String>, key: &str) -> (found: bool)
    ensures
        found == views(keys@).contains(key@),
{
    let mut i: usize = 0;
    while i < keys.len()
        invariant
            i <= keys.len(),
            forall|k: int| 0 <= k < i ==> (#[trigger] views(keys@)[k]) != key@,
        decreases keys.len() - i,
    {
        if same_text(&keys[i], key) {
            assert(views(keys@)[i as int] == key@);
            return true;
        }
        i += 1;
    }
    false
}

impl ResponsesStreamDecoder {
    pub fn new(request: &ProviderRequest, track_response_id: bool) -> (decoder:
        ResponsesStreamDecoder)
        ensures
            decoder@ == (ResponsesState {
                names: tool_names(request.tools@, request.model.provider_kind),
                track_response_id,
                response_id: None,
                message_id: None,
                started: false,
                saw_tool_call: false,
                text: None,
                reasoning: None,
                active: Seq::empty(),
                completed: Seq::empty(),
            }),
    {
        let decoder = ResponsesStreamDecoder {
            tool_specs: duplicate_tool_specs(&request.tools),
            provider_kind: request.model.provider_kind,
            track_response_id,
            response_id: None,
            message_id: None,
            started: false,
            saw_tool_call: false,
            active_text: None,
            active_reasoning: None,
            active_tool_calls: Vec::new(),
            completed_tool_calls: Vec::new(),
        };
        assert(decoder@.active =~= Seq::empty());
        assert(decoder@.completed =~= Seq::empty());
        decoder
    }

    fn close_text_block(&mut self, events: &mut Vec<StreamEvent>, ids: &mut IdSource)
        ensures
            run_of(final(self)@, final(ids)@, events_view(final(events)@)) == close_text(
                run_of(old(self)@, old(ids)@, events_view(old(events)@)),
            ),
    {
        if let Some(block) = self.active_text.take() {
            push_event(events, StreamEvent::TextEnd { id: block.id });
        }
    }

    fn open_text_block(&mut self, events: &mut Vec<StreamEvent>, ids: &mut IdSource)
        ensures
            run_of(final(self)@, final(ids)@, events_view(final(events)@)) == open_text(
                run_of(old(self)@, old(ids)@, events_view(old(events)@)),
            ),
    {
        self.close_text_block(events, ids);
        let id = ids.mint();
        push_event(events, StreamEvent::TextStart { id: BlockId(id.clone()) });
        self.active_text = Some(PendingTextBlock { id: BlockId(id), text: String::new() });
    }

    fn extend_text_block(
        &mut self,
        delta: &str,
        events: &mut Vec<StreamEvent>,
        ids: &mut IdSource,
    )
        ensures
            run_of(final(self)@, final(ids)@, events_view(final(events)@)) == extend_text(
                run_of(old(self)@, old(ids)@, events_view(old(events)@)),
                delta@,
            ),
    {
        if delta.is_empty() {
            return ;
        }
        if let Some(block) = self.active_text.take() {
            push_event(
                events,
                StreamEvent::TextDelta { id: block.id.clone(), delta: delta.to_owned() },
            );
            self.active_text = Some(
                PendingTextBlock { id: block.id, text: concat2(&block.text, delta) },
            );
        }
    }

    fn push_text_delta(&mut self, delta: &str, events: &mut Vec<StreamEvent>, ids: &mut IdSource)
        ensures
            run_of(final(self)@, final(ids)@, events_view(final(events)@)) == push_text(
                run_of(old(self)@, old(ids)@, events_view(old(events)@)),
                delta@,
            ),
    {
        if delta.is_empty() {
            return ;
        }
        if self.active_text.is_none() {
            self.open_text_block(events, ids);
        }
        self.extend_text_block(delta, events, ids);
    }

    fn finish_text_block(
        &mut self,
        full_text: &str,
        events: &mut Vec<StreamEvent>,
        ids: &mut IdSource,
    )
        ensures
            run_of(final(self)@, final(ids)@, events_view(final(events)@)) == finish_text(
                run_of(old(self)@, old(ids)@, events_view(old(events)@)),
                full_text@,
            ),
    {
        let pending = match &self.active_text {
            Some(block) => strip_prefix(full_text, &block.text),
            None => None,
        };
        if let Some(delta) = pending {
            self.extend_text_block(&delta, events, ids);
        }
        self.close_text_block(events, ids);
    }

    fn close_reasoning_block(
        &mut self,
        signature: Option<String>,
        events: &mut Vec<StreamEvent>,
        ids: &mut IdSource,
    )
        ensures
            run_of(final(self)@, final(ids)@, events_view(final(events)@)) == close_reasoning(
                run_of(old(self)@, old(ids)@, events_view(old(events)@)),
                string_view(signature),
            ),
    {
        if let Some(block) = self.active_reasoning.take() {
            push_event(events, StreamEvent::ThinkingEnd { id: block.id, signature });
        }
    }

    fn open_reasoning_block(&mut self, events: &mut Vec<StreamEvent>, ids: &mut IdSource)
        ensures
            run_of(final(self)@, final(ids)@, events_view(final(events)@)) == open_reasoning(
                run_of(old(self)@, old(ids)@, events_view(old(events)@)),
            ),
    {
        self.close_reasoning_block(None, events, ids);
        let id = ids.mint();
        push_event(events, StreamEvent::ThinkingStart { id: BlockId(id.clone()) });
        self.active_reasoning = Some(
            PendingReasoningBlock {
                id: BlockId(id),
                text: String::new(),
                mode: None,
                summary_started: false,
            },
        );
    }

    fn extend_reasoning_block(
        &mut self,
        delta: &str,
        mode: ReasoningStreamMode,
        events: &mut Vec<StreamEvent>,
        ids: &mut IdSource,
    )
        ensures
            run_of(final(self)@, final(ids)@, events_view(final(events)@)) == extend_reasoning(
                run_of(old(self)@, old(ids)@, events_view(old(events)@)),
                delta@,
                mode,
            ),
    {
        if delta.is_empty() {
            return ;
        }
        if let Some(block) = self.active_reasoning.take() {
            let other_mode = match block.mode {
                Some(existing) => existing != mode,
                None => false,
            };
            if other_mode {
                self.active_reasoning = Some(block);
                return ;
            }
            push_event(
                events,
                StreamEvent::ThinkingDelta { id: block.id.clone(), delta: delta.to_owned() },
            );
            self.active_reasoning = Some(
                PendingReasoningBlock {
                    id: block.id,
                    text: concat2(&block.text, delta),
                    mode: Some(mode),
                    summary_started: block.summary_started,
                },
            );
        }
    }

    fn push_reasoning_delta(
        &mut self,
        delta: &str,
        mode: ReasoningStreamMode,
        events: &mut Vec<StreamEvent>,
        ids: &mut IdSource,
    )
        ensures
            run_of(final(self)@, final(ids)@, events_view(final(events)@)) == push_reasoning(
                run_of(old(self)@, old(ids)@, events_view(old(events)@)),
                delta@,
                mode,
            ),
    {
        if delta.is_empty() {
            return ;
        }
        if self.active_reasoning.is_none() {
            self.open_reasoning_block(events, ids);
        }
        self.extend_reasoning_block(delta, mode, events, ids);
    }

    fn start_reasoning_summary_part(&mut self, events: &mut Vec<StreamEvent>, ids: &mut IdSource)
        ensures
            run_of(final(self)@, final(ids)@, events_view(final(events)@)) == start_summary_part(
                run_of(old(self)@, old(ids)@, events_view(old(events)@)),
            ),
    {
        if self.active_reasoning.is_none() {
            self.open_reasoning_block(events, ids);
        }
        let needs_separator = match &self.active_reasoning {
            Some(block) => {
                if block.mode == Some(ReasoningStreamMode::Text) {
                    return ;
                }
                block.summary_started
            },
            None => false,
        };
        if needs_separator {
            self.extend_reasoning_block("\n\n", ReasoningStreamMode::Summary, events, ids);
        }
        if let Some(block) = self.active_reasoning.take() {
            self.active_reasoning = Some(
                PendingReasoningBlock {
                    id: block.id,
                    text: block.text,
                    mode: Some(ReasoningStreamMode::Summary),
                    summary_started: true,
                },
            );
        }
    }

    fn finish_reasoning_text_fragment(
        &mut self,
        full_text: &str,
        mode: ReasoningStreamMode,
        events: &mut Vec<StreamEvent>,
        ids: &mut IdSource,
    )
        ensures
            run_of(final(self)@, final(ids)@, events_view(final(events)@)) == finish_fragment(
                run_of(old(self)@, old(ids)@, events_view(old(events)@)),
                full_text@,
                mode,
            ),
    {
        let pending = match &self.active_reasoning {
            Some(block) => strip_prefix(full_text, &block.text),
            None => None,
        };
        if let Some(delta) = pending {
            self.extend_reasoning_block(&delta, mode, events, ids);
        }
    }

    fn finish_reasoning_block(
        &mut self,
        full_text: &str,
        signature: Option<String>,
        events: &mut Vec<StreamEvent>,
        ids: &mut IdSource,
    )
        ensures
            run_of(final(self)@, final(ids)@, events_view(final(events)@)) == finish_reasoning(
                run_of(old(self)@, old(ids)@, events_view(old(events)@)),
                full_text@,
                string_view(signature),
            ),
    {
        let mode = match &self.active_reasoning {
            Some(block) => match block.mode {
                Some(mode) => mode,
                None => ReasoningStreamMode::Summary,
            },
            None => {
                return ;
            },
        };
        self.finish_reasoning_text_fragment(full_text, mode, events, ids);
        self.close_reasoning_block(signature, events, ids);
    }

    /// Adds arguments to the open call at `at`.
    fn extend_tool_call(
        &mut self,
        at: usize,
        item_key: &str,
        delta: &str,
        events: &mut Vec<StreamEvent>,
        ids: &mut IdSource,
    )
        requires
            at < old(self).active_tool_calls@.len(),
            call_at(old(self)@.active, item_key@) == Some(at as int),
        ensures
            run_of(final(self)@, final(ids)@, events_view(final(events)@)) == extend_call(
                run_of(old(self)@, old(ids)@, events_view(old(events)@)),
                item_key@,
                delta@,
            ),
            final(self).active_tool_calls@.len() == old(self).active_tool_calls@.len(),
    {
        if delta.is_empty() {
            return ;
        }
        let ghost before = self@.active;
        let id = self.active_tool_calls[at].id.clone();
        let call = PendingToolCallBlock {
            item_key: self.active_tool_calls[at].item_key.clone(),
            id: id.clone(),
            arguments: concat2(&self.active_tool_calls[at].arguments, delta),
        };
        self.active_tool_calls[at] = call;
        assert(self@.active =~= before.update(at as int, call_view(call)));
        push_event(events, StreamEvent::ToolArgsDelta { id, delta: delta.to_owned() });
    }

    fn start_tool_call(
        &mut self,
        item_key: &str,
        call: &FunctionToolCall,
        events: &mut Vec<StreamEvent>,
        ids: &mut IdSource,
    )
        ensures
            run_of(final(self)@, final(ids)@, events_view(final(events)@)) == start_call(
                run_of(old(self)@, old(ids)@, events_view(old(events)@)),
                item_key@,
                call.call_id@,
                call.name@,
                call.arguments@,
            ),
    {
        if find_call(&self.active_tool_calls, item_key).is_some() || contains_key(
            &self.completed_tool_calls,
            item_key,
        ) {
            return ;
        }
        let name = canonical_tool_name(&call.name, &self.tool_specs, self.provider_kind);
        let id = ids.mint();
        push_event(
            events,
            StreamEvent::ToolCallStart {
                id: BlockId(id.clone()),
                tool_call_id: ToolCallId(call.call_id.clone()),
                name,
            },
        );
        let ghost before = self@.active;
        let block = PendingToolCallBlock {
            item_key: item_key.to_owned(),
            id: BlockId(id),
            arguments: String::new(),
        };
        self.active_tool_calls.push(block);
        assert(self@.active =~= before.push(call_view(block)));
        assert(call_view(block).arguments =~= Seq::empty());
        self.saw_tool_call = true;
        let last = self.active_tool_calls.len() - 1;
        self.extend_tool_call(last, item_key, &call.arguments, events, ids);
    }

    fn push_tool_args_delta(
        &mut self,
        item_key: &str,
        delta: &str,
        events: &mut Vec<StreamEvent>,
        ids: &mut IdSource,
    ) -> (result: Result<(), CodecError>)
        ensures
            match result {
                Ok(_) => (delta@.len() == 0 || call_at(old(self)@.active, item_key@) is Some)
                    && run_of(final(self)@, final(ids)@, events_view(final(events)@))
                    == extend_call(
                    run_of(old(self)@, old(ids)@, events_view(old(events)@)),
                    item_key@,
                    delta@,
                ),
                Err(error) => {
                    &&& delta@.len() > 0
                    &&& call_at(old(self)@.active, item_key@) is None
                    &&& error@ == missing_call(item_key@)
                    &&& final(self)@ == old(self)@
                    &&& final(ids)@ == old(ids)@
                },
            },
    {
        if delta.is_empty() {
            return Ok(());
        }
        match find_call(&self.active_tool_calls, item_key) {
            Some(at) => {
                self.extend_tool_call(at, item_key, delta, events, ids);
                Ok(())
            },
            None => Err(
                CodecError {
                    message: concat3(
                        "failed to decode openai responses stream: missing tool call '",
                        item_key,
                        "'",
                    ),
                },
            ),
        }
    }

    fn finish_tool_call(
        &mut self,
        item_key: &str,
        full_arguments: &str,
        call: Option<(&str, &str)>,
        events: &mut Vec<StreamEvent>,
        ids: &mut IdSource,
    )
        ensures
            run_of(final(self)@, final(ids)@, events_view(final(events)@)) == finish_call(
                run_of(old(self)@, old(ids)@, events_view(old(events)@)),
                item_key@,
                full_arguments@,
                match call {
                    Some((call_id, name)) => Some((call_id@, name@)),
                    None => None,
                },
            ),
    {
        if let Some(at) = find_call(&self.active_tool_calls, item_key) {
            let pending = strip_prefix(full_arguments, &self.active_tool_calls[at].arguments);
            if let Some(delta) = pending {
                self.extend_tool_call(at, item_key, &delta, events, ids);
            }
            let ghost active = self@.active;
            let ghost completed = self@.completed;
            let call = self.active_tool_calls.remove(at);
            assert(self@.active =~= active.remove(at as int));
            push_piece(&mut self.completed_tool_calls, item_key.to_owned());
            push_event(events, StreamEvent::ToolCallEnd { id: call.id });
            return ;
        }
        if contains_key(&self.completed_tool_calls, item_key) {
            return ;
        }
        if let Some((call_id, name)) = call {
            let name = canonical_tool_name(name, &self.tool_specs, self.provider_kind);
            let id = ids.mint();
            push_event(
                events,
                StreamEvent::ToolCallStart {
                    id: BlockId(id.clone()),
                    tool_call_id: ToolCallId(call_id.to_owned()),
                    name,
                },
            );
            if !full_arguments.is_empty() {
                push_event(
                    events,
                    StreamEvent::ToolArgsDelta {
                        id: BlockId(id.clone()),
                        delta: full_arguments.to_owned(),
                    },
                );
            }
            push_piece(&mut self.completed_tool_calls, item_key.to_owned());
            push_event(events, StreamEvent::ToolCallEnd { id: BlockId(id) });
            assert(events_view(events@) =~= finish_call(
                run_of(old(self)@, old(ids)@, events_view(old(events)@)),
                item_key@,
                full_arguments@,
                match call {
                    Some((call_id, name)) => Some((call_id@, name@)),
                    None => None,
                },
            ).events);
        }
    }

    fn remember_response_id(&mut self, response_id: &str)
        ensures
            forall|ids: IdsView, events: Seq<EventView>| #[trigger]
                run_of(final(self)@, ids, events) == remember_response(
                    run_of(old(self)@, ids, events),
                    response_id@,
                ),
    {
        if self.track_response_id && !response_id.is_empty() {
            self.response_id = Some(response_id.to_owned());
        }
    }

    fn ensure_message_started(
        &mut self,
        message_id: Option<&str>,
        events: &mut Vec<StreamEvent>,
        ids: &mut IdSource,
    )
        ensures
            run_of(final(self)@, final(ids)@, events_view(final(events)@)) == start_message(
                run_of(old(self)@, old(ids)@, events_view(old(events)@)),
                str_view(message_id),
            ),
    {
        if self.started {
            return ;
        }
        let given = match message_id {
            Some(id) => if is_responses_message_item_id(id) {
                Some(id)
            } else {
                None
            },
            None => None,
        };
        let id = match &self.message_id {
            Some(id) => id.0.clone(),
            None => match given {
                Some(id) => id.to_owned(),
                None => match &self.response_id {
                    Some(response_id) => synthesized_responses_message_id(response_id).0,
                    None => ids.mint(),
                },
            },
        };
        self.message_id = Some(MessageId(id.clone()));
        self.started = true;
        push_event(events, StreamEvent::MessageStart { id: MessageId(id) });
    }

    fn finish_response(
        &mut self,
        response: &Response,
        events: &mut Vec<StreamEvent>,
        ids: &mut IdSource,
    )
        requires
            coherent(old(self)@),
        ensures
            run_of(final(self)@, final(ids)@, events_view(final(events)@)) == finish_response_spec(
                run_of(old(self)@, old(ids)@, events_view(old(events)@)),
                response@,
            ),
    {
        self.remember_response_id(&response.id);
        self.ensure_message_started(None, events, ids);
        if let Some(usage) = &response.usage {
            push_event(events, StreamEvent::UsageUpdate { usage: decode_responses_usage(usage) });
        }
        let id = match &self.message_id {
            Some(id) => id.0.clone(),
            None => ids.mint(),
        };
        let reason = match &response.incomplete_reason {
            Some(reason) => Some(reason.as_str()),
            None => None,
        };
        let stop_reason = responses_stop_reason(reason, self.saw_tool_call);
        let response_id = match &self.response_id {
            Some(response_id) => Some(response_id.clone()),
            None => None,
        };
        push_event(
            events,
            StreamEvent::MessageEnd { id: MessageId(id), stop_reason, response_id },
        );
    }

    /// Reads one event.
    pub fn decode(&mut self, event: &ResponseStreamEvent, ids: &mut IdSource) -> (result: Result<
        Vec<StreamEvent>,
        CodecError,
    >)
        requires
            coherent(old(self)@),
        ensures
            coherent(final(self)@),
            match (decoded(run_of(old(self)@, old(ids)@, Seq::empty()), event@), result) {
                (Ok(run), Ok(events)) => run_of(final(self)@, final(ids)@, events_view(events@))
                    == run,
                (Err(message), Err(error)) => error@ == message && final(self)@ == old(self)@
                    && final(ids)@ == old(ids)@,
                _ => false,
            },
    {
        proof {
            law_decoder_stays_coherent(run_of(self@, ids@, Seq::empty()), event@);
        }
        let mut events: Vec<StreamEvent> = Vec::new();
        assert(events_view(events@) =~= Seq::empty());
        match event {
            ResponseStreamEvent::ResponseCreated { response } => {
                self.remember_response_id(&response.id);
                assert(run_of(self@, ids@, Seq::empty()) == remember_response(
                    run_of(old(self)@, old(ids)@, Seq::empty()),
                    response.id@,
                ));
            },
            ResponseStreamEvent::ResponseOutputItemAdded { output_index, item } => match item {
                OutputItem::Message(message) => {
                    self.ensure_message_started(Some(message.id.as_str()), &mut events, ids);
                    self.open_text_block(&mut events, ids);
                    let text = output_message_text(message);
                    self.push_text_delta(&text, &mut events, ids);
                },
                OutputItem::Reasoning(reasoning) => {
                    self.ensure_message_started(None, &mut events, ids);
                    self.open_reasoning_block(&mut events, ids);
                    let text = reasoning_item_text(reasoning);
                    let mode = if reasoning.summary.is_empty() {
                        ReasoningStreamMode::Text
                    } else {
                        ReasoningStreamMode::Summary
                    };
                    self.push_reasoning_delta(&text, mode, &mut events, ids);
                },
                OutputItem::FunctionCall(call) => {
                    self.ensure_message_started(None, &mut events, ids);
                    let item_key = tool_item_key(&call.id, *output_index);
                    self.start_tool_call(&item_key, call, &mut events, ids);
                },
                OutputItem::Other => {},
            },
            ResponseStreamEvent::ResponseOutputTextDelta { delta } => {
                self.push_text_delta(delta, &mut events, ids);
            },
            ResponseStreamEvent::ResponseOutputTextDone { text } => {
                self.finish_text_block(text, &mut events, ids);
            },
            ResponseStreamEvent::ResponseRefusalDelta { delta } => {
                self.push_text_delta(delta, &mut events, ids);
            },
            ResponseStreamEvent::ResponseRefusalDone { refusal } => {
                self.finish_text_block(refusal, &mut events, ids);
            },
            ResponseStreamEvent::ResponseReasoningSummaryPartAdded => {
                self.start_reasoning_summary_part(&mut events, ids);
            },
            ResponseStreamEvent::ResponseReasoningSummaryTextDelta { delta } => {
                self.push_reasoning_delta(delta, ReasoningStreamMode::Summary, &mut events, ids);
            },
            ResponseStreamEvent::ResponseReasoningSummaryTextDone { text } => {
                self.finish_reasoning_text_fragment(
                    text,
                    ReasoningStreamMode::Summary,
                    &mut events,
                    ids,
                );
            },
            ResponseStreamEvent::ResponseReasoningTextDelta { delta } => {
                self.push_reasoning_delta(delta, ReasoningStreamMode::Text, &mut events, ids);
            },
            ResponseStreamEvent::ResponseReasoningTextDone { text } => {
                self.finish_reasoning_text_fragment(
                    text,
                    ReasoningStreamMode::Text,
                    &mut events,
                    ids,
                );
            },
            ResponseStreamEvent::ResponseFunctionCallArgumentsDelta { item_id, delta } => {
                if let Err(error) = self.push_tool_args_delta(item_id, delta, &mut events, ids) {
                    return Err(error);
                }
            },
            ResponseStreamEvent::ResponseFunctionCallArgumentsDone { item_id, arguments } => {
                self.finish_tool_call(item_id, arguments, None, &mut events, ids);
            },
            ResponseStreamEvent::ResponseOutputItemDone { output_index, item } => match item {
                OutputItem::Message(message) => {
                    let text = output_message_text(message);
                    self.finish_text_block(&text, &mut events, ids);
                },
                OutputItem::Reasoning(reasoning) => {
                    let text = reasoning_item_text(reasoning);
                    let signature = match &reasoning.encrypted_content {
                        Some(content) => Some(content.clone()),
                        None => None,
                    };
                    self.finish_reasoning_block(&text, signature, &mut events, ids);
                },
                OutputItem::FunctionCall(call) => {
                    let item_key = tool_item_key(&call.id, *output_index);
                    self.finish_tool_call(
                        &item_key,
                        &call.arguments,
                        Some((call.call_id.as_str(), call.name.as_str())),
                        &mut events,
                        ids,
                    );
                },
                OutputItem::Other => {},
            },
            ResponseStreamEvent::ResponseCompleted { response } => {
                self.finish_response(response, &mut events, ids);
            },
            ResponseStreamEvent::ResponseIncomplete { response } => {
                self.finish_response(response, &mut events, ids);
            },
            ResponseStreamEvent::ResponseFailed { response } => {
                return Err(CodecError { message: response_failure_message(response) });
            },
            ResponseStreamEvent::ResponseError { message } => {
                return Err(
                    CodecError {
                        message: concat2("failed to execute provider request: ", message),
                    },
                );
            },
            ResponseStreamEvent::Other => {},
        }
        Ok(events)
    }
}

proof fn lemma_extend_call_keeps(run: Run, item_key: Seq<char>, delta: Seq<char>)
    requires
        coherent(run.state),
    ensures
        coherent(extend_call(run, item_key, delta).state),
        extend_call(run, item_key, delta).state.completed == run.state.completed,
        extend_call(run, item_key, delta).state.active.len() == run.state.active.len(),
        forall|i: int|
            0 <= i < run.state.active.len() ==> (#[trigger] extend_call(
                run,
                item_key,
                delta,
            ).state.active[i]).item_key == run.state.active[i].item_key,
{
    lemma_call_at(run.state.active, item_key);
    let after = extend_call(run, item_key, delta).state;
    assert forall|i: int, j: int|
        #![trigger after.active[i], after.active[j]]
        0 <= i < j < after.active.len() implies after.active[i].item_key
        != after.active[j].item_key by {
        assert(run.state.active[i].item_key != run.state.active[j].item_key);
    }
    assert forall|i: int| 0 <= i < after.active.len() implies !after.completed.contains(
        (#[trigger] after.active[i]).item_key,
    ) by {
        assert(!run.state.completed.contains(run.state.active[i].item_key));
    }
}

proof fn lemma_start_call_keeps(
    run: Run,
    item_key: Seq<char>,
    call_id: Seq<char>,
    name: Seq<char>,
    arguments: Seq<char>,
)
    requires
        coherent(run.state),
    ensures
        coherent(start_call(run, item_key, call_id, name, arguments).state),
{
    if !(call_at(run.state.active, item_key) is Some || run.state.completed.contains(item_key)) {
        lemma_call_at(run.state.active, item_key);
        let id = run.ids.fresh();
        let state = ResponsesState {
            active: run.state.active.push(CallView { item_key, id, arguments: Seq::empty() }),
            saw_tool_call: true,
            ..run.state
        };
        assert(coherent(state)) by {
            assert forall|i: int, j: int|
                #![trigger state.active[i], state.active[j]]
                0 <= i < j < state.active.len() implies state.active[i].item_key
                != state.active[j].item_key by {
                assert(run.state.active[i].item_key == state.active[i].item_key);
                if j < run.state.active.len() {
                    assert(run.state.active[j].item_key == state.active[j].item_key);
                }
            }
            assert forall|i: int| 0 <= i < state.active.len() implies !state.completed.contains(
                (#[trigger] state.active[i]).item_key,
            ) by {
                if i < run.state.active.len() {
                    assert(run.state.active[i].item_key == state.active[i].item_key);
                }
            }
        }
        let opened = Run {
            state,
            ids: run.ids.advanced(),
            events: run.events.push(
                EventView::ToolCallStart {
                    id,
                    tool_call_id: call_id,
                    name: canonical_name(name, run.state.names),
                },
            ),
        };
        lemma_extend_call_keeps(opened, item_key, arguments);
    }
}

proof fn lemma_finish_call_keeps(
    run: Run,
    item_key: Seq<char>,
    full: Seq<char>,
    call: Option<(Seq<char>, Seq<char>)>,
)
    requires
        coherent(run.state),
    ensures
        coherent(finish_call(run, item_key, full, call).state),
{
    lemma_call_at(run.state.active, item_key);
    let after = finish_call(run, item_key, full, call).state;
    if let Some(at) = call_at(run.state.active, item_key) {
        let grown = match stripped(full, run.state.active[at].arguments) {
            Some(delta) => extend_call(run, item_key, delta),
            None => run,
        };
        if let Some(delta) = stripped(full, run.state.active[at].arguments) {
            lemma_extend_call_keeps(run, item_key, delta);
        }
        let keys = grown.state;
        assert(coherent(keys));
        assert(keys.active[at].item_key == item_key);
        assert forall|i: int, j: int|
            #![trigger after.active[i], after.active[j]]
            0 <= i < j < after.active.len() implies after.active[i].item_key
            != after.active[j].item_key by {
            let a = if i < at {
                i
            } else {
                i + 1
            };
            let b = if j < at {
                j
            } else {
                j + 1
            };
            assert(keys.active[a].item_key != keys.active[b].item_key);
        }
        assert forall|i: int| 0 <= i < after.active.len() implies !after.completed.contains(
            (#[trigger] after.active[i]).item_key,
        ) by {
            let a = if i < at {
                i
            } else {
                i + 1
            };
            assert(after.active[i] == keys.active[a]);
            assert(!keys.completed.contains(keys.active[a].item_key));
            assert(keys.active[a].item_key != keys.active[at].item_key);
            if after.completed.contains(after.active[i].item_key) {
                let k = choose|k: int|
                    0 <= k < after.completed.len() && after.completed[k]
                        == after.active[i].item_key;
                assert(after.completed == keys.completed.push(item_key));
                if k < keys.completed.len() {
                    assert(keys.completed[k] == after.active[i].item_key);
                }
            }
        }
    } else if !run.state.completed.contains(item_key) && call is Some {
        assert forall|i: int| 0 <= i < after.active.len() implies !after.completed.contains(
            (#[trigger] after.active[i]).item_key,
        ) by {
            if after.completed.contains(after.active[i].item_key) {
                let k = choose|k: int|
                    0 <= k < after.completed.len() && after.completed[k]
                        == after.active[i].item_key;
                if k < run.state.completed.len() {
                    assert(run.state.completed[k] == after.active[i].item_key);
                }
            }
        }
    }
}

/// Nothing about tool calls has changed.
pub open spec fn same_calls(before: ResponsesState, after: ResponsesState) -> bool {
    &&& after.active == before.active
    &&& after.completed == before.completed
    &&& after.message_id == before.message_id
    &&& after.started == before.started
}

proof fn lemma_text_keeps_calls(run: Run, text: Seq<char>)
    ensures
        same_calls(run.state, open_text(run).state),
        same_calls(run.state, push_text(run, text).state),
        same_calls(run.state, finish_text(run, text).state),
{
}

proof fn lemma_reasoning_keeps_calls(
    run: Run,
    text: Seq<char>,
    mode: ReasoningStreamMode,
    signature: Option<Seq<char>>,
)
    ensures
        same_calls(run.state, open_reasoning(run).state),
        same_calls(run.state, push_reasoning(run, text, mode).state),
        same_calls(run.state, start_summary_part(run).state),
        same_calls(run.state, finish_fragment(run, text, mode).state),
        same_calls(run.state, finish_reasoning(run, text, signature).state),
{
}

proof fn lemma_start_message_keeps(run: Run, given: Option<Seq<char>>)
    requires
        coherent(run.state),
    ensures
        coherent(start_message(run, given).state),
{
}

/// An item that is added leaves the decoder coherent.
proof fn lemma_item_added_keeps(run: Run, output_index: u32, item: ItemView)
    requires
        coherent(run.state),
    ensures
        coherent(item_added(run, output_index, item).state),
{
    match item {
        ItemView::Message(message) => {
            let started = start_message(run, Some(message.id));
            lemma_start_message_keeps(run, Some(message.id));
            lemma_text_keeps_calls(started, Seq::empty());
            lemma_text_keeps_calls(open_text(started), message_text(message.content));
        },
        ItemView::Reasoning(reasoning) => {
            let started = start_message(run, None);
            lemma_start_message_keeps(run, None);
            let mode = if reasoning.summary.len() == 0 {
                ReasoningStreamMode::Text
            } else {
                ReasoningStreamMode::Summary
            };
            lemma_reasoning_keeps_calls(started, Seq::empty(), mode, None);
            lemma_reasoning_keeps_calls(
                open_reasoning(started),
                reasoning_text_spec(reasoning),
                mode,
                None,
            );
        },
        ItemView::FunctionCall(call) => {
            lemma_start_message_keeps(run, None);
            lemma_start_call_keeps(
                start_message(run, None),
                item_key_spec(call.id, output_index),
                call.call_id,
                call.name,
                call.arguments,
            );
        },
        ItemView::Other => {},
    }
}

proof fn lemma_item_done_keeps(run: Run, output_index: u32, item: ItemView)
    requires
        coherent(run.state),
    ensures
        coherent(item_done(run, output_index, item).state),
{
    match item {
        ItemView::Message(message) => {
            lemma_text_keeps_calls(run, message_text(message.content));
        },
        ItemView::Reasoning(reasoning) => {
            lemma_reasoning_keeps_calls(
                run,
                reasoning_text_spec(reasoning),
                ReasoningStreamMode::Summary,
                reasoning.encrypted_content,
            );
        },
        ItemView::FunctionCall(call) => {
            lemma_finish_call_keeps(
                run,
                item_key_spec(call.id, output_index),
                call.arguments,
                Some((call.call_id, call.name)),
            );
        },
        ItemView::Other => {},
    }
}

proof fn lemma_finish_response_keeps(run: Run, response: ResponseView)
    requires
        coherent(run.state),
    ensures
        coherent(finish_response_spec(run, response).state),
{
    lemma_start_message_keeps(remember_response(run, response.id), None);
}

/// Every event leaves the decoder coherent.
pub proof fn law_decoder_stays_coherent(run: Run, event: ReplyView)
    requires
        coherent(run.state),
    ensures
        match decoded(run, event) {
            Ok(after) => coherent(after.state),
            Err(_) => true,
        },
{
    match event {
        ReplyView::ResponseOutputItemAdded { output_index, item } => {
            lemma_item_added_keeps(run, output_index, item);
        },
        ReplyView::ResponseOutputTextDelta { delta } => {
            lemma_text_keeps_calls(run, delta);
        },
        ReplyView::ResponseOutputTextDone { text } => {
            lemma_text_keeps_calls(run, text);
        },
        ReplyView::ResponseRefusalDelta { delta } => {
            lemma_text_keeps_calls(run, delta);
        },
        ReplyView::ResponseRefusalDone { refusal } => {
            lemma_text_keeps_calls(run, refusal);
        },
        ReplyView::ResponseReasoningSummaryPartAdded => {
            lemma_reasoning_keeps_calls(run, Seq::empty(), ReasoningStreamMode::Summary, None);
        },
        ReplyView::ResponseReasoningSummaryTextDelta { delta } => {
            lemma_reasoning_keeps_calls(run, delta, ReasoningStreamMode::Summary, None);
        },
        ReplyView::ResponseReasoningSummaryTextDone { text } => {
            lemma_reasoning_keeps_calls(run, text, ReasoningStreamMode::Summary, None);
        },
        ReplyView::ResponseReasoningTextDelta { delta } => {
            lemma_reasoning_keeps_calls(run, delta, ReasoningStreamMode::Text, None);
        },
        ReplyView::ResponseReasoningTextDone { text } => {
            lemma_reasoning_keeps_calls(run, text, ReasoningStreamMode::Text, None);
        },
        ReplyView::ResponseFunctionCallArgumentsDelta { item_id, delta } => {
            lemma_extend_call_keeps(run, item_id, delta);
        },
        ReplyView::ResponseFunctionCallArgumentsDone { item_id, arguments } => {
            lemma_finish_call_keeps(run, item_id, arguments, None);
        },
        ReplyView::ResponseOutputItemDone { output_index, item } => {
            lemma_item_done_keeps(run, output_index, item);
        },
        ReplyView::ResponseCompleted { response } => {
            lemma_finish_response_keeps(run, response);
        },
        ReplyView::ResponseIncomplete { response } => {
            lemma_finish_response_keeps(run, response);
        },
        _ => {},
    }
}

} // verus!
