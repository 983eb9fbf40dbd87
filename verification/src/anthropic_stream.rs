//! Turns the events of a streamed Anthropic Messages reply into stream events.

use std::collections::BTreeMap;

use vstd::prelude::*;

use crate::codec_common::{
    canonical_name, canonical_tool_name, duplicate_tool_specs, tool_names, ToolNames,
};
use crate::ids::{IdSource, IdsView};
use crate::json::{json_text, str_view, string_view, Json, JsonView};
use crate::openai_error::{classify_error_payload, payload_retryability};
use crate::protocol::{
    events_view, no_usage, push_event, BlockId, CodecError, ErrorView, EventView, MessageId,
    ProviderError, ProviderKind, ProviderRequest, StopReason, StreamEvent,
    ToolCallId, ToolName, ToolSpec, Usage,
};
use crate::text::{concat2, same_text};

verus! {

/// A content block that has been opened and not yet closed.
#[derive(Debug)]
pub enum AnthropicStreamBlock {
    Text { id: BlockId },
    Thinking { id: BlockId, signature: Option<String> },
    ToolUse { id: BlockId },
}

pub ghost enum BlockView {
    Text { id: Seq<char> },
    Thinking { id: Seq<char>, signature: Option<Seq<char>> },
    ToolUse { id: Seq<char> },
}

impl AnthropicStreamBlock {
    pub open spec fn view(&self) -> BlockView {
        match self {
            AnthropicStreamBlock::Text { id } => BlockView::Text { id: id.0@ },
            AnthropicStreamBlock::Thinking { id, signature } => BlockView::Thinking {
                id: id.0@,
                signature: string_view(*signature),
            },
            AnthropicStreamBlock::ToolUse { id } => BlockView::ToolUse { id: id.0@ },
        }
    }
}

/// Reads one streamed reply, event by event.
#[derive(Debug)]
pub struct AnthropicStreamDecoder {
    pub tool_specs: Vec<ToolSpec>,
    pub provider_kind: ProviderKind,
    pub message_id: Option<MessageId>,
    pub stop_reason: StopReason,
    pub usage: Usage,
    pub blocks: BTreeMap<u64, AnthropicStreamBlock>,
}

/// What a decoder knows between two events.
pub ghost struct DecoderView {
    pub names: Seq<ToolNames>,
    pub message_id: Option<Seq<char>>,
    pub stop_reason: StopReason,
    pub usage: Usage,
    pub blocks: Map<u64, BlockView>,
}

/// What one event makes of a decoder: its next state, the identifiers that are
/// left, and the stream events or the failure message.
pub ghost struct Decoded {
    pub state: DecoderView,
    pub ids: IdsView,
    pub events: Result<Seq<EventView>, Seq<char>>,
}

pub open spec fn blocks_view(blocks: Map<u64, AnthropicStreamBlock>) -> Map<u64, BlockView> {
    blocks.map_values(|block: AnthropicStreamBlock| block@)
}

pub open spec fn id_view(id: Option<MessageId>) -> Option<Seq<char>> {
    match id {
        Some(id) => Some(id.0@),
        None => None,
    }
}

pub open spec fn result_view(
    result: Result<Vec<StreamEvent>, CodecError>,
) -> Result<Seq<EventView>, Seq<char>> {
    match result {
        Ok(events) => Ok(events_view(events@)),
        Err(error) => Err(error@),
    }
}

impl AnthropicStreamDecoder {
    pub open spec fn view(&self) -> DecoderView {
        DecoderView {
            names: tool_names(self.tool_specs@, self.provider_kind),
            message_id: id_view(self.message_id),
            stop_reason: self.stop_reason,
            usage: self.usage,
            blocks: blocks_view(self.blocks@),
        }
    }
}

/// A token count of a reply's `usage` object; missing counts are zero.
pub open spec fn usage_count(response: JsonView, key: Seq<char>) -> u64 {
    match response.get_in("usage"@, key) {
        Some(value) => match value.as_u64() {
            Some(count) => count,
            None => 0,
        },
        None => 0,
    }
}

pub open spec fn usage_of(response: JsonView) -> Usage {
    Usage {
        input_tokens: usage_count(response, "input_tokens"@),
        output_tokens: usage_count(response, "output_tokens"@),
        cache_creation_input_tokens: usage_count(response, "cache_creation_input_tokens"@),
        cache_read_input_tokens: usage_count(response, "cache_read_input_tokens"@),
    }
}

pub open spec fn stop_reason_of(value: Seq<char>) -> StopReason {
    if value == "tool_use"@ {
        StopReason::ToolUse
    } else if value == "max_tokens"@ {
        StopReason::MaxTokens
    } else if value == "pause_turn"@ {
        StopReason::Interrupted
    } else if value == "refusal"@ {
        StopReason::Error
    } else {
        StopReason::EndTurn
    }
}

pub open spec fn has_type_spec(value: JsonView, name: Seq<char>) -> bool {
    value.get_str("type"@) == Some(name)
}

/// The text, unless it is missing or empty.
pub open spec fn some_text(text: Option<Seq<char>>) -> Option<Seq<char>> {
    match text {
        Some(text) if text.len() > 0 => Some(text),
        _ => None,
    }
}

pub open spec fn message_started(state: DecoderView, ids: IdsView, event: JsonView) -> Decoded {
    let given = match event.get_in("message"@, "id"@) {
        Some(id) => id.as_str(),
        None => None,
    };
    let id = match given {
        Some(id) => id,
        None => ids.fresh(),
    };
    Decoded {
        state: DecoderView {
            message_id: Some(id),
            usage: usage_of(
                match event.get("message"@) {
                    Some(message) => message,
                    None => event,
                },
            ),
            ..state
        },
        ids: if given is Some {
            ids
        } else {
            ids.advanced()
        },
        events: Ok(seq![EventView::MessageStart { id }]),
    }
}

pub open spec fn missing_index() -> Seq<char> {
    "failed to decode anthropic stream event: missing index"@
}

/// An opening event, and a delta for the text that came with it.
pub open spec fn opening(
    state: DecoderView,
    ids: IdsView,
    index: u64,
    block: BlockView,
    start: EventView,
    delta: Option<EventView>,
) -> Decoded {
    Decoded {
        state: DecoderView { blocks: state.blocks.insert(index, block), ..state },
        ids,
        events: Ok(
            match delta {
                Some(delta) => seq![start, delta],
                None => seq![start],
            },
        ),
    }
}

pub open spec fn text_block_started(
    state: DecoderView,
    ids: IdsView,
    index: u64,
    block: JsonView,
) -> Decoded {
    let id = ids.fresh();
    opening(
        state,
        ids.advanced(),
        index,
        BlockView::Text { id },
        EventView::TextStart { id },
        match some_text(block.get_str("text"@)) {
            Some(delta) => Some(EventView::TextDelta { id, delta }),
            None => None,
        },
    )
}

pub open spec fn thinking_block_started(
    state: DecoderView,
    ids: IdsView,
    index: u64,
    block: JsonView,
) -> Decoded {
    let id = ids.fresh();
    opening(
        state,
        ids.advanced(),
        index,
        BlockView::Thinking { id, signature: some_text(block.get_str("signature"@)) },
        EventView::ThinkingStart { id },
        match some_text(block.get_str("thinking"@)) {
            Some(delta) => Some(EventView::ThinkingDelta { id, delta }),
            None => None,
        },
    )
}

/// The arguments that come with the opening of a tool call: an object that is
/// not empty.
pub open spec fn opening_arguments(block: JsonView) -> Option<Seq<char>> {
    match block.get("input"@) {
        Some(JsonView::Object(fields)) if fields.len() > 0 => Some(
            json_text(JsonView::Object(fields)),
        ),
        _ => None,
    }
}

pub open spec fn given_tool_name(name: Option<Seq<char>>, names: Seq<ToolNames>) -> Seq<char> {
    match name {
        Some(name) => canonical_name(name, names),
        None => "tool"@,
    }
}

pub open spec fn tool_block_started(
    state: DecoderView,
    ids: IdsView,
    index: u64,
    block: JsonView,
) -> Decoded {
    let id = ids.fresh();
    let given = block.get_str("id"@);
    opening(
        state,
        if given is Some {
            ids.advanced()
        } else {
            ids.advanced().advanced()
        },
        index,
        BlockView::ToolUse { id },
        EventView::ToolCallStart {
            id,
            tool_call_id: match given {
                Some(tool_call_id) => tool_call_id,
                None => ids.advanced().fresh(),
            },
            name: given_tool_name(block.get_str("name"@), state.names),
        },
        match opening_arguments(block) {
            Some(delta) => Some(EventView::ToolArgsDelta { id, delta }),
            None => None,
        },
    )
}

pub open spec fn unchanged(state: DecoderView, ids: IdsView) -> Decoded {
    Decoded { state, ids, events: Ok(Seq::empty()) }
}

pub open spec fn failed(state: DecoderView, ids: IdsView, message: Seq<char>) -> Decoded {
    Decoded { state, ids, events: Err(message) }
}

pub open spec fn block_started(state: DecoderView, ids: IdsView, event: JsonView) -> Decoded {
    let block = match event.get("content_block"@) {
        Some(block) => block,
        None => event,
    };
    match event.get_u64("index"@) {
        None => failed(state, ids, missing_index()),
        Some(index) => if has_type_spec(block, "text"@) {
            text_block_started(state, ids, index, block)
        } else if has_type_spec(block, "thinking"@) {
            thinking_block_started(state, ids, index, block)
        } else if has_type_spec(block, "tool_use"@) {
            tool_block_started(state, ids, index, block)
        } else {
            unchanged(state, ids)
        },
    }
}

/// What a delta says, given the block it belongs to: the block afterwards, and
/// the stream event.
pub open spec fn block_delta(block: BlockView, delta: JsonView) -> (BlockView, Option<EventView>) {
    let none: Option<EventView> = None;
    if has_type_spec(delta, "text_delta"@) {
        match (block, some_text(delta.get_str("text"@))) {
            (BlockView::Text { id }, Some(text)) => (
                block,
                Some(EventView::TextDelta { id, delta: text }),
            ),
            _ => (block, none),
        }
    } else if has_type_spec(delta, "thinking_delta"@) {
        match (block, some_text(delta.get_str("thinking"@))) {
            (BlockView::Thinking { id, .. }, Some(text)) => (
                block,
                Some(EventView::ThinkingDelta { id, delta: text }),
            ),
            _ => (block, none),
        }
    } else if has_type_spec(delta, "signature_delta"@) {
        match block {
            BlockView::Thinking { id, .. } => (
                BlockView::Thinking { id, signature: delta.get_str("signature"@) },
                none,
            ),
            _ => (block, none),
        }
    } else if has_type_spec(delta, "input_json_delta"@) {
        match (block, some_text(delta.get_str("partial_json"@))) {
            (BlockView::ToolUse { id }, Some(text)) => (
                block,
                Some(EventView::ToolArgsDelta { id, delta: text }),
            ),
            _ => (block, none),
        }
    } else {
        (block, none)
    }
}

pub open spec fn block_continued(state: DecoderView, ids: IdsView, event: JsonView) -> Decoded {
    match event.get_u64("index"@) {
        None => failed(state, ids, missing_index()),
        Some(index) => if state.blocks.contains_key(index) {
            let delta = match event.get("delta"@) {
                Some(delta) => delta,
                None => event,
            };
            let (block, said) = block_delta(state.blocks[index], delta);
            Decoded {
                state: DecoderView { blocks: state.blocks.insert(index, block), ..state },
                ids,
                events: Ok(
                    match said {
                        Some(said) => seq![said],
                        None => Seq::empty(),
                    },
                ),
            }
        } else {
            unchanged(state, ids)
        },
    }
}

/// The event that closes a block.
pub open spec fn closing(block: BlockView) -> EventView {
    match block {
        BlockView::Text { id } => EventView::TextEnd { id },
        BlockView::Thinking { id, signature } => EventView::ThinkingEnd { id, signature },
        BlockView::ToolUse { id } => EventView::ToolCallEnd { id },
    }
}

pub open spec fn block_stopped(state: DecoderView, ids: IdsView, event: JsonView) -> Decoded {
    match event.get_u64("index"@) {
        None => failed(state, ids, missing_index()),
        Some(index) => if state.blocks.contains_key(index) {
            Decoded {
                state: DecoderView { blocks: state.blocks.remove(index), ..state },
                ids,
                events: Ok(seq![closing(state.blocks[index])]),
            }
        } else {
            unchanged(state, ids)
        },
    }
}

pub open spec fn message_changed(state: DecoderView, ids: IdsView, event: JsonView) -> Decoded {
    let stop_reason = match event.get_in("delta"@, "stop_reason"@) {
        Some(value) => match value.as_str() {
            Some(reason) => stop_reason_of(reason),
            None => state.stop_reason,
        },
        None => state.stop_reason,
    };
    let usage = match event.get_in("usage"@, "output_tokens"@) {
        Some(value) => match value.as_u64() {
            Some(output_tokens) => Usage { output_tokens, ..state.usage },
            None => state.usage,
        },
        None => state.usage,
    };
    Decoded {
        state: DecoderView { stop_reason, usage, ..state },
        ids,
        events: Ok(seq![EventView::UsageUpdate { usage }]),
    }
}

pub open spec fn message_stopped(state: DecoderView, ids: IdsView) -> Decoded {
    Decoded {
        state,
        ids: if state.message_id is Some {
            ids
        } else {
            ids.advanced()
        },
        events: Ok(
            seq![
                EventView::MessageEnd {
                    id: match state.message_id {
                        Some(id) => id,
                        None => ids.fresh(),
                    },
                    stop_reason: state.stop_reason,
                    response_id: None,
                },
            ],
        ),
    }
}

/// What an error event says.
pub open spec fn failure_words(event: JsonView) -> Seq<char> {
    match event.get_in_str("error"@, "message"@) {
        Some(message) => message,
        None => "anthropic stream error"@,
    }
}

/// The error that an error event reports: its tag and its words decide whether
/// another attempt is worth it.
pub open spec fn reported_error(event: JsonView) -> ErrorView {
    let retryability = payload_retryability(
        None,
        event.get_in_str("error"@, "type"@),
        failure_words(event),
    );
    ErrorView {
        message: "failed to execute provider request: "@ + failure_words(event),
        kind: retryability.kind,
        backoff_hint: retryability.backoff_hint,
    }
}

/// What one event of the reply makes of a decoder.
pub open spec fn decoded(state: DecoderView, ids: IdsView, event: JsonView) -> Decoded {
    if has_type_spec(event, "message_start"@) {
        message_started(state, ids, event)
    } else if has_type_spec(event, "content_block_start"@) {
        block_started(state, ids, event)
    } else if has_type_spec(event, "content_block_delta"@) {
        block_continued(state, ids, event)
    } else if has_type_spec(event, "content_block_stop"@) {
        block_stopped(state, ids, event)
    } else if has_type_spec(event, "message_delta"@) {
        message_changed(state, ids, event)
    } else if has_type_spec(event, "message_stop"@) {
        message_stopped(state, ids)
    } else if has_type_spec(event, "error"@) {
        Decoded {
            state,
            ids,
            events: Ok(seq![EventView::Error { error: reported_error(event) }]),
        }
    } else {
        unchanged(state, ids)
    }
}

/// Whether the value's `type` is `name`.
pub fn has_type(value: &Json, name: &str) -> (yes: bool)
    ensures
        yes == has_type_spec(value@, name@),
{
    match value.get_str("type") {
        Some(kind) => same_text(kind, name),
        None => false,
    }
}

fn nonempty(text: Option<&str>) -> (kept: Option<&str>)
    ensures
        str_view(kept) == some_text(str_view(text)),
{
    match text {
        Some(text) if !text.is_empty() => Some(text),
        _ => None,
    }
}

pub fn owned(text: Option<&str>) -> (copy: Option<String>)
    ensures
        string_view(copy) == str_view(text),
{
    match text {
        Some(text) => Some(text.to_owned()),
        None => None,
    }
}

pub fn read_usage_count(response: &Json, key: &str) -> (count: u64)
    ensures
        count == usage_count(response@, key@),
{
    match response.get_in("usage", key) {
        Some(value) => match value.as_u64() {
            Some(count) => count,
            None => 0,
        },
        None => 0,
    }
}

pub fn decode_usage(response: &Json) -> (usage: Usage)
    ensures
        usage == usage_of(response@),
{
    Usage {
        input_tokens: read_usage_count(response, "input_tokens"),
        output_tokens: read_usage_count(response, "output_tokens"),
        cache_creation_input_tokens: read_usage_count(response, "cache_creation_input_tokens"),
        cache_read_input_tokens: read_usage_count(response, "cache_read_input_tokens"),
    }
}

pub fn decode_stop_reason_value(value: &str) -> (reason: StopReason)
    ensures
        reason == stop_reason_of(value@),
{
    if same_text(value, "tool_use") {
        StopReason::ToolUse
    } else if same_text(value, "max_tokens") {
        StopReason::MaxTokens
    } else if same_text(value, "pause_turn") {
        StopReason::Interrupted
    } else if same_text(value, "refusal") {
        StopReason::Error
    } else {
        StopReason::EndTurn
    }
}

fn event_index(event: &Json) -> (index: Result<u64, CodecError>)
    ensures
        match index {
            Ok(index) => event@.get_u64("index"@) == Some(index),
            Err(error) => event@.get_u64("index"@) is None && error@ == missing_index(),
        },
{
    match event.get_u64("index") {
        Some(index) => Ok(index),
        None => Err(CodecError::new("failed to decode anthropic stream event: missing index")),
    }
}

fn member_or_self<'a>(event: &'a Json, key: &str) -> (member: &'a Json)
    ensures
        member@ == match event@.get(key@) {
            Some(member) => member,
            None => event@,
        },
{
    match event.get(key) {
        Some(member) => member,
        None => event,
    }
}

fn single(event: StreamEvent) -> (events: Vec<StreamEvent>)
    ensures
        events_view(events@) == seq![event@],
{
    let mut events: Vec<StreamEvent> = Vec::new();
    push_event(&mut events, event);
    assert(events_view(events@) =~= seq![event@]);
    events
}

/// The given tool name as the tool it stands for.
pub fn named_tool(name: Option<&str>, specs: &Vec<ToolSpec>, kind: ProviderKind) -> (tool: ToolName)
    ensures
        tool.0@ == given_tool_name(str_view(name), tool_names(specs@, kind)),
{
    match name {
        Some(name) => canonical_tool_name(name, specs, kind),
        None => ToolName("tool".to_owned()),
    }
}

impl AnthropicStreamDecoder {
    pub fn new(request: &ProviderRequest) -> (decoder: AnthropicStreamDecoder)
        ensures
            decoder@ == (DecoderView {
                names: tool_names(request.tools@, request.model.provider_kind),
                message_id: None,
                stop_reason: StopReason::EndTurn,
                usage: no_usage(),
                blocks: Map::empty(),
            }),
    {
        let decoder = AnthropicStreamDecoder {
            tool_specs: duplicate_tool_specs(&request.tools),
            provider_kind: request.model.provider_kind,
            message_id: None,
            stop_reason: StopReason::EndTurn,
            usage: Usage::default(),
            blocks: BTreeMap::new(),
        };
        assert(decoder@.blocks =~= Map::empty());
        decoder
    }

    /// Reads one event.
    pub fn decode(&mut self, event: &Json, ids: &mut IdSource) -> (result: Result<
        Vec<StreamEvent>,
        CodecError,
    >)
        ensures
            final(self)@ == decoded(old(self)@, old(ids)@, event@).state,
            final(ids)@ == decoded(old(self)@, old(ids)@, event@).ids,
            result_view(result) == decoded(old(self)@, old(ids)@, event@).events,
    {
        if has_type(event, "message_start") {
            Ok(self.decode_message_start(event, ids))
        } else if has_type(event, "content_block_start") {
            self.decode_content_block_start(event, ids)
        } else if has_type(event, "content_block_delta") {
            self.decode_content_block_delta(event, ids)
        } else if has_type(event, "content_block_stop") {
            self.decode_content_block_stop(event, ids)
        } else if has_type(event, "message_delta") {
            Ok(self.decode_message_delta(event, ids))
        } else if has_type(event, "message_stop") {
            Ok(self.decode_message_stop(ids))
        } else if has_type(event, "error") {
            let message = match event.get_in_str("error", "message") {
                Some(message) => message,
                None => "anthropic stream error",
            };
            let retryability = classify_error_payload(
                None,
                event.get_in_str("error", "type"),
                message,
            );
            let error = ProviderError::with_kind(
                concat2("failed to execute provider request: ", message),
                retryability.kind,
            ).with_backoff_hint(retryability.backoff_hint);
            Ok(single(StreamEvent::Error { error }))
        } else {
            let events: Vec<StreamEvent> = Vec::new();
            assert(events_view(events@) =~= Seq::empty());
            Ok(events)
        }
    }

    fn decode_message_start(&mut self, event: &Json, ids: &mut IdSource) -> (events: Vec<
        StreamEvent,
    >)
        ensures
            (Decoded { state: final(self)@, ids: final(ids)@, events: Ok(events_view(events@)) })
                == message_started(old(self)@, old(ids)@, event@),
    {
        let given = match event.get_in("message", "id") {
            Some(id) => id.as_str(),
            None => None,
        };
        let id = match given {
            Some(id) => id.to_owned(),
            None => ids.mint(),
        };
        self.usage = decode_usage(member_or_self(event, "message"));
        self.message_id = Some(MessageId(id.clone()));
        single(StreamEvent::MessageStart { id: MessageId(id) })
    }

    /// Opens a block at `index` and tells of it.
    fn open(
        &mut self,
        index: u64,
        block: AnthropicStreamBlock,
        start: StreamEvent,
        delta: Option<StreamEvent>,
    ) -> (events: Vec<StreamEvent>)
        ensures
            final(self)@ == (DecoderView {
                blocks: old(self)@.blocks.insert(index, block@),
                ..old(self)@
            }),
            events_view(events@) == match delta {
                Some(delta) => seq![start@, delta@],
                None => seq![start@],
            },
    {
        let ghost before = self.blocks@;
        self.blocks.insert(index, block);
        assert(self.blocks@ == before.insert(index, block)) by {
            broadcast use vstd::std_specs::btree::group_btree_axioms;
        }
        assert(blocks_view(self.blocks@) =~= blocks_view(before).insert(index, block@));
        let mut events = single(start);
        if let Some(delta) = delta {
            push_event(&mut events, delta);
            assert(events_view(events@) =~= seq![start@, delta@]);
        }
        events
    }

    fn decode_content_block_start(&mut self, event: &Json, ids: &mut IdSource) -> (result: Result<
        Vec<StreamEvent>,
        CodecError,
    >)
        ensures
            (Decoded { state: final(self)@, ids: final(ids)@, events: result_view(result) })
                == block_started(old(self)@, old(ids)@, event@),
    {
        let index = match event_index(event) {
            Ok(index) => index,
            Err(error) => {
                return Err(error);
            },
        };
        let content_block = member_or_self(event, "content_block");
        if has_type(content_block, "text") {
            let id = ids.mint();
            let delta = match nonempty(content_block.get_str("text")) {
                Some(text) => Some(
                    StreamEvent::TextDelta { id: BlockId(id.clone()), delta: text.to_owned() },
                ),
                None => None,
            };
            Ok(
                self.open(
                    index,
                    AnthropicStreamBlock::Text { id: BlockId(id.clone()) },
                    StreamEvent::TextStart { id: BlockId(id) },
                    delta,
                ),
            )
        } else if has_type(content_block, "thinking") {
            let id = ids.mint();
            let signature = owned(nonempty(content_block.get_str("signature")));
            let delta = match nonempty(content_block.get_str("thinking")) {
                Some(text) => Some(
                    StreamEvent::ThinkingDelta { id: BlockId(id.clone()), delta: text.to_owned() },
                ),
                None => None,
            };
            Ok(
                self.open(
                    index,
                    AnthropicStreamBlock::Thinking { id: BlockId(id.clone()), signature },
                    StreamEvent::ThinkingStart { id: BlockId(id) },
                    delta,
                ),
            )
        } else if has_type(content_block, "tool_use") {
            let id = ids.mint();
            let tool_call_id = match content_block.get_str("id") {
                Some(tool_call_id) => tool_call_id.to_owned(),
                None => ids.mint(),
            };
            let name = named_tool(
                content_block.get_str("name"),
                &self.tool_specs,
                self.provider_kind,
            );
            let delta = match content_block.get("input") {
                Some(input) => match input {
                    Json::Object(fields) => if fields.len() > 0 {
                        Some(
                            StreamEvent::ToolArgsDelta {
                                id: BlockId(id.clone()),
                                delta: input.to_text(),
                            },
                        )
                    } else {
                        None
                    },
                    _ => None,
                },
                None => None,
            };
            Ok(
                self.open(
                    index,
                    AnthropicStreamBlock::ToolUse { id: BlockId(id.clone()) },
                    StreamEvent::ToolCallStart {
                        id: BlockId(id),
                        tool_call_id: ToolCallId(tool_call_id),
                        name,
                    },
                    delta,
                ),
            )
        } else {
            let events: Vec<StreamEvent> = Vec::new();
            assert(events_view(events@) =~= Seq::empty());
            Ok(events)
        }
    }

    fn decode_content_block_delta(&mut self, event: &Json, ids: &mut IdSource) -> (result: Result<
        Vec<StreamEvent>,
        CodecError,
    >)
        ensures
            (Decoded { state: final(self)@, ids: final(ids)@, events: result_view(result) })
                == block_continued(old(self)@, old(ids)@, event@),
    {
        broadcast use vstd::std_specs::btree::group_btree_axioms;

        let index = match event_index(event) {
            Ok(index) => index,
            Err(error) => {
                return Err(error);
            },
        };
        let ghost before = self.blocks@;
        let mut events: Vec<StreamEvent> = Vec::new();
        assert(events_view(events@) =~= Seq::empty());
        let block = match self.blocks.remove(&index) {
            Some(block) => block,
            None => {
                assert(self.blocks@ =~= before);
                return Ok(events);
            },
        };
        let (block, said) = continue_block(block, member_or_self(event, "delta"));
        self.blocks.insert(index, block);
        assert(self.blocks@ =~= before.insert(index, block));
        assert(blocks_view(self.blocks@) =~= blocks_view(before).insert(index, block@));
        if let Some(said) = said {
            push_event(&mut events, said);
            assert(events_view(events@) =~= seq![said@]);
        }
        Ok(events)
    }

    fn decode_content_block_stop(&mut self, event: &Json, ids: &mut IdSource) -> (result: Result<
        Vec<StreamEvent>,
        CodecError,
    >)
        ensures
            (Decoded { state: final(self)@, ids: final(ids)@, events: result_view(result) })
                == block_stopped(old(self)@, old(ids)@, event@),
    {
        broadcast use vstd::std_specs::btree::group_btree_axioms;

        let index = match event_index(event) {
            Ok(index) => index,
            Err(error) => {
                return Err(error);
            },
        };
        let ghost before = self.blocks@;
        match self.blocks.remove(&index) {
            Some(block) => {
                assert(blocks_view(self.blocks@) =~= blocks_view(before).remove(index));
                Ok(
                    single(
                        match block {
                            AnthropicStreamBlock::Text { id } => StreamEvent::TextEnd { id },
                            AnthropicStreamBlock::Thinking {
                                id,
                                signature,
                            } => StreamEvent::ThinkingEnd { id, signature },
                            AnthropicStreamBlock::ToolUse { id } => StreamEvent::ToolCallEnd { id },
                        },
                    ),
                )
            },
            None => {
                assert(self.blocks@ =~= before);
                let events: Vec<StreamEvent> = Vec::new();
                assert(events_view(events@) =~= Seq::empty());
                Ok(events)
            },
        }
    }

    fn decode_message_delta(&mut self, event: &Json, ids: &mut IdSource) -> (events: Vec<
        StreamEvent,
    >)
        ensures
            (Decoded { state: final(self)@, ids: final(ids)@, events: Ok(events_view(events@)) })
                == message_changed(old(self)@, old(ids)@, event@),
    {
        if let Some(value) = event.get_in("delta", "stop_reason") {
            if let Some(reason) = value.as_str() {
                self.stop_reason = decode_stop_reason_value(reason);
            }
        }
        if let Some(value) = event.get_in("usage", "output_tokens") {
            if let Some(output_tokens) = value.as_u64() {
                self.usage.output_tokens = output_tokens;
            }
        }
        single(StreamEvent::UsageUpdate { usage: self.usage })
    }

    fn decode_message_stop(&mut self, ids: &mut IdSource) -> (events: Vec<StreamEvent>)
        ensures
            (Decoded { state: final(self)@, ids: final(ids)@, events: Ok(events_view(events@)) })
                == message_stopped(old(self)@, old(ids)@),
    {
        let id = match &self.message_id {
            Some(id) => id.0.clone(),
            None => ids.mint(),
        };
        single(
            StreamEvent::MessageEnd {
                id: MessageId(id),
                stop_reason: self.stop_reason,
                response_id: None,
            },
        )
    }
}

/// Applies a delta to the block it belongs to.
fn continue_block(block: AnthropicStreamBlock, delta: &Json) -> (result: (
    AnthropicStreamBlock,
    Option<StreamEvent>,
))
    ensures
        result.0@ == block_delta(block@, delta@).0,
        match result.1 {
            Some(event) => block_delta(block@, delta@).1 == Some(event@),
            None => block_delta(block@, delta@).1 is None,
        },
{
    if has_type(delta, "text_delta") {
        let said = match (&block, nonempty(delta.get_str("text"))) {
            (AnthropicStreamBlock::Text { id }, Some(text)) => Some(
                StreamEvent::TextDelta { id: id.clone(), delta: text.to_owned() },
            ),
            _ => None,
        };
        (block, said)
    } else if has_type(delta, "thinking_delta") {
        let said = match (&block, nonempty(delta.get_str("thinking"))) {
            (AnthropicStreamBlock::Thinking { id, .. }, Some(text)) => Some(
                StreamEvent::ThinkingDelta { id: id.clone(), delta: text.to_owned() },
            ),
            _ => None,
        };
        (block, said)
    } else if has_type(delta, "signature_delta") {
        match block {
            AnthropicStreamBlock::Thinking { id, .. } => (
                AnthropicStreamBlock::Thinking { id, signature: owned(delta.get_str("signature")) },
                None,
            ),
            other => (other, None),
        }
    } else if has_type(delta, "input_json_delta") {
        let said = match (&block, nonempty(delta.get_str("partial_json"))) {
            (AnthropicStreamBlock::ToolUse { id }, Some(text)) => Some(
                StreamEvent::ToolArgsDelta { id: id.clone(), delta: text.to_owned() },
            ),
            _ => None,
        };
        (block, said)
    } else {
        (block, None)
    }
}

} // verus!
