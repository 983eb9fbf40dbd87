//! Requests to, and whole replies from, the Anthropic Messages API.

use vstd::prelude::*;

use crate::anthropic_stream::{
    decode_stop_reason_value, decode_usage, given_tool_name, has_type, has_type_spec, named_tool,
    owned, stop_reason_of, usage_of,
};
use crate::codec_common::{
    collect_system_text, normalized_call_id, normalized_tool_call_id, provider_tool_name,
    push_system_texts, result_text, system_text, system_texts, tool_name_for_provider, tool_names,
    tool_result_text, ToolNames,
};
use crate::hash::{base64_encode, base64_text};
use crate::ids::{IdSource, IdsView};
use crate::json::{
    array1, fields_view, items_view, json_text, object1, object2, object3, object4, optional_field,
    owned_view, push_field, push_item, push_optional, set_field, string_view, text_json,
    unsigned_json, with_field, Json, JsonField, JsonNumber, JsonView, NumberView,
};
use crate::protocol::{
    events_view, push_event, ApiKind, AssistantPart, BlockId, CodecError, CompactionView, EventView,
    Message, MessageId, ProviderCompactionRequest, ProviderCompactionResponse, ProviderRequest,
    ReasoningEffort, StopReason, StreamEvent, ToolCallId, ToolResultMessage, ToolSpec, UserPart,
};
use crate::text::{
    concat2, concat3, concat4, concat5, contains, contains_text, decimal, decimal_text, hyphenate,
    hyphenated, join, joined, lower_ascii, push_piece, same_text, to_ascii_lowercase, trim,
    trim_end, trim_end_spec, trimmed, views,
};

verus! {

pub const CACHE_CONTROL_EPHEMERAL: &'static str = "ephemeral";

pub const COMPACTED_CONTEXT_TYPE: &'static str = "halter_compacted_context";

pub const COMPACTED_CONTEXT_OPEN: &'static str = "<compacted_context>";

pub const COMPACTED_CONTEXT_CLOSE: &'static str = "</compacted_context>";

/// Output tokens asked for where the model sets no limit.
pub const DEFAULT_MAX_TOKENS: u32 = 4096;

/// Smallest thinking budget that the API takes.
pub const MIN_THINKING_BUDGET: u32 = 1024;

pub open spec fn text_value(text: Seq<char>) -> JsonView {
    JsonView::Text(text)
}

pub open spec fn number_value(number: u64) -> JsonView {
    JsonView::Number(NumberView::Unsigned(number))
}

pub open spec fn cache_control() -> JsonView {
    JsonView::Object(seq![("type"@, text_value(CACHE_CONTROL_EPHEMERAL@))])
}

fn cache_control_json() -> (value: Json)
    ensures
        value@ == cache_control(),
{
    object1("type", text_json(CACHE_CONTROL_EPHEMERAL))
}

// ---------------------------------------------------------------------------
// System text

/// The texts of the segments, without white space at their ends, that say
/// anything.
pub open spec fn segment_texts(segments: Seq<String>) -> Seq<Seq<char>>
    decreases segments.len(),
{
    if segments.len() == 0 {
        Seq::empty()
    } else {
        let before = segment_texts(segments.drop_last());
        let text = trim_end_spec(segments.last()@);
        if text.len() > 0 {
            before.push(text)
        } else {
            before
        }
    }
}

pub open spec fn rendered_segments(segments: Seq<String>) -> Option<Seq<char>> {
    let combined = joined(segment_texts(segments), "\n\n"@);
    if combined.len() == 0 {
        None
    } else {
        Some(combined)
    }
}

pub open spec fn min_int(a: int, b: int) -> int {
    if a <= b {
        a
    } else {
        b
    }
}

/// Where the system segments end.
pub open spec fn system_end(request: ProviderRequest) -> int {
    min_int(
        request.prompt.system_segment_count as int,
        request.prompt.ordered_segments@.len() as int,
    )
}

/// Where the skill segments end.
pub open spec fn skill_end(request: ProviderRequest) -> int {
    min_int(
        system_end(request) + request.prompt.skill_segment_count,
        request.prompt.ordered_segments@.len() as int,
    )
}

pub open spec fn prefix_item_text(item: JsonView) -> Seq<char> {
    match item.get_str("text"@) {
        Some(text) if has_type_spec(item, COMPACTED_CONTEXT_TYPE@) => text,
        _ => json_text(item),
    }
}

/// The texts of the compacted items that are not blank.
pub open spec fn prefix_texts(items: Seq<JsonView>) -> Seq<Seq<char>>
    decreases items.len(),
{
    if items.len() == 0 {
        Seq::empty()
    } else {
        let before = prefix_texts(items.drop_last());
        let text = prefix_item_text(items.last());
        if trimmed(text).len() > 0 {
            before.push(text)
        } else {
            before
        }
    }
}

pub open spec fn rendered_prefix(items: Seq<JsonView>) -> Option<Seq<char>> {
    let rendered = joined(prefix_texts(items), "\n\n"@);
    if trimmed(rendered).len() == 0 {
        None
    } else {
        Some(COMPACTED_CONTEXT_OPEN@ + "\n"@ + rendered + "\n"@ + COMPACTED_CONTEXT_CLOSE@)
    }
}

pub open spec fn optional_text(text: Option<Seq<char>>) -> Seq<Seq<char>> {
    match text {
        Some(text) => seq![text],
        None => Seq::empty(),
    }
}

/// The sections of the system text behind the pinned ones.
pub open spec fn tail_sections(request: ProviderRequest) -> Seq<Seq<char>> {
    let segments = request.prompt.ordered_segments@;
    optional_text(rendered_segments(segments.subrange(skill_end(request), segments.len() as int)))
        + optional_text(rendered_prefix(items_view(request.compacted_prefix@))) + system_texts(
        request.messages@,
    )
}

pub open spec fn system_tail(request: ProviderRequest) -> Option<Seq<char>> {
    if tail_sections(request).len() == 0 {
        None
    } else {
        Some(joined(tail_sections(request), "\n\n"@))
    }
}

pub open spec fn text_block_value(text: Seq<char>, pinned: bool) -> JsonView {
    let fields = seq![("type"@, text_value("text"@)), ("text"@, text_value(text))];
    JsonView::Object(
        if pinned {
            fields.push(("cache_control"@, cache_control()))
        } else {
            fields
        },
    )
}

pub open spec fn optional_block(text: Option<Seq<char>>, pinned: bool) -> Seq<JsonView> {
    match text {
        Some(text) => seq![text_block_value(text, pinned)],
        None => Seq::empty(),
    }
}

/// The system text in blocks: the system segments and the skill segments, each
/// pinned where asked, then the rest.
pub open spec fn system_blocks(request: ProviderRequest) -> Seq<JsonView> {
    let segments = request.prompt.ordered_segments@;
    let breakpoints = request.prompt.cache_breakpoints;
    optional_block(
        rendered_segments(segments.subrange(0, system_end(request))),
        breakpoints.after_system,
    ) + optional_block(
        rendered_segments(segments.subrange(system_end(request), skill_end(request))),
        breakpoints.after_skills,
    ) + optional_block(system_tail(request), false)
}

/// The `system` member: one flat text where nothing is to be pinned, and blocks
/// otherwise.
pub open spec fn system_value(request: ProviderRequest) -> Option<JsonView> {
    let breakpoints = request.prompt.cache_breakpoints;
    if breakpoints.after_system || breakpoints.after_skills {
        if system_blocks(request).len() == 0 {
            None
        } else {
            Some(JsonView::Array(system_blocks(request)))
        }
    } else {
        match system_text(request) {
            Some(text) => Some(text_value(text)),
            None => None,
        }
    }
}

fn render_segments(segments: &Vec<String>, from: usize, to: usize) -> (text: Option<String>)
    requires
        from <= to <= segments@.len(),
    ensures
        string_view(text) == rendered_segments(segments@.subrange(from as int, to as int)),
{
    let ghost part = segments@.subrange(from as int, to as int);
    let mut texts: Vec<String> = Vec::new();
    let mut i: usize = from;
    while i < to
        invariant
            from <= i <= to <= segments@.len(),
            part == segments@.subrange(from as int, to as int),
            views(texts@) == segment_texts(part.subrange(0, i - from)),
        decreases to - i,
    {
        let ghost done = part.subrange(0, i + 1 - from);
        assert(done.drop_last() == part.subrange(0, i - from));
        assert(done.last() == segments@[i as int]);
        let text = trim_end(&segments[i]);
        if !text.as_str().is_empty() {
            let ghost before = views(texts@);
            texts.push(text);
            assert(views(texts@) =~= before.push(text@));
        }
        i += 1;
    }
    assert(part.subrange(0, i - from) == part);
    let combined = join(&texts, "\n\n");
    if combined.as_str().is_empty() {
        None
    } else {
        Some(combined)
    }
}

fn render_compacted_prefix_item(item: &Json) -> (text: String)
    ensures
        text@ == prefix_item_text(item@),
{
    if has_type(item, COMPACTED_CONTEXT_TYPE) {
        if let Some(text) = item.get_str("text") {
            return text.to_owned();
        }
    }
    item.to_text()
}

pub fn render_compacted_prefix(items: &Vec<Json>) -> (text: Option<String>)
    ensures
        string_view(text) == rendered_prefix(items_view(items@)),
{
    let ghost all = items_view(items@);
    let mut texts: Vec<String> = Vec::new();
    let mut i: usize = 0;
    while i < items.len()
        invariant
            i <= items.len(),
            all == items_view(items@),
            views(texts@) == prefix_texts(all.subrange(0, i as int)),
        decreases items.len() - i,
    {
        assert(all.subrange(0, i + 1).drop_last() == all.subrange(0, i as int));
        let text = render_compacted_prefix_item(&items[i]);
        if !trim(&text).as_str().is_empty() {
            let ghost before = views(texts@);
            texts.push(text);
            assert(views(texts@) =~= before.push(text@));
        }
        i += 1;
    }
    assert(all.subrange(0, i as int) == all);
    let rendered = join(&texts, "\n\n");
    if trim(&rendered).as_str().is_empty() {
        None
    } else {
        Some(concat5(COMPACTED_CONTEXT_OPEN, "\n", &rendered, "\n", COMPACTED_CONTEXT_CLOSE))
    }
}

fn smaller(a: usize, b: usize) -> (m: usize)
    ensures
        m == min_int(a as int, b as int),
{
    if a <= b {
        a
    } else {
        b
    }
}

fn find_system_end(request: &ProviderRequest) -> (end: usize)
    ensures
        end == system_end(*request),
{
    smaller(request.prompt.system_segment_count, request.prompt.ordered_segments.len())
}

fn find_skill_end(request: &ProviderRequest) -> (end: usize)
    ensures
        end == skill_end(*request),
{
    let start = find_system_end(request);
    start + smaller(
        request.prompt.skill_segment_count,
        request.prompt.ordered_segments.len() - start,
    )
}

fn render_system_tail(request: &ProviderRequest) -> (text: Option<String>)
    ensures
        string_view(text) == system_tail(*request),
{
    let segments = &request.prompt.ordered_segments;
    let mut sections: Vec<String> = Vec::new();
    if let Some(text) = render_segments(segments, find_skill_end(request), segments.len()) {
        sections.push(text);
    }
    if let Some(text) = render_compacted_prefix(&request.compacted_prefix) {
        sections.push(text);
    }
    assert(views(sections@) =~= optional_text(
        rendered_segments(segments@.subrange(skill_end(*request), segments@.len() as int)),
    ) + optional_text(rendered_prefix(items_view(request.compacted_prefix@))));
    push_system_texts(&mut sections, &request.messages);
    assert(views(sections@) =~= tail_sections(*request));
    assert(views(sections@).len() == sections@.len());
    if sections.is_empty() {
        None
    } else {
        Some(join(&sections, "\n\n"))
    }
}

fn text_block(text: &str, cache_breakpoint: bool) -> (block: Json)
    ensures
        block@ == text_block_value(text@, cache_breakpoint),
{
    let mut fields: Vec<JsonField> = Vec::new();
    push_field(&mut fields, "type", text_json("text"));
    push_field(&mut fields, "text", text_json(text));
    assert(fields_view(fields@) =~= seq![
        ("type"@, text_value("text"@)),
        ("text"@, text_value(text@)),
    ]);
    if cache_breakpoint {
        push_field(&mut fields, "cache_control", cache_control_json());
    }
    Json::Object(fields)
}

fn push_text_block(blocks: &mut Vec<Json>, text: Option<String>, cache_breakpoint: bool)
    ensures
        items_view(final(blocks)@) == items_view(old(blocks)@) + optional_block(
            string_view(text),
            cache_breakpoint,
        ),
{
    match text {
        Some(text) => {
            push_item(blocks, text_block(&text, cache_breakpoint));
            assert(items_view(blocks@) =~= items_view(old(blocks)@) + optional_block(
                Some(text@),
                cache_breakpoint,
            ));
        },
        None => {
            assert(items_view(blocks@) =~= items_view(old(blocks)@) + Seq::<JsonView>::empty());
        },
    }
}

pub fn encode_system_blocks(request: &ProviderRequest) -> (system: Option<Json>)
    ensures
        owned_view(system) == system_value(*request),
{
    let breakpoints = request.prompt.cache_breakpoints;
    if !(breakpoints.after_system || breakpoints.after_skills) {
        return match collect_system_text(request) {
            Some(text) => Some(Json::Text(text)),
            None => None,
        };
    }
    let segments = &request.prompt.ordered_segments;
    let system_to = find_system_end(request);
    let skill_to = find_skill_end(request);
    let mut blocks: Vec<Json> = Vec::new();
    push_text_block(
        &mut blocks,
        render_segments(segments, 0, system_to),
        breakpoints.after_system,
    );
    push_text_block(
        &mut blocks,
        render_segments(segments, system_to, skill_to),
        breakpoints.after_skills,
    );
    push_text_block(&mut blocks, render_system_tail(request), false);
    assert(items_view(blocks@) =~= system_blocks(*request));
    assert(items_view(blocks@).len() == blocks@.len());
    if blocks.is_empty() {
        None
    } else {
        Some(Json::Array(blocks))
    }
}

// ---------------------------------------------------------------------------
// Messages

pub open spec fn media_value(kind: Seq<char>, media_type: Seq<char>, data: Seq<u8>) -> JsonView {
    JsonView::Object(
        seq![
            ("type"@, text_value(kind)),
            (
                "source"@,
                JsonView::Object(
                    seq![
                        ("type"@, text_value("base64"@)),
                        ("media_type"@, text_value(media_type)),
                        ("data"@, text_value(base64_text(data))),
                    ],
                ),
            ),
        ],
    )
}

pub open spec fn user_part_value(part: UserPart) -> JsonView {
    match part {
        UserPart::Text { text } => text_block_value(text@, false),
        UserPart::Image { media_type, data } => media_value("image"@, media_type@, data@),
        UserPart::Document { media_type, data } => media_value("document"@, media_type@, data@),
    }
}

pub open spec fn user_parts_value(parts: Seq<UserPart>) -> Seq<JsonView> {
    parts.map_values(|part: UserPart| user_part_value(part))
}

pub open spec fn assistant_part_value(part: AssistantPart, names: Seq<ToolNames>) -> Option<
    JsonView,
> {
    match part {
        AssistantPart::Text { text } => if text@.len() > 0 {
            Some(text_block_value(text@, false))
        } else {
            None
        },
        AssistantPart::Thinking(block) => Some(
            JsonView::Object(
                seq![("type"@, text_value("thinking"@)), ("thinking"@, text_value(block.text@))]
                    + optional_field(
                    "signature"@,
                    match block.signature {
                        Some(signature) => Some(text_value(signature@)),
                        None => None,
                    },
                ),
            ),
        ),
        AssistantPart::ToolCall(call) => Some(
            JsonView::Object(
                seq![
                    ("type"@, text_value("tool_use"@)),
                    ("id"@, text_value(normalized_call_id(call.id.0@))),
                    ("name"@, text_value(provider_tool_name(call.name.0@, names))),
                    ("input"@, call.arguments@),
                ],
            ),
        ),
    }
}

pub open spec fn assistant_parts_value(parts: Seq<AssistantPart>, names: Seq<ToolNames>) -> Seq<
    JsonView,
>
    decreases parts.len(),
{
    if parts.len() == 0 {
        Seq::empty()
    } else {
        let before = assistant_parts_value(parts.drop_last(), names);
        match assistant_part_value(parts.last(), names) {
            Some(value) => before.push(value),
            None => before,
        }
    }
}

pub open spec fn tool_result_value(message: ToolResultMessage) -> JsonView {
    JsonView::Object(
        seq![
            ("type"@, text_value("tool_result"@)),
            ("tool_use_id"@, text_value(normalized_call_id(message.call_id.0@))),
            ("content"@, text_value(result_text(message.content, message.error))),
            ("is_error"@, JsonView::Bool(message.error is Some)),
        ],
    )
}

pub open spec fn role_message(role: Seq<char>, content: Seq<JsonView>) -> JsonView {
    JsonView::Object(seq![("role"@, text_value(role)), ("content"@, JsonView::Array(content))])
}

/// The messages encoded so far, and the tool results that wait to be sent
/// together as one user message.
pub ghost struct EncodedMessages {
    pub sent: Seq<JsonView>,
    pub waiting: Seq<JsonView>,
}

pub open spec fn flushed(encoded: EncodedMessages) -> Seq<JsonView> {
    if encoded.waiting.len() == 0 {
        encoded.sent
    } else {
        encoded.sent.push(role_message("user"@, encoded.waiting))
    }
}

pub open spec fn encode_step(
    encoded: EncodedMessages,
    message: Message,
    names: Seq<ToolNames>,
) -> EncodedMessages {
    match message {
        Message::System(_) => encoded,
        Message::User(user) => EncodedMessages {
            sent: flushed(encoded).push(role_message("user"@, user_parts_value(user.parts@))),
            waiting: Seq::empty(),
        },
        Message::Assistant(assistant) => {
            let content = assistant_parts_value(assistant.parts@, names);
            EncodedMessages {
                sent: if content.len() > 0 {
                    flushed(encoded).push(role_message("assistant"@, content))
                } else {
                    flushed(encoded)
                },
                waiting: Seq::empty(),
            }
        },
        Message::Tool(tool) => EncodedMessages {
            sent: encoded.sent,
            waiting: encoded.waiting.push(tool_result_value(tool)),
        },
    }
}

pub open spec fn encoded_messages(messages: Seq<Message>, names: Seq<ToolNames>) -> EncodedMessages
    decreases messages.len(),
{
    if messages.len() == 0 {
        EncodedMessages { sent: Seq::empty(), waiting: Seq::empty() }
    } else {
        encode_step(encoded_messages(messages.drop_last(), names), messages.last(), names)
    }
}

pub open spec fn is_user_message(message: JsonView) -> bool {
    message.get_str("role"@) == Some("user"@)
}

/// The content with `cache_control` on its last block.
pub open spec fn pinned_content(content: Seq<JsonView>) -> Seq<JsonView> {
    if content.len() == 0 {
        content
    } else {
        match content.last() {
            JsonView::Object(fields) => content.drop_last().push(
                JsonView::Object(with_field(fields, "cache_control"@, cache_control())),
            ),
            _ => content,
        }
    }
}

pub open spec fn pinned_message(message: JsonView) -> JsonView {
    match message {
        JsonView::Object(fields) => match message.get_array("content"@) {
            Some(content) => JsonView::Object(
                with_field(fields, "content"@, JsonView::Array(pinned_content(content))),
            ),
            None => message,
        },
        _ => message,
    }
}

/// The messages with the most recent user message pinned.
pub open spec fn pinned_messages(messages: Seq<JsonView>) -> Seq<JsonView>
    decreases messages.len(),
{
    if messages.len() == 0 {
        messages
    } else if is_user_message(messages.last()) {
        messages.drop_last().push(pinned_message(messages.last()))
    } else {
        pinned_messages(messages.drop_last()).push(messages.last())
    }
}

pub open spec fn messages_value(request: ProviderRequest) -> Seq<JsonView> {
    let names = tool_names(request.tools@, request.model.provider_kind);
    let sent = flushed(encoded_messages(request.messages@, names));
    if request.prompt.cache_breakpoints.after_user_prompt {
        pinned_messages(sent)
    } else {
        sent
    }
}

fn encode_media(kind: &str, media_type: &str, data: &[u8]) -> (value: Json)
    requires
        data@.len() <= crate::protocol::media_limit(),
    ensures
        value@ == media_value(kind@, media_type@, data@),
{
    let source = object3(
        "type",
        text_json("base64"),
        "media_type",
        text_json(media_type),
        "data",
        Json::Text(base64_encode(data)),
    );
    object2("type", text_json(kind), "source", source)
}

fn encode_user_part(part: &UserPart) -> (value: Json)
    ensures
        value@ == user_part_value(*part),
{
    match part {
        UserPart::Text { text } => text_block(text, false),
        UserPart::Image { media_type, data } => encode_media("image", media_type, data.as_slice()),
        UserPart::Document { media_type, data } => encode_media(
            "document",
            media_type,
            data.as_slice(),
        ),
    }
}

pub fn encode_user_parts(parts: &Vec<UserPart>) -> (content: Vec<Json>)
    ensures
        items_view(content@) == user_parts_value(parts@),
{
    let mut content: Vec<Json> = Vec::new();
    let mut i: usize = 0;
    while i < parts.len()
        invariant
            i <= parts.len(),
            items_view(content@) == user_parts_value(parts@.subrange(0, i as int)),
        decreases parts.len() - i,
    {
        push_item(&mut content, encode_user_part(&parts[i]));
        assert(items_view(content@) =~= user_parts_value(parts@.subrange(0, i + 1)));
        i += 1;
    }
    assert(parts@.subrange(0, i as int) == parts@);
    content
}

fn encode_assistant_part(part: &AssistantPart, request: &ProviderRequest) -> (value: Option<Json>)
    ensures
        owned_view(value) == assistant_part_value(
            *part,
            tool_names(request.tools@, request.model.provider_kind),
        ),
{
    match part {
        AssistantPart::Text { text } => if !text.as_str().is_empty() {
            Some(text_block(text, false))
        } else {
            None
        },
        AssistantPart::Thinking(block) => {
            let mut fields: Vec<JsonField> = Vec::new();
            push_field(&mut fields, "type", text_json("thinking"));
            push_field(&mut fields, "thinking", text_json(&block.text));
            let signature = match &block.signature {
                Some(signature) => Some(text_json(signature)),
                None => None,
            };
            push_optional(&mut fields, "signature", signature);
            assert(fields_view(fields@) =~= seq![
                ("type"@, text_value("thinking"@)),
                ("thinking"@, text_value(block.text@)),
            ] + optional_field("signature"@, owned_view(signature)));
            Some(Json::Object(fields))
        },
        AssistantPart::ToolCall(call) => Some(
            object4(
                "type",
                text_json("tool_use"),
                "id",
                Json::Text(normalized_tool_call_id(&call.id)),
                "name",
                Json::Text(
                    tool_name_for_provider(
                        &call.name,
                        &request.tools,
                        request.model.provider_kind,
                    ),
                ),
                "input",
                call.arguments.duplicate(),
            ),
        ),
    }
}

pub fn encode_assistant_parts(request: &ProviderRequest, parts: &Vec<AssistantPart>) -> (content:
    Vec<Json>)
    ensures
        items_view(content@) == assistant_parts_value(
            parts@,
            tool_names(request.tools@, request.model.provider_kind),
        ),
{
    let ghost names = tool_names(request.tools@, request.model.provider_kind);
    let mut content: Vec<Json> = Vec::new();
    assert(items_view(content@) =~= Seq::empty());
    let mut i: usize = 0;
    while i < parts.len()
        invariant
            i <= parts.len(),
            names == tool_names(request.tools@, request.model.provider_kind),
            items_view(content@) == assistant_parts_value(parts@.subrange(0, i as int), names),
        decreases parts.len() - i,
    {
        assert(parts@.subrange(0, i + 1).drop_last() == parts@.subrange(0, i as int));
        if let Some(value) = encode_assistant_part(&parts[i], request) {
            push_item(&mut content, value);
        }
        i += 1;
    }
    assert(parts@.subrange(0, i as int) == parts@);
    content
}

fn encode_tool_result(message: &ToolResultMessage) -> (value: Json)
    ensures
        value@ == tool_result_value(*message),
{
    object4(
        "type",
        text_json("tool_result"),
        "tool_use_id",
        Json::Text(normalized_tool_call_id(&message.call_id)),
        "content",
        Json::Text(tool_result_text(&message.content, &message.error)),
        "is_error",
        Json::Bool(message.error.is_some()),
    )
}

fn flush_tool_results(encoded: &mut Vec<Json>, pending_tool_results: Vec<Json>)
    ensures
        items_view(final(encoded)@) == flushed(
            EncodedMessages {
                sent: items_view(old(encoded)@),
                waiting: items_view(pending_tool_results@),
            },
        ),
{
    assert(items_view(pending_tool_results@).len() == pending_tool_results@.len());
    if pending_tool_results.is_empty() {
        return ;
    }
    push_item(
        encoded,
        object2("role", text_json("user"), "content", Json::Array(pending_tool_results)),
    );
}

pub fn encode_messages(request: &ProviderRequest) -> (encoded: Vec<Json>)
    ensures
        items_view(encoded@) == messages_value(*request),
{
    let ghost names = tool_names(request.tools@, request.model.provider_kind);
    let mut encoded: Vec<Json> = Vec::new();
    let mut pending: Vec<Json> = Vec::new();
    assert(items_view(encoded@) =~= Seq::empty());
    let mut i: usize = 0;
    while i < request.messages.len()
        invariant
            i <= request.messages.len(),
            names == tool_names(request.tools@, request.model.provider_kind),
            (EncodedMessages { sent: items_view(encoded@), waiting: items_view(pending@) })
                == encoded_messages(request.messages@.subrange(0, i as int), names),
        decreases request.messages.len() - i,
    {
        assert(request.messages@.subrange(0, i + 1).drop_last() == request.messages@.subrange(
            0,
            i as int,
        ));
        match &request.messages[i] {
            Message::System(_) => {},
            Message::User(user) => {
                flush_tool_results(&mut encoded, pending);
                pending = Vec::new();
                assert(items_view(pending@) =~= Seq::empty());
                push_item(
                    &mut encoded,
                    object2(
                        "role",
                        text_json("user"),
                        "content",
                        Json::Array(encode_user_parts(&user.parts)),
                    ),
                );
            },
            Message::Assistant(assistant) => {
                flush_tool_results(&mut encoded, pending);
                pending = Vec::new();
                assert(items_view(pending@) =~= Seq::empty());
                let content = encode_assistant_parts(request, &assistant.parts);
                assert(items_view(content@).len() == content@.len());
                if !content.is_empty() {
                    push_item(
                        &mut encoded,
                        object2("role", text_json("assistant"), "content", Json::Array(content)),
                    );
                }
            },
            Message::Tool(tool) => {
                push_item(&mut pending, encode_tool_result(tool));
            },
        }
        i += 1;
    }
    assert(request.messages@.subrange(0, i as int) == request.messages@);
    flush_tool_results(&mut encoded, pending);
    if request.prompt.cache_breakpoints.after_user_prompt {
        attach_cache_breakpoint_to_last_user_message(&mut encoded);
    }
    encoded
}

fn pin_content(content: &mut Vec<Json>)
    ensures
        items_view(final(content)@) == pinned_content(items_view(old(content)@)),
{
    let ghost before = items_view(content@);
    match content.pop() {
        Some(Json::Object(fields)) => {
            let mut fields = fields;
            set_field(&mut fields, "cache_control", cache_control_json());
            assert(items_view(content@) =~= before.drop_last());
            push_item(content, Json::Object(fields));
        },
        Some(block) => {
            content.push(block);
            assert(items_view(content@) =~= before);
        },
        None => {
            assert(items_view(content@) =~= before);
        },
    }
}

fn pin_message(message: Json) -> (pinned: Json)
    ensures
        pinned@ == pinned_message(message@),
{
    let content = match message.get_array("content") {
        Some(content) => {
            let mut copy: Vec<Json> = Vec::new();
            crate::json::push_copies(&mut copy, content);
            assert(items_view(copy@) =~= items_view(content@));
            Some(copy)
        },
        None => None,
    };
    match (message, content) {
        (Json::Object(fields), Some(content)) => {
            let mut fields = fields;
            let mut content = content;
            pin_content(&mut content);
            set_field(&mut fields, "content", Json::Array(content));
            Json::Object(fields)
        },
        (message, _) => message,
    }
}

/// Puts `cache_control` on the last content block of the most recent user
/// message.
pub fn attach_cache_breakpoint_to_last_user_message(messages: &mut Vec<Json>)
    ensures
        items_view(final(messages)@) == pinned_messages(items_view(old(messages)@)),
    decreases old(messages)@.len(),
{
    let ghost before = items_view(messages@);
    match messages.pop() {
        Some(message) => {
            assert(items_view(messages@) =~= before.drop_last());
            let is_user = match message.get_str("role") {
                Some(role) => same_text(role, "user"),
                None => false,
            };
            if is_user {
                push_item(messages, pin_message(message));
            } else {
                attach_cache_breakpoint_to_last_user_message(messages);
                push_item(messages, message);
            }
        },
        None => {
            assert(items_view(messages@) =~= before);
        },
    }
}

// ---------------------------------------------------------------------------
// Tools and thinking

pub open spec fn tool_value(spec: ToolSpec, names: Seq<ToolNames>, pinned: bool) -> JsonView {
    let fields = seq![
        ("name"@, text_value(provider_tool_name(spec.name.0@, names))),
        ("description"@, text_value(spec.description@)),
        ("input_schema"@, spec.input_schema@),
    ];
    JsonView::Object(
        if pinned {
            fields.push(("cache_control"@, cache_control()))
        } else {
            fields
        },
    )
}

/// The tools, the last one pinned where asked.
pub open spec fn tools_value(request: ProviderRequest) -> Seq<JsonView> {
    let names = tool_names(request.tools@, request.model.provider_kind);
    Seq::new(
        request.tools@.len(),
        |i: int|
            tool_value(
                request.tools@[i],
                names,
                request.prompt.cache_breakpoints.after_tools && i == request.tools@.len() - 1,
            ),
    )
}

fn encode_tool(request: &ProviderRequest, index: usize, pinned: bool) -> (value: Json)
    requires
        index < request.tools@.len(),
    ensures
        value@ == tool_value(
            request.tools@[index as int],
            tool_names(request.tools@, request.model.provider_kind),
            pinned,
        ),
{
    let tool = &request.tools[index];
    let mut fields: Vec<JsonField> = Vec::new();
    let name = tool_name_for_provider(&tool.name, &request.tools, request.model.provider_kind);
    push_field(&mut fields, "name", Json::Text(name));
    push_field(&mut fields, "description", text_json(&tool.description));
    push_field(&mut fields, "input_schema", tool.input_schema.duplicate());
    assert(fields_view(fields@) =~= seq![
        ("name"@, text_value(name@)),
        ("description"@, text_value(tool.description@)),
        ("input_schema"@, tool.input_schema@),
    ]);
    if pinned {
        push_field(&mut fields, "cache_control", cache_control_json());
    }
    Json::Object(fields)
}

pub fn encode_tools(request: &ProviderRequest) -> (tools: Vec<Json>)
    ensures
        items_view(tools@) == tools_value(*request),
{
    let pin_last = request.prompt.cache_breakpoints.after_tools;
    let mut tools: Vec<Json> = Vec::new();
    let mut i: usize = 0;
    while i < request.tools.len()
        invariant
            i <= request.tools.len(),
            pin_last == request.prompt.cache_breakpoints.after_tools,
            items_view(tools@) == tools_value(*request).subrange(0, i as int),
        decreases request.tools.len() - i,
    {
        let value = encode_tool(request, i, pin_last && i == request.tools.len() - 1);
        push_item(&mut tools, value);
        assert(items_view(tools@) =~= tools_value(*request).subrange(0, i + 1));
        i += 1;
    }
    assert(tools_value(*request).subrange(0, i as int) =~= tools_value(*request));
    tools
}

/// The name of a model, written as a key, stands in another one, whatever the
/// capitals. Keys have underscores where names have hyphens.
pub open spec fn names_model(model: Seq<char>, key: Seq<char>) -> bool {
    contains_text(lower_ascii(model), hyphenated(key))
}

/// Models that take adaptive thinking, recognised by their family and version.
pub open spec fn is_adaptive_model(model: Seq<char>) -> bool {
    ||| names_model(model, "claude_opus_4_7"@)
    ||| names_model(model, "claude_opus_4_6"@)
    ||| names_model(model, "claude_sonnet_4_6"@)
    ||| names_model(model, "claude_mythos"@)
}

/// The effort that an adaptive model is asked for: the extra-high one only
/// where the model knows it.
pub open spec fn adaptive_effort(model: Seq<char>, reasoning: ReasoningEffort) -> Seq<char> {
    match reasoning {
        ReasoningEffort::Low => "low"@,
        ReasoningEffort::Medium => "medium"@,
        ReasoningEffort::High => "high"@,
        ReasoningEffort::Xhigh => if names_model(model, "claude_opus_4_7"@) {
            "xhigh"@
        } else {
            "high"@
        },
    }
}

pub open spec fn desired_budget(reasoning: ReasoningEffort) -> u32 {
    match reasoning {
        ReasoningEffort::Low => 1024,
        ReasoningEffort::Medium => 4096,
        ReasoningEffort::High => 8192,
        ReasoningEffort::Xhigh => 8192,
    }
}

/// The thinking budget: what the effort asks for, kept below the output limit.
pub open spec fn thinking_budget(reasoning: ReasoningEffort, max_output_tokens: u32) -> u32 {
    if desired_budget(reasoning) < max_output_tokens {
        desired_budget(reasoning)
    } else {
        (max_output_tokens - 1) as u32
    }
}

/// The members that ask for thinking.
pub open spec fn thinking_fields(
    model: Seq<char>,
    reasoning: Option<ReasoningEffort>,
    max_output_tokens: Option<u32>,
) -> Seq<(Seq<char>, JsonView)> {
    match reasoning {
        None => Seq::empty(),
        Some(reasoning) => if is_adaptive_model(model) {
            seq![
                (
                    "output_config"@,
                    JsonView::Object(
                        seq![("effort"@, text_value(adaptive_effort(model, reasoning)))],
                    ),
                ),
                (
                    "thinking"@,
                    JsonView::Object(
                        seq![
                            ("type"@, text_value("adaptive"@)),
                            ("display"@, text_value("summarized"@)),
                        ],
                    ),
                ),
            ]
        } else {
            match max_output_tokens {
                Some(max_output_tokens) if max_output_tokens > MIN_THINKING_BUDGET => seq![
                    (
                        "thinking"@,
                        JsonView::Object(
                            seq![
                                ("type"@, text_value("enabled"@)),
                                (
                                    "budget_tokens"@,
                                    number_value(
                                        thinking_budget(reasoning, max_output_tokens) as u64,
                                    ),
                                ),
                            ],
                        ),
                    ),
                ],
                _ => Seq::empty(),
            }
        },
    }
}

fn is_named(model: &str, key: &str) -> (yes: bool)
    ensures
        yes == names_model(model@, key@),
{
    contains(&to_ascii_lowercase(model), &hyphenate(key))
}

pub fn prefers_adaptive_thinking(model: &str) -> (yes: bool)
    ensures
        yes == is_adaptive_model(model@),
{
    is_named(model, "claude_opus_4_7") || is_named(model, "claude_opus_4_6") || is_named(
        model,
        "claude_sonnet_4_6",
    ) || is_named(model, "claude_mythos")
}

pub fn adaptive_effort_for_model(model: &str, reasoning: ReasoningEffort) -> (effort: &'static str)
    ensures
        effort@ == adaptive_effort(model@, reasoning),
{
    match reasoning {
        ReasoningEffort::Low => "low",
        ReasoningEffort::Medium => "medium",
        ReasoningEffort::High => "high",
        ReasoningEffort::Xhigh => if is_named(model, "claude_opus_4_7") {
            "xhigh"
        } else {
            "high"
        },
    }
}

fn push_thinking(
    fields: &mut Vec<JsonField>,
    model: &str,
    reasoning: Option<ReasoningEffort>,
    max_output_tokens: Option<u32>,
)
    ensures
        fields_view(final(fields)@) == fields_view(old(fields)@) + thinking_fields(
            model@,
            reasoning,
            max_output_tokens,
        ),
{
    let ghost before = fields_view(fields@);
    let reasoning = match reasoning {
        Some(reasoning) => reasoning,
        None => {
            assert(before =~= before + Seq::<(Seq<char>, JsonView)>::empty());
            return ;
        },
    };
    if prefers_adaptive_thinking(model) {
        let effort = adaptive_effort_for_model(model, reasoning);
        push_field(fields, "output_config", object1("effort", text_json(effort)));
        push_field(
            fields,
            "thinking",
            object2("type", text_json("adaptive"), "display", text_json("summarized")),
        );
        assert(fields_view(fields@) =~= before + thinking_fields(
            model@,
            Some(reasoning),
            max_output_tokens,
        ));
        return ;
    }
    let limit: u32 = match max_output_tokens {
        Some(limit) => limit,
        None => 0,
    };
    if limit <= MIN_THINKING_BUDGET {
        assert(before =~= before + Seq::<(Seq<char>, JsonView)>::empty());
        return ;
    }
    let desired: u32 = match reasoning {
        ReasoningEffort::Low => 1024,
        ReasoningEffort::Medium => 4096,
        ReasoningEffort::High => 8192,
        ReasoningEffort::Xhigh => 8192,
    };
    let budget: u32 = if desired < limit {
        desired
    } else {
        limit - 1
    };
    push_field(
        fields,
        "thinking",
        object2("type", text_json("enabled"), "budget_tokens", unsigned_json(budget as u64)),
    );
    assert(fields_view(fields@) =~= before + thinking_fields(
        model@,
        Some(reasoning),
        max_output_tokens,
    ));
}

/// A thinking budget is large enough for the API and leaves room for an answer.
pub proof fn law_thinking_budget_fits(reasoning: ReasoningEffort, max_output_tokens: u32)
    requires
        max_output_tokens > MIN_THINKING_BUDGET,
    ensures
        MIN_THINKING_BUDGET <= thinking_budget(reasoning, max_output_tokens) < max_output_tokens,
{
}

// ---------------------------------------------------------------------------
// Requests

pub open spec fn max_tokens_value(limit: Option<u32>) -> JsonView {
    number_value(
        match limit {
            Some(limit) => limit as u64,
            None => DEFAULT_MAX_TOKENS as u64,
        },
    )
}

pub open spec fn temperature_value(temperature: Option<JsonNumber>) -> Option<JsonView> {
    match temperature {
        Some(number) => Some(JsonView::Number(number@)),
        None => None,
    }
}

pub open spec fn request_value(
    request: ProviderRequest,
    temperature: Option<JsonNumber>,
    stream: bool,
) -> JsonView {
    JsonView::Object(
        seq![
            ("model"@, text_value(request.model.model@)),
            ("max_tokens"@, max_tokens_value(request.model.max_output_tokens)),
        ] + optional_field("temperature"@, temperature_value(temperature)) + seq![
            ("messages"@, JsonView::Array(messages_value(request))),
        ] + optional_field(
            "stream"@,
            if stream {
                Some(JsonView::Bool(true))
            } else {
                None
            },
        ) + optional_field("system"@, system_value(request)) + optional_field(
            "tools"@,
            if request.tools@.len() > 0 {
                Some(JsonView::Array(tools_value(request)))
            } else {
                None
            },
        ) + thinking_fields(
            request.model.model@,
            request.model.reasoning,
            request.model.max_output_tokens,
        ),
    )
}

pub open spec fn api_kind_number(kind: ApiKind) -> nat {
    match kind {
        ApiKind::OpenAiResponses => 0,
        ApiKind::OpenAiChat => 1,
        ApiKind::AnthropicMessages => 2,
    }
}

pub open spec fn unsupported_api_kind(kind: ApiKind) -> Seq<char> {
    "failed to encode anthropic request: unsupported api kind '"@ + decimal(api_kind_number(kind))
        + "'"@
}

fn number_json(number: &Option<JsonNumber>) -> (value: Option<Json>)
    ensures
        owned_view(value) == temperature_value(*number),
{
    match number {
        Some(number) => Some(Json::Number(number.duplicate())),
        None => None,
    }
}

fn max_tokens_json(limit: Option<u32>) -> (value: Json)
    ensures
        value@ == max_tokens_value(limit),
{
    match limit {
        Some(limit) => unsigned_json(limit as u64),
        None => unsigned_json(DEFAULT_MAX_TOKENS as u64),
    }
}

fn encode_request_with_options(
    request: &ProviderRequest,
    temperature: &Option<JsonNumber>,
    stream: bool,
) -> (body: Result<Json, CodecError>)
    ensures
        match body {
            Ok(body) => request.model.api_kind == ApiKind::AnthropicMessages && body@
                == request_value(*request, *temperature, stream),
            Err(error) => request.model.api_kind != ApiKind::AnthropicMessages && error@
                == unsupported_api_kind(request.model.api_kind),
        },
{
    if request.model.api_kind != ApiKind::AnthropicMessages {
        let number: u64 = match request.model.api_kind {
            ApiKind::OpenAiResponses => 0,
            ApiKind::OpenAiChat => 1,
            ApiKind::AnthropicMessages => 2,
        };
        let message = concat3(
            "failed to encode anthropic request: unsupported api kind '",
            &decimal_text(number),
            "'",
        );
        return Err(CodecError { message });
    }
    let mut body: Vec<JsonField> = Vec::new();
    push_field(&mut body, "model", text_json(&request.model.model));
    push_field(&mut body, "max_tokens", max_tokens_json(request.model.max_output_tokens));
    push_optional(&mut body, "temperature", number_json(temperature));
    push_field(&mut body, "messages", Json::Array(encode_messages(request)));
    push_optional(
        &mut body,
        "stream",
        if stream {
            Some(Json::Bool(true))
        } else {
            None
        },
    );
    push_optional(&mut body, "system", encode_system_blocks(request));
    push_optional(
        &mut body,
        "tools",
        if request.tools.is_empty() {
            None
        } else {
            Some(Json::Array(encode_tools(request)))
        },
    );
    push_thinking(
        &mut body,
        &request.model.model,
        request.model.reasoning,
        request.model.max_output_tokens,
    );
    assert(fields_view(body@) =~= request_value(*request, *temperature, stream)->Object_0);
    Ok(Json::Object(body))
}

/// The body of a request for one whole reply.
pub fn encode_request(request: &ProviderRequest, temperature: &Option<JsonNumber>) -> (body: Result<
    Json,
    CodecError,
>)
    ensures
        match body {
            Ok(body) => request.model.api_kind == ApiKind::AnthropicMessages && body@
                == request_value(*request, *temperature, false),
            Err(error) => request.model.api_kind != ApiKind::AnthropicMessages && error@
                == unsupported_api_kind(request.model.api_kind),
        },
{
    encode_request_with_options(request, temperature, false)
}

/// The body of a request for a streamed reply.
pub fn encode_stream_request(request: &ProviderRequest, temperature: &Option<JsonNumber>) -> (body:
    Result<Json, CodecError>)
    ensures
        match body {
            Ok(body) => request.model.api_kind == ApiKind::AnthropicMessages && body@
                == request_value(*request, *temperature, true),
            Err(error) => request.model.api_kind != ApiKind::AnthropicMessages && error@
                == unsupported_api_kind(request.model.api_kind),
        },
{
    encode_request_with_options(request, temperature, true)
}

// ---------------------------------------------------------------------------
// Whole replies

/// Stream events, and the identifiers that are left.
pub ghost struct Said {
    pub events: Seq<EventView>,
    pub ids: IdsView,
}

/// A text block that says `text` at once.
pub open spec fn whole_text(id: Seq<char>, text: Seq<char>) -> Seq<EventView> {
    seq![
        EventView::TextStart { id },
        EventView::TextDelta { id, delta: text },
        EventView::TextEnd { id },
    ]
}

pub open spec fn whole_thinking(
    id: Seq<char>,
    text: Seq<char>,
    signature: Option<Seq<char>>,
) -> Seq<EventView> {
    seq![
        EventView::ThinkingStart { id },
        EventView::ThinkingDelta { id, delta: text },
        EventView::ThinkingEnd { id, signature },
    ]
}

pub open spec fn whole_tool_call(
    id: Seq<char>,
    tool_call_id: Seq<char>,
    name: Seq<char>,
    arguments: Seq<char>,
) -> Seq<EventView> {
    seq![
        EventView::ToolCallStart { id, tool_call_id, name },
        EventView::ToolArgsDelta { id, delta: arguments },
        EventView::ToolCallEnd { id },
    ]
}

pub open spec fn first_text(first: Option<Seq<char>>, second: Option<Seq<char>>) -> Option<
    Seq<char>,
> {
    match first {
        Some(text) => Some(text),
        None => second,
    }
}

/// What one content block of a whole reply says.
pub open spec fn content_block_said(block: JsonView, names: Seq<ToolNames>, ids: IdsView) -> Said {
    let nothing = Said { events: Seq::empty(), ids };
    if has_type_spec(block, "text"@) {
        match block.get_str("text"@) {
            Some(text) => Said { events: whole_text(ids.fresh(), text), ids: ids.advanced() },
            None => nothing,
        }
    } else if has_type_spec(block, "thinking"@) {
        match first_text(block.get_str("thinking"@), block.get_str("text"@)) {
            Some(text) => Said {
                events: whole_thinking(ids.fresh(), text, block.get_str("signature"@)),
                ids: ids.advanced(),
            },
            None => nothing,
        }
    } else if has_type_spec(block, "tool_use"@) {
        let arguments = json_text(
            match block.get("input"@) {
                Some(input) => input,
                None => JsonView::Object(Seq::empty()),
            },
        );
        let name = given_tool_name(block.get_str("name"@), names);
        match block.get_str("id"@) {
            Some(tool_call_id) => Said {
                events: whole_tool_call(ids.fresh(), tool_call_id, name, arguments),
                ids: ids.advanced(),
            },
            None => Said {
                events: whole_tool_call(ids.fresh(), ids.advanced().fresh(), name, arguments),
                ids: ids.advanced().advanced(),
            },
        }
    } else {
        nothing
    }
}

pub open spec fn content_said(blocks: Seq<JsonView>, names: Seq<ToolNames>, ids: IdsView) -> Said
    decreases blocks.len(),
{
    if blocks.len() == 0 {
        Said { events: Seq::empty(), ids }
    } else {
        let before = content_said(blocks.drop_last(), names, ids);
        let last = content_block_said(blocks.last(), names, before.ids);
        Said { events: before.events + last.events, ids: last.ids }
    }
}

pub open spec fn response_stop_reason(response: JsonView) -> StopReason {
    match response.get_str("stop_reason"@) {
        Some(reason) => stop_reason_of(reason),
        None => stop_reason_of("end_turn"@),
    }
}

/// What a whole reply says: the message opens, its blocks follow one after
/// another, then come the usage and the end.
pub open spec fn response_said(request: ProviderRequest, response: JsonView, ids: IdsView) -> Said {
    let names = tool_names(request.tools@, request.model.provider_kind);
    let given = response.get_str("id"@);
    let id = match given {
        Some(id) => id,
        None => ids.fresh(),
    };
    let blocks = match response.get_array("content"@) {
        Some(blocks) => blocks,
        None => Seq::empty(),
    };
    let content = content_said(
        blocks,
        names,
        if given is Some {
            ids
        } else {
            ids.advanced()
        },
    );
    Said {
        events: seq![EventView::MessageStart { id }] + content.events + seq![
            EventView::UsageUpdate { usage: usage_of(response) },
            EventView::MessageEnd {
                id,
                stop_reason: response_stop_reason(response),
                response_id: None,
            },
        ],
        ids: content.ids,
    }
}

pub fn push_text(events: &mut Vec<StreamEvent>, id: String, text: &str)
    ensures
        events_view(final(events)@) == events_view(old(events)@) + whole_text(id@, text@),
{
    push_event(events, StreamEvent::TextStart { id: BlockId(id.clone()) });
    push_event(
        events,
        StreamEvent::TextDelta { id: BlockId(id.clone()), delta: text.to_owned() },
    );
    push_event(events, StreamEvent::TextEnd { id: BlockId(id) });
    assert(events_view(events@) =~= events_view(old(events)@) + whole_text(id@, text@));
}

pub fn push_thinking_block(
    events: &mut Vec<StreamEvent>,
    id: String,
    text: &str,
    signature: Option<String>,
)
    ensures
        events_view(final(events)@) == events_view(old(events)@) + whole_thinking(
            id@,
            text@,
            string_view(signature),
        ),
{
    push_event(events, StreamEvent::ThinkingStart { id: BlockId(id.clone()) });
    push_event(
        events,
        StreamEvent::ThinkingDelta { id: BlockId(id.clone()), delta: text.to_owned() },
    );
    push_event(events, StreamEvent::ThinkingEnd { id: BlockId(id), signature });
    assert(events_view(events@) =~= events_view(old(events)@) + whole_thinking(
        id@,
        text@,
        string_view(signature),
    ));
}

pub fn push_tool_call(
    events: &mut Vec<StreamEvent>,
    id: String,
    tool_call_id: ToolCallId,
    name: crate::protocol::ToolName,
    arguments: String,
)
    ensures
        events_view(final(events)@) == events_view(old(events)@) + whole_tool_call(
            id@,
            tool_call_id.0@,
            name.0@,
            arguments@,
        ),
{
    push_event(
        events,
        StreamEvent::ToolCallStart { id: BlockId(id.clone()), tool_call_id, name },
    );
    push_event(
        events,
        StreamEvent::ToolArgsDelta { id: BlockId(id.clone()), delta: arguments },
    );
    push_event(events, StreamEvent::ToolCallEnd { id: BlockId(id) });
    assert(events_view(events@) =~= events_view(old(events)@) + whole_tool_call(
        id@,
        tool_call_id.0@,
        name.0@,
        arguments@,
    ));
}

fn decode_content_block(
    events: &mut Vec<StreamEvent>,
    block: &Json,
    request: &ProviderRequest,
    ids: &mut IdSource,
)
    ensures
        ({
            let said = content_block_said(
                block@,
                tool_names(request.tools@, request.model.provider_kind),
                old(ids)@,
            );
            &&& events_view(final(events)@) == events_view(old(events)@) + said.events
            &&& final(ids)@ == said.ids
        }),
{
    if has_type(block, "text") {
        if let Some(text) = block.get_str("text") {
            push_text(events, ids.mint(), text);
            return ;
        }
    } else if has_type(block, "thinking") {
        let text = match block.get_str("thinking") {
            Some(text) => Some(text),
            None => block.get_str("text"),
        };
        if let Some(text) = text {
            let signature = owned(block.get_str("signature"));
            push_thinking_block(events, ids.mint(), text, signature);
            return ;
        }
    } else if has_type(block, "tool_use") {
        let id = ids.mint();
        let tool_call_id = match block.get_str("id") {
            Some(tool_call_id) => tool_call_id.to_owned(),
            None => ids.mint(),
        };
        let name = named_tool(block.get_str("name"), &request.tools, request.model.provider_kind);
        let arguments = match block.get("input") {
            Some(input) => input.to_text(),
            None => {
                let empty: Vec<JsonField> = Vec::new();
                assert(fields_view(empty@) =~= Seq::empty());
                Json::Object(empty).to_text()
            },
        };
        push_tool_call(events, id, ToolCallId(tool_call_id), name, arguments);
        return ;
    }
    assert(events_view(events@) =~= events_view(old(events)@) + Seq::<EventView>::empty());
}

fn decode_stop_reason(response: &Json) -> (reason: StopReason)
    ensures
        reason == response_stop_reason(response@),
{
    match response.get_str("stop_reason") {
        Some(reason) => decode_stop_reason_value(reason),
        None => decode_stop_reason_value("end_turn"),
    }
}

/// Reads one whole reply.
pub fn decode_response(request: &ProviderRequest, response: &Json, ids: &mut IdSource) -> (events:
    Vec<StreamEvent>)
    ensures
        events_view(events@) == response_said(*request, response@, old(ids)@).events,
        final(ids)@ == response_said(*request, response@, old(ids)@).ids,
{
    let ghost names = tool_names(request.tools@, request.model.provider_kind);
    let message_id = match response.get_str("id") {
        Some(id) => id.to_owned(),
        None => ids.mint(),
    };
    let ghost start = ids@;
    let mut events: Vec<StreamEvent> = Vec::new();
    push_event(&mut events, StreamEvent::MessageStart { id: MessageId(message_id.clone()) });
    let ghost head = events_view(events@);
    assert(head =~= seq![EventView::MessageStart { id: message_id@ }]);
    let ghost blocks = match response@.get_array("content"@) {
        Some(blocks) => blocks,
        None => Seq::empty(),
    };
    if let Some(content) = response.get_array("content") {
        let mut i: usize = 0;
        assert(blocks.subrange(0, 0) =~= Seq::empty());
        assert(events_view(events@) =~= head + Seq::<EventView>::empty());
        while i < content.len()
            invariant
                i <= content.len(),
                blocks == items_view(content@),
                names == tool_names(request.tools@, request.model.provider_kind),
                events_view(events@) == head + content_said(
                    blocks.subrange(0, i as int),
                    names,
                    start,
                ).events,
                ids@ == content_said(blocks.subrange(0, i as int), names, start).ids,
            decreases content.len() - i,
        {
            assert(blocks.subrange(0, i + 1).drop_last() == blocks.subrange(0, i as int));
            let ghost before = events_view(events@);
            decode_content_block(&mut events, &content[i], request, ids);
            assert(events_view(events@) =~= head + content_said(
                blocks.subrange(0, i + 1),
                names,
                start,
            ).events);
            i += 1;
        }
        assert(blocks.subrange(0, i as int) == blocks);
    } else {
        assert(events_view(events@) =~= head + content_said(blocks, names, start).events);
    }
    push_event(&mut events, StreamEvent::UsageUpdate { usage: decode_usage(response) });
    push_event(
        &mut events,
        StreamEvent::MessageEnd {
            id: MessageId(message_id),
            stop_reason: decode_stop_reason(response),
            response_id: None,
        },
    );
    assert(events_view(events@) =~= response_said(*request, response@, old(ids)@).events);
    events
}

// ---------------------------------------------------------------------------
// Compaction

pub open spec fn rendered_user_part(part: UserPart) -> Seq<char> {
    match part {
        UserPart::Text { text } => text@,
        UserPart::Image { media_type, .. } => "[image: "@ + media_type@ + "]"@,
        UserPart::Document { media_type, .. } => "[document: "@ + media_type@ + "]"@,
    }
}

pub open spec fn rendered_assistant_part(part: AssistantPart) -> Seq<char> {
    match part {
        AssistantPart::Text { text } => text@,
        AssistantPart::Thinking(block) => "[thinking]\n"@ + block.text@,
        AssistantPart::ToolCall(call) => "[tool_call "@ + call.name.0@ + "]\n"@ + json_text(
            call.arguments@,
        ),
    }
}

pub open spec fn rendered_user_parts(parts: Seq<UserPart>) -> Seq<Seq<char>> {
    parts.map_values(|part: UserPart| rendered_user_part(part))
}

pub open spec fn rendered_assistant_parts(parts: Seq<AssistantPart>) -> Seq<Seq<char>> {
    parts.map_values(|part: AssistantPart| rendered_assistant_part(part))
}

pub open spec fn rendered_message(message: Message) -> Seq<char> {
    match message {
        Message::System(system) => "system:\n"@ + system.text@,
        Message::User(user) => "user:\n"@ + joined(rendered_user_parts(user.parts@), "\n"@),
        Message::Assistant(assistant) => "assistant:\n"@ + joined(
            rendered_assistant_parts(assistant.parts@),
            "\n"@,
        ),
        Message::Tool(tool) => "tool_result "@ + tool.call_id.0@ + ":\n"@ + result_text(
            tool.content,
            tool.error,
        ),
    }
}

pub open spec fn rendered_messages(messages: Seq<Message>) -> Seq<Seq<char>> {
    messages.map_values(|message: Message| rendered_message(message))
}

pub open spec fn compaction_text(messages: Seq<Message>) -> Seq<char> {
    if messages.len() == 0 {
        "No prior messages are eligible for compaction."@
    } else {
        joined(rendered_messages(messages), "\n\n"@)
    }
}

pub open spec fn compaction_sections(request: ProviderCompactionRequest) -> Seq<Seq<char>> {
    let instructions = trimmed(request.instructions@);
    optional_text(
        if instructions.len() > 0 {
            Some(instructions)
        } else {
            None
        },
    ) + optional_text(rendered_prefix(items_view(request.compacted_prefix@)))
}

pub open spec fn compaction_value(
    request: ProviderCompactionRequest,
    temperature: Option<JsonNumber>,
) -> JsonView {
    JsonView::Object(
        seq![
            ("model"@, text_value(request.model.model@)),
            ("max_tokens"@, max_tokens_value(request.model.max_output_tokens)),
        ] + optional_field("temperature"@, temperature_value(temperature)) + seq![
            ("system"@, text_value(joined(compaction_sections(request), "\n\n"@))),
            (
                "messages"@,
                JsonView::Array(
                    seq![
                        role_message(
                            "user"@,
                            seq![text_block_value(compaction_text(request.messages@), false)],
                        ),
                    ],
                ),
            ),
        ],
    )
}

fn render_user_parts(parts: &Vec<UserPart>) -> (text: String)
    ensures
        text@ == joined(rendered_user_parts(parts@), "\n"@),
{
    let mut texts: Vec<String> = Vec::new();
    let mut i: usize = 0;
    while i < parts.len()
        invariant
            i <= parts.len(),
            views(texts@) == rendered_user_parts(parts@.subrange(0, i as int)),
        decreases parts.len() - i,
    {
        push_piece(
            &mut texts,
            match &parts[i] {
                UserPart::Text { text } => text.clone(),
                UserPart::Image { media_type, .. } => concat3("[image: ", media_type, "]"),
                UserPart::Document { media_type, .. } => concat3("[document: ", media_type, "]"),
            },
        );
        assert(views(texts@) =~= rendered_user_parts(parts@.subrange(0, i + 1)));
        i += 1;
    }
    assert(parts@.subrange(0, i as int) == parts@);
    join(&texts, "\n")
}

fn render_assistant_parts(parts: &Vec<AssistantPart>) -> (text: String)
    ensures
        text@ == joined(rendered_assistant_parts(parts@), "\n"@),
{
    let mut texts: Vec<String> = Vec::new();
    let mut i: usize = 0;
    while i < parts.len()
        invariant
            i <= parts.len(),
            views(texts@) == rendered_assistant_parts(parts@.subrange(0, i as int)),
        decreases parts.len() - i,
    {
        push_piece(
            &mut texts,
            match &parts[i] {
                AssistantPart::Text { text } => text.clone(),
                AssistantPart::Thinking(block) => concat2("[thinking]\n", &block.text),
                AssistantPart::ToolCall(call) => concat4(
                    "[tool_call ",
                    &call.name.0,
                    "]\n",
                    &call.arguments.to_text(),
                ),
            },
        );
        assert(views(texts@) =~= rendered_assistant_parts(parts@.subrange(0, i + 1)));
        i += 1;
    }
    assert(parts@.subrange(0, i as int) == parts@);
    join(&texts, "\n")
}

fn render_compaction_message(message: &Message) -> (text: String)
    ensures
        text@ == rendered_message(*message),
{
    match message {
        Message::System(system) => concat2("system:\n", &system.text),
        Message::User(user) => concat2("user:\n", &render_user_parts(&user.parts)),
        Message::Assistant(assistant) => concat2(
            "assistant:\n",
            &render_assistant_parts(&assistant.parts),
        ),
        Message::Tool(tool) => concat4(
            "tool_result ",
            &tool.call_id.0,
            ":\n",
            &tool_result_text(&tool.content, &tool.error),
        ),
    }
}

pub fn render_compaction_messages(messages: &Vec<Message>) -> (text: String)
    ensures
        text@ == compaction_text(messages@),
{
    if messages.is_empty() {
        return "No prior messages are eligible for compaction.".to_owned();
    }
    let mut texts: Vec<String> = Vec::new();
    let mut i: usize = 0;
    while i < messages.len()
        invariant
            i <= messages.len(),
            views(texts@) == rendered_messages(messages@.subrange(0, i as int)),
        decreases messages.len() - i,
    {
        push_piece(&mut texts, render_compaction_message(&messages[i]));
        assert(views(texts@) =~= rendered_messages(messages@.subrange(0, i + 1)));
        i += 1;
    }
    assert(messages@.subrange(0, i as int) == messages@);
    join(&texts, "\n\n")
}

/// The body of a request for a summary of the session so far.
pub fn encode_compaction_request(
    request: &ProviderCompactionRequest,
    temperature: &Option<JsonNumber>,
) -> (body: Result<Json, CodecError>)
    ensures
        match body {
            Ok(body) => request.model.api_kind == ApiKind::AnthropicMessages && body@
                == compaction_value(*request, *temperature),
            Err(error) => request.model.api_kind != ApiKind::AnthropicMessages && error@
                == "failed to encode anthropic compaction request: unsupported api kind"@,
        },
{
    if request.model.api_kind != ApiKind::AnthropicMessages {
        return Err(
            CodecError::new(
                "failed to encode anthropic compaction request: unsupported api kind",
            ),
        );
    }
    let mut sections: Vec<String> = Vec::new();
    let instructions = trim(&request.instructions);
    if !instructions.as_str().is_empty() {
        sections.push(instructions);
    }
    if let Some(compacted) = render_compacted_prefix(&request.compacted_prefix) {
        sections.push(compacted);
    }
    assert(views(sections@) =~= compaction_sections(*request));
    let mut body: Vec<JsonField> = Vec::new();
    push_field(&mut body, "model", text_json(&request.model.model));
    push_field(&mut body, "max_tokens", max_tokens_json(request.model.max_output_tokens));
    push_optional(&mut body, "temperature", number_json(temperature));
    push_field(&mut body, "system", Json::Text(join(&sections, "\n\n")));
    let text = render_compaction_messages(&request.messages);
    let message = object2("role", text_json("user"), "content", array1(text_block(&text, false)));
    push_field(&mut body, "messages", array1(message));
    assert(fields_view(body@) =~= compaction_value(*request, *temperature)->Object_0);
    Ok(Json::Object(body))
}

/// The texts of the reply's text blocks.
pub open spec fn reply_texts(blocks: Seq<JsonView>) -> Seq<Seq<char>>
    decreases blocks.len(),
{
    if blocks.len() == 0 {
        Seq::empty()
    } else {
        let before = reply_texts(blocks.drop_last());
        match blocks.last().get_str("text"@) {
            Some(text) if has_type_spec(blocks.last(), "text"@) => before.push(text),
            _ => before,
        }
    }
}

pub open spec fn reply_text(response: JsonView) -> Seq<char> {
    match response.get_array("content"@) {
        Some(blocks) => joined(reply_texts(blocks), "\n"@),
        None => Seq::empty(),
    }
}

/// The summary that a reply holds, as one item to go before later requests; no
/// item where the reply says nothing.
pub open spec fn compacted(response: JsonView) -> CompactionView {
    CompactionView {
        output: if trimmed(reply_text(response)).len() == 0 {
            Seq::empty()
        } else {
            seq![
                JsonView::Object(
                    seq![
                        ("type"@, text_value(COMPACTED_CONTEXT_TYPE@)),
                        ("text"@, text_value(reply_text(response))),
                    ],
                ),
            ]
        },
        usage: usage_of(response),
    }
}

fn response_text(response: &Json) -> (text: String)
    ensures
        text@ == reply_text(response@),
{
    let content = match response.get_array("content") {
        Some(content) => content,
        None => {
            return String::new();
        },
    };
    let ghost blocks = items_view(content@);
    let mut texts: Vec<String> = Vec::new();
    let mut i: usize = 0;
    while i < content.len()
        invariant
            i <= content.len(),
            blocks == items_view(content@),
            views(texts@) == reply_texts(blocks.subrange(0, i as int)),
        decreases content.len() - i,
    {
        assert(blocks.subrange(0, i + 1).drop_last() == blocks.subrange(0, i as int));
        if has_type(&content[i], "text") {
            if let Some(text) = content[i].get_str("text") {
                let ghost before = views(texts@);
                texts.push(text.to_owned());
                assert(views(texts@) =~= before.push(text@));
            }
        }
        i += 1;
    }
    assert(blocks.subrange(0, i as int) == blocks);
    join(&texts, "\n")
}

/// Reads the summary out of a reply.
pub fn decode_compaction_response(response: &Json) -> (compaction: ProviderCompactionResponse)
    ensures
        compaction@ == compacted(response@),
{
    let text = response_text(response);
    let mut output: Vec<Json> = Vec::new();
    assert(items_view(output@) =~= Seq::empty());
    if !trim(&text).as_str().is_empty() {
        let item = object2("type", text_json(COMPACTED_CONTEXT_TYPE), "text", Json::Text(text));
        push_item(&mut output, item);
        assert(items_view(output@) =~= seq![item@]);
    }
    ProviderCompactionResponse { output, usage: decode_usage(response) }
}

/// The section that shows the summary of a compaction reply to the model.
pub open spec fn summary_section(response: JsonView) -> Seq<char> {
    COMPACTED_CONTEXT_OPEN@ + "\n"@ + reply_text(response) + "\n"@ + COMPACTED_CONTEXT_CLOSE@
}

proof fn lemma_summary_is_rendered(response: JsonView)
    requires
        trimmed(reply_text(response)).len() > 0,
    ensures
        rendered_prefix(compacted(response).output) == Some(summary_section(response)),
{
    let text = reply_text(response);
    let item = compacted(response).output[0];
    reveal_strlit("type");
    reveal_strlit("text");
    let fields = item->Object_0;
    assert("type"@ != "text"@) by {
        assert("type"@[1] != "text"@[1]);
    }
    assert(fields.drop_first()[0] == fields[1]);
    reveal_with_fuel(crate::json::field_value, 3);
    assert(item.get_str("type"@) == Some(COMPACTED_CONTEXT_TYPE@));
    assert(item.get_str("text"@) == Some(text));
    let items = compacted(response).output;
    assert(items.drop_last() =~= Seq::empty());
    assert(prefix_texts(Seq::empty()) == Seq::<Seq<char>>::empty());
    assert(prefix_texts(items) =~= seq![text]);
    assert(joined(seq![text], "\n\n"@) == text);
}

/// A summary that was read from a reply stands, word for word, in the last system
/// block of every later request that pins a part of its system text.
pub proof fn law_summary_is_replayed(response: JsonView, request: ProviderRequest)
    requires
        trimmed(reply_text(response)).len() > 0,
        items_view(request.compacted_prefix@) == compacted(response).output,
        request.prompt.cache_breakpoints.after_system
            || request.prompt.cache_breakpoints.after_skills,
    ensures
        tail_sections(request).contains(summary_section(response)),
        system_value(request) == Some(JsonView::Array(system_blocks(request))),
        system_blocks(request).len() > 0,
        system_blocks(request).last() == text_block_value(
            joined(tail_sections(request), "\n\n"@),
            false,
        ),
{
    lemma_summary_is_rendered(response);
    let segments = request.prompt.ordered_segments@;
    let before = optional_text(
        rendered_segments(segments.subrange(skill_end(request), segments.len() as int)),
    );
    assert(tail_sections(request)[before.len() as int] == summary_section(response));
}

/// A summary that was read from a reply stands, word for word, in the system text
/// of every later compaction request.
pub proof fn law_summary_is_compacted_again(
    response: JsonView,
    request: ProviderCompactionRequest,
)
    requires
        trimmed(reply_text(response)).len() > 0,
        items_view(request.compacted_prefix@) == compacted(response).output,
    ensures
        compaction_sections(request).last() == summary_section(response),
{
    lemma_summary_is_rendered(response);
}

} // verus!
