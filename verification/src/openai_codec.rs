//! Requests to, and whole replies from, OpenAI-style APIs.

use vstd::prelude::*;

use crate::anthropic_codec::{
    first_text, number_value, push_text, push_thinking_block, push_tool_call, text_value,
    whole_text, whole_thinking, whole_tool_call, Said,
};
use crate::anthropic_stream::{given_tool_name, has_type, has_type_spec, named_tool, owned};
use crate::codec_common::{
    assistant_text, assistant_texts, bounded_id, bounded_provider_id,
    bounded_provider_id_with_prefix, byte_length, collect_system_text, data_url, data_url_text,
    document_filename, document_name, has_user_media, is_clean_id, provider_tool_name, result_text,
    system_text, tool_name_for_provider, tool_names, tool_result_text, user_has_media, user_text,
    user_texts, ToolNames,
};
use crate::ids::{IdSource, IdsView};
use crate::json::{
    array1, field_value, fields_view, items_view, json_text, object2, object3, object4,
    optional_field, owned_view, push_copies, push_field, push_item, push_optional, str_view,
    string_view, text_json, unsigned_json, Json, JsonField, JsonNumber, JsonView,
};
use crate::openai_stream::{responses_stop_reason, stop_reason_spec};
use crate::protocol::{
    events_view, push_event, ApiKind, AssistantMessage, AssistantPart, CodecError, CompactionView,
    EventView, Message, MessageId, ProviderCompactionRequest, ProviderCompactionResponse,
    ProviderKind, ProviderRequest, ReasoningEffort, StreamEvent, ToolCall, ToolCallId,
    ToolResultMessage, ToolSpec, Usage, UserMessage, UserPart,
};
use crate::text::{
    concat3, decimal, decimal_text, has_prefix, join, joined, push_piece, starts_with, to_chars,
    views,
};

verus! {

/// Most bytes that the identifier of an input item may have.
pub const RESPONSES_ITEM_ID_MAX_LEN: usize = 64;

/// What stands before a summary that is sent in band.
pub const COMPACTION_OPEN_TAG: &'static str = "<compaction>\n";

/// What stands behind a summary that is sent in band.
pub const COMPACTION_CLOSE_TAG: &'static str = "\n</compaction>";

// ---------------------------------------------------------------------------
// Item identifiers

pub open spec fn is_item_id_char(c: char) -> bool {
    ('a' <= c <= 'z') || ('0' <= c <= '9') || c == '_' || c == '-'
}

/// An identifier that the Responses API gives to a message: `msg_` and at least
/// one small letter, digit, underscore or hyphen.
pub open spec fn is_message_item_id(id: Seq<char>) -> bool {
    &&& has_prefix(id, "msg_"@)
    &&& id.len() > "msg_"@.len()
    &&& forall|i: int| "msg_"@.len() <= i < id.len() ==> is_item_id_char(#[trigger] id[i])
}

pub fn is_responses_message_item_id(id: &str) -> (yes: bool)
    ensures
        yes == is_message_item_id(id@),
{
    proof {
        reveal_strlit("msg_");
    }
    if !starts_with(id, "msg_") {
        return false;
    }
    let chars = to_chars(id);
    if chars.len() == 4 {
        return false;
    }
    let mut i: usize = 4;
    while i < chars.len()
        invariant
            chars@ == id@,
            "msg_"@.len() == 4,
            has_prefix(id@, "msg_"@),
            4 <= i <= chars.len(),
            chars.len() > 4,
            forall|k: int| 4 <= k < i ==> is_item_id_char(#[trigger] id@[k]),
        decreases chars.len() - i,
    {
        let c = chars[i];
        if !(('a' <= c && c <= 'z') || ('0' <= c && c <= '9') || c == '_' || c == '-') {
            assert(!is_item_id_char(id@[i as int]));
            return false;
        }
        i += 1;
    }
    true
}

pub open spec fn function_call_item_id(call_id: Seq<char>) -> Seq<char> {
    bounded_id("fc_"@, call_id, RESPONSES_ITEM_ID_MAX_LEN as nat, "fc"@)
}

pub open spec fn function_call_output_item_id(call_id: Seq<char>) -> Seq<char> {
    bounded_id("fc_output_"@, call_id, RESPONSES_ITEM_ID_MAX_LEN as nat, "fc_output"@)
}

/// The message identifier that stands for a response.
pub open spec fn synthesized_message_id(response_id: Seq<char>) -> Seq<char> {
    if is_message_item_id(response_id) {
        bounded_id(Seq::empty(), response_id, RESPONSES_ITEM_ID_MAX_LEN as nat, "msg"@)
    } else {
        bounded_id(
            "msg_response_"@,
            response_id,
            RESPONSES_ITEM_ID_MAX_LEN as nat,
            "msg_response"@,
        )
    }
}

/// The identifier that a message is replayed under, if the API would know it.
pub open spec fn replayed_message_id(id: Seq<char>) -> Option<Seq<char>> {
    if is_message_item_id(id) {
        Some(bounded_id(Seq::empty(), id, RESPONSES_ITEM_ID_MAX_LEN as nat, "msg"@))
    } else {
        None
    }
}

pub fn responses_function_call_item_id(call_id: &ToolCallId) -> (id: String)
    ensures
        id@ == function_call_item_id(call_id.0@),
        byte_length(id@) <= RESPONSES_ITEM_ID_MAX_LEN,
{
    bounded_provider_id_with_prefix("fc_", &call_id.0, RESPONSES_ITEM_ID_MAX_LEN, "fc")
}

pub fn responses_function_call_output_item_id(call_id: &ToolCallId) -> (id: String)
    ensures
        id@ == function_call_output_item_id(call_id.0@),
        byte_length(id@) <= RESPONSES_ITEM_ID_MAX_LEN,
{
    bounded_provider_id_with_prefix(
        "fc_output_",
        &call_id.0,
        RESPONSES_ITEM_ID_MAX_LEN,
        "fc_output",
    )
}

pub fn synthesized_responses_message_id(response_id: &str) -> (id: MessageId)
    ensures
        id.0@ == synthesized_message_id(response_id@),
        byte_length(id.0@) <= RESPONSES_ITEM_ID_MAX_LEN,
        is_clean_id(id.0@),
{
    if is_responses_message_item_id(response_id) {
        return MessageId(bounded_provider_id(response_id, RESPONSES_ITEM_ID_MAX_LEN, "msg"));
    }
    proof {
        reveal_strlit("msg_response_");
        reveal_strlit("msg_response");
    }
    MessageId(
        bounded_provider_id_with_prefix(
            "msg_response_",
            response_id,
            RESPONSES_ITEM_ID_MAX_LEN,
            "msg_response",
        ),
    )
}

pub fn encode_responses_message_item_id(message_id: &MessageId) -> (id: Option<String>)
    ensures
        crate::json::string_view(id) == replayed_message_id(message_id.0@),
        match id {
            Some(id) => byte_length(id@) <= RESPONSES_ITEM_ID_MAX_LEN,
            None => true,
        },
{
    if is_responses_message_item_id(&message_id.0) {
        Some(bounded_provider_id(&message_id.0, RESPONSES_ITEM_ID_MAX_LEN, "msg"))
    } else {
        None
    }
}

// ---------------------------------------------------------------------------
// Input items

pub open spec fn input_text_value(text: Seq<char>) -> JsonView {
    JsonView::Object(seq![("type"@, text_value("input_text"@)), ("text"@, text_value(text))])
}

pub open spec fn message_item(role: Seq<char>, content: Seq<JsonView>) -> JsonView {
    JsonView::Object(
        seq![
            ("type"@, text_value("message"@)),
            ("role"@, text_value(role)),
            ("content"@, JsonView::Array(content)),
        ],
    )
}

pub open spec fn developer_item(text: Seq<char>) -> JsonView {
    message_item("developer"@, seq![input_text_value(text)])
}

pub open spec fn user_part_item(part: UserPart) -> JsonView {
    match part {
        UserPart::Text { text } => input_text_value(text@),
        UserPart::Image { media_type, data } => JsonView::Object(
            seq![
                ("type"@, text_value("input_image"@)),
                ("image_url"@, text_value(data_url_text(media_type@, data@))),
            ],
        ),
        UserPart::Document { media_type, data } => JsonView::Object(
            seq![
                ("type"@, text_value("input_file"@)),
                ("filename"@, text_value(document_name(media_type@))),
                ("file_data"@, text_value(data_url_text(media_type@, data@))),
            ],
        ),
    }
}

pub open spec fn user_part_items(parts: Seq<UserPart>) -> Seq<JsonView> {
    parts.map_values(|part: UserPart| user_part_item(part))
}

/// A user message: its parts one by one where it holds media, and one text
/// otherwise.
pub open spec fn user_item(message: UserMessage) -> JsonView {
    message_item(
        "user"@,
        if user_has_media(message.parts@) {
            user_part_items(message.parts@)
        } else {
            seq![input_text_value(joined(user_texts(message.parts@), "\n"@))]
        },
    )
}

pub open spec fn assistant_item_fields(text: Seq<char>) -> Seq<(Seq<char>, JsonView)> {
    seq![
        ("type"@, text_value("message"@)),
        ("role"@, text_value("assistant"@)),
        ("status"@, text_value("completed"@)),
        (
            "content"@,
            JsonView::Array(
                seq![
                    JsonView::Object(
                        seq![
                            ("type"@, text_value("output_text"@)),
                            ("text"@, text_value(text)),
                            ("annotations"@, JsonView::Array(Seq::empty())),
                        ],
                    ),
                ],
            ),
        ),
    ]
}

/// The text of an assistant message, under its own identifier where the API
/// would know it. A message without text has no such item.
pub open spec fn assistant_item(message: AssistantMessage) -> Option<JsonView> {
    let text = joined(assistant_texts(message.parts@), "\n"@);
    if text.len() == 0 {
        None
    } else {
        Some(
            JsonView::Object(
                assistant_item_fields(text) + optional_field(
                    "id"@,
                    match replayed_message_id(message.id.0@) {
                        Some(id) => Some(text_value(id)),
                        None => None,
                    },
                ),
            ),
        )
    }
}

pub open spec fn call_item(call: ToolCall, names: Seq<ToolNames>) -> JsonView {
    JsonView::Object(
        seq![
            ("type"@, text_value("function_call"@)),
            ("id"@, text_value(function_call_item_id(call.id.0@))),
            ("call_id"@, text_value(call.id.0@)),
            ("name"@, text_value(provider_tool_name(call.name.0@, names))),
            ("arguments"@, text_value(json_text(call.arguments@))),
            ("status"@, text_value("completed"@)),
        ],
    )
}

pub open spec fn call_items(parts: Seq<AssistantPart>, names: Seq<ToolNames>) -> Seq<JsonView>
    decreases parts.len(),
{
    if parts.len() == 0 {
        Seq::empty()
    } else {
        let before = call_items(parts.drop_last(), names);
        match parts.last() {
            AssistantPart::ToolCall(call) => before.push(call_item(call, names)),
            _ => before,
        }
    }
}

pub open spec fn output_item(message: ToolResultMessage) -> JsonView {
    JsonView::Object(
        seq![
            ("type"@, text_value("function_call_output"@)),
            ("id"@, text_value(function_call_output_item_id(message.call_id.0@))),
            ("call_id"@, text_value(message.call_id.0@)),
            ("output"@, text_value(result_text(message.content, message.error))),
        ],
    )
}

/// The input items of one message. System messages have none of their own.
pub open spec fn message_items(message: Message, names: Seq<ToolNames>) -> Seq<JsonView> {
    match message {
        Message::System(_) => Seq::empty(),
        Message::User(user) => seq![user_item(user)],
        Message::Assistant(assistant) => {
            let text = match assistant_item(assistant) {
                Some(item) => seq![item],
                None => Seq::empty(),
            };
            text + call_items(assistant.parts@, names)
        },
        Message::Tool(tool) => seq![output_item(tool)],
    }
}

pub open spec fn input_items(messages: Seq<Message>, names: Seq<ToolNames>) -> Seq<JsonView>
    decreases messages.len(),
{
    if messages.len() == 0 {
        Seq::empty()
    } else {
        input_items(messages.drop_last(), names) + message_items(messages.last(), names)
    }
}

/// An item whose identifier is longer than the API takes.
pub open spec fn is_overlong(item: JsonView) -> bool {
    match item.get_str("id"@) {
        Some(id) => byte_length(id) > RESPONSES_ITEM_ID_MAX_LEN,
        None => false,
    }
}

/// The position of the first overlong item.
pub open spec fn first_overlong(items: Seq<JsonView>) -> Option<nat>
    decreases items.len(),
{
    if items.len() == 0 {
        None
    } else {
        match first_overlong(items.drop_last()) {
            Some(at) => Some(at),
            None => if is_overlong(items.last()) {
                Some((items.len() - 1) as nat)
            } else {
                None
            },
        }
    }
}

pub open spec fn overlong_message(items: Seq<JsonView>, at: nat) -> Seq<char> {
    "failed to encode openai responses request: input["@ + decimal(at) + "].id length "@ + decimal(
        byte_length(items[at as int].get_str("id"@)->0),
    ) + " exceeds "@ + decimal(RESPONSES_ITEM_ID_MAX_LEN as nat)
}

pub proof fn lemma_first_overlong(items: Seq<JsonView>)
    ensures
        match first_overlong(items) {
            Some(at) => {
                &&& at < items.len()
                &&& is_overlong(items[at as int])
                &&& forall|k: int| 0 <= k < at ==> !is_overlong(#[trigger] items[k])
            },
            None => forall|k: int| 0 <= k < items.len() ==> !is_overlong(#[trigger] items[k]),
        },
    decreases items.len(),
{
    if items.len() > 0 {
        let front = items.drop_last();
        lemma_first_overlong(front);
        assert forall|k: int| 0 <= k < front.len() implies front[k] == #[trigger] items[k] by {}
        match first_overlong(front) {
            Some(at) => {
                assert forall|k: int| 0 <= k < at implies !is_overlong(#[trigger] items[k]) by {
                    assert(!is_overlong(front[k]));
                }
            },
            None => {
                assert forall|k: int| 0 <= k < items.len() - 1 implies !is_overlong(
                    #[trigger] items[k],
                ) by {
                    assert(!is_overlong(front[k]));
                }
            },
        }
    }
}

/// A member that is not the one asked for is passed over.
proof fn lemma_other_key(fields: Seq<(Seq<char>, JsonView)>, key: Seq<char>)
    requires
        fields.len() > 0,
        fields[0].0.len() != key.len(),
    ensures
        field_value(fields, key) == field_value(fields.drop_first(), key),
{
}

fn input_text(text: &str) -> (value: Json)
    ensures
        value@ == input_text_value(text@),
{
    object2("type", text_json("input_text"), "text", text_json(text))
}

fn encode_message_item(role: &str, content: Vec<Json>) -> (item: Json)
    ensures
        item@ == message_item(role@, items_view(content@)),
        !is_overlong(item@),
{
    let item = object3(
        "type",
        text_json("message"),
        "role",
        text_json(role),
        "content",
        Json::Array(content),
    );
    proof {
        reveal_strlit("type");
        reveal_strlit("role");
        reveal_strlit("content");
        reveal_strlit("id");
        let fields = item@->Object_0;
        lemma_other_key(fields, "id"@);
        lemma_other_key(fields.drop_first(), "id"@);
        lemma_other_key(fields.drop_first().drop_first(), "id"@);
    }
    item
}

pub fn encode_responses_developer_message(text: &str) -> (item: Json)
    ensures
        item@ == developer_item(text@),
        !is_overlong(item@),
{
    let mut content: Vec<Json> = Vec::new();
    push_item(&mut content, input_text(text));
    assert(items_view(content@) =~= seq![input_text_value(text@)]);
    encode_message_item("developer", content)
}

fn encode_user_part(part: &UserPart) -> (item: Json)
    ensures
        item@ == user_part_item(*part),
{
    match part {
        UserPart::Text { text } => input_text(text),
        UserPart::Image { media_type, data } => object2(
            "type",
            text_json("input_image"),
            "image_url",
            Json::Text(data_url(media_type, data)),
        ),
        UserPart::Document { media_type, data } => object3(
            "type",
            text_json("input_file"),
            "filename",
            Json::Text(document_filename(media_type)),
            "file_data",
            Json::Text(data_url(media_type, data)),
        ),
    }
}

pub fn encode_responses_user_message(message: &UserMessage) -> (item: Json)
    ensures
        item@ == user_item(*message),
        !is_overlong(item@),
{
    let mut content: Vec<Json> = Vec::new();
    if has_user_media(message) {
        let mut i: usize = 0;
        while i < message.parts.len()
            invariant
                i <= message.parts.len(),
                items_view(content@) == user_part_items(message.parts@.subrange(0, i as int)),
            decreases message.parts.len() - i,
        {
            push_item(&mut content, encode_user_part(&message.parts[i]));
            assert(items_view(content@) =~= user_part_items(message.parts@.subrange(0, i + 1)));
            i += 1;
        }
        assert(message.parts@.subrange(0, i as int) == message.parts@);
    } else {
        push_item(&mut content, input_text(&user_text(message)));
        assert(items_view(content@) =~= seq![
            input_text_value(joined(user_texts(message.parts@), "\n"@)),
        ]);
    }
    encode_message_item("user", content)
}

pub fn encode_responses_assistant_message(message: &AssistantMessage) -> (item: Option<Json>)
    ensures
        owned_view(item) == assistant_item(*message),
        match item {
            Some(item) => !is_overlong(item@),
            None => true,
        },
{
    let text = assistant_text(message);
    if text.as_str().is_empty() {
        return None;
    }
    let annotations: Vec<Json> = Vec::new();
    assert(items_view(annotations@) =~= Seq::empty());
    let content = object3(
        "type",
        text_json("output_text"),
        "text",
        text_json(&text),
        "annotations",
        Json::Array(annotations),
    );
    let mut fields: Vec<JsonField> = Vec::new();
    push_field(&mut fields, "type", text_json("message"));
    push_field(&mut fields, "role", text_json("assistant"));
    push_field(&mut fields, "status", text_json("completed"));
    push_field(&mut fields, "content", array1(content));
    assert(fields_view(fields@) =~= assistant_item_fields(text@));
    let id = match encode_responses_message_item_id(&message.id) {
        Some(id) => Some(Json::Text(id)),
        None => None,
    };
    push_optional(&mut fields, "id", id);
    proof {
        reveal_strlit("type");
        reveal_strlit("role");
        reveal_strlit("status");
        reveal_strlit("content");
        reveal_strlit("id");
        let all = fields_view(fields@);
        lemma_other_key(all, "id"@);
        let all = all.drop_first();
        lemma_other_key(all, "id"@);
        let all = all.drop_first();
        lemma_other_key(all, "id"@);
        let all = all.drop_first();
        lemma_other_key(all, "id"@);
        assert(all.drop_first() =~= optional_field("id"@, owned_view(id)));
    }
    Some(Json::Object(fields))
}

pub fn encode_responses_tool_call(
    call: &ToolCall,
    tools: &Vec<ToolSpec>,
    provider_kind: ProviderKind,
) -> (item: Json)
    ensures
        item@ == call_item(*call, tool_names(tools@, provider_kind)),
        !is_overlong(item@),
{
    let mut fields: Vec<JsonField> = Vec::new();
    push_field(&mut fields, "type", text_json("function_call"));
    push_field(&mut fields, "id", Json::Text(responses_function_call_item_id(&call.id)));
    push_field(&mut fields, "call_id", text_json(&call.id.0));
    let name = tool_name_for_provider(&call.name, tools, provider_kind);
    push_field(&mut fields, "name", Json::Text(name));
    push_field(&mut fields, "arguments", Json::Text(call.arguments.to_text()));
    push_field(&mut fields, "status", text_json("completed"));
    proof {
        let all = fields_view(fields@);
        assert(all =~= call_item(*call, tool_names(tools@, provider_kind))->Object_0);
        reveal_strlit("type");
        reveal_strlit("id");
        lemma_other_key(all, "id"@);
        assert(all.drop_first()[0] == all[1]);
    }
    Json::Object(fields)
}

pub fn encode_responses_tool_output(message: &ToolResultMessage) -> (item: Json)
    ensures
        item@ == output_item(*message),
        !is_overlong(item@),
{
    let item = object4(
        "type",
        text_json("function_call_output"),
        "id",
        Json::Text(responses_function_call_output_item_id(&message.call_id)),
        "call_id",
        text_json(&message.call_id.0),
        "output",
        Json::Text(tool_result_text(&message.content, &message.error)),
    );
    proof {
        let all = item@->Object_0;
        reveal_strlit("type");
        reveal_strlit("id");
        lemma_other_key(all, "id"@);
        assert(all.drop_first()[0] == all[1]);
    }
    item
}

/// No item from `start` on is overlong.
pub open spec fn fits_from(items: Seq<JsonView>, start: int) -> bool {
    forall|i: int| start <= i < items.len() ==> !is_overlong(#[trigger] items[i])
}

fn push_call_items(
    input: &mut Vec<Json>,
    parts: &Vec<AssistantPart>,
    tools: &Vec<ToolSpec>,
    provider_kind: ProviderKind,
)
    ensures
        items_view(final(input)@) == items_view(old(input)@) + call_items(
            parts@,
            tool_names(tools@, provider_kind),
        ),
        fits_from(items_view(final(input)@), old(input)@.len() as int),
{
    let ghost names = tool_names(tools@, provider_kind);
    let ghost before = items_view(input@);
    let mut i: usize = 0;
    assert(parts@.subrange(0, 0) =~= Seq::empty());
    assert(before + call_items(parts@.subrange(0, 0), names) =~= before);
    while i < parts.len()
        invariant
            i <= parts.len(),
            names == tool_names(tools@, provider_kind),
            before == items_view(old(input)@),
            items_view(input@) == before + call_items(parts@.subrange(0, i as int), names),
            fits_from(items_view(input@), before.len() as int),
        decreases parts.len() - i,
    {
        assert(parts@.subrange(0, i + 1).drop_last() == parts@.subrange(0, i as int));
        if let AssistantPart::ToolCall(call) = &parts[i] {
            push_item(input, encode_responses_tool_call(call, tools, provider_kind));
            assert(items_view(input@) =~= before + call_items(parts@.subrange(0, i + 1), names));
        }
        i += 1;
    }
    assert(parts@.subrange(0, i as int) == parts@);
}

/// Appends the items of the messages from `start` on.
pub fn push_message_items(
    input: &mut Vec<Json>,
    messages: &Vec<Message>,
    start: usize,
    tools: &Vec<ToolSpec>,
    provider_kind: ProviderKind,
)
    requires
        start <= messages@.len(),
    ensures
        items_view(final(input)@) == items_view(old(input)@) + input_items(
            messages@.subrange(start as int, messages@.len() as int),
            tool_names(tools@, provider_kind),
        ),
        fits_from(items_view(final(input)@), old(input)@.len() as int),
{
    let ghost names = tool_names(tools@, provider_kind);
    let ghost before = items_view(input@);
    let ghost part = messages@.subrange(start as int, messages@.len() as int);
    let mut i: usize = start;
    assert(part.subrange(0, 0) =~= Seq::empty());
    assert(before + input_items(part.subrange(0, 0), names) =~= before);
    while i < messages.len()
        invariant
            start <= i <= messages.len(),
            names == tool_names(tools@, provider_kind),
            before == items_view(old(input)@),
            part == messages@.subrange(start as int, messages@.len() as int),
            items_view(input@) == before + input_items(part.subrange(0, i - start), names),
            fits_from(items_view(input@), before.len() as int),
        decreases messages.len() - i,
    {
        let ghost done = items_view(input@);
        let ghost next = part.subrange(0, i + 1 - start);
        assert(next.drop_last() == part.subrange(0, i - start));
        assert(next.last() == messages@[i as int]);
        match &messages[i] {
            Message::System(_) => {
                assert(done =~= done + Seq::<JsonView>::empty());
            },
            Message::User(user) => {
                push_item(input, encode_responses_user_message(user));
                assert(items_view(input@) =~= done + seq![user_item(*user)]);
            },
            Message::Assistant(assistant) => {
                if let Some(item) = encode_responses_assistant_message(assistant) {
                    push_item(input, item);
                }
                let ghost texts = items_view(input@);
                push_call_items(input, &assistant.parts, tools, provider_kind);
                assert(items_view(input@) =~= done + message_items(messages@[i as int], names));
                assert(fits_from(items_view(input@), before.len() as int)) by {
                    assert forall|k: int|
                        before.len() <= k < items_view(input@).len() implies !is_overlong(
                        #[trigger] items_view(input@)[k],
                    ) by {
                        if k < texts.len() {
                            assert(items_view(input@)[k] == texts[k]);
                            if k < done.len() {
                                assert(texts[k] == done[k]);
                            }
                        }
                    }
                }
            },
            Message::Tool(tool) => {
                push_item(input, encode_responses_tool_output(tool));
                assert(items_view(input@) =~= done + seq![output_item(*tool)]);
            },
        }
        assert(items_view(input@) =~= before + input_items(next, names));
        i += 1;
    }
    assert(part.subrange(0, i - start) == part);
}

/// Refuses items whose identifiers are too long, naming the first one.
pub fn validate_responses_input_item_ids(input: &Vec<Json>) -> (result: Result<(), CodecError>)
    ensures
        match (first_overlong(items_view(input@)), result) {
            (None, Ok(_)) => true,
            (Some(at), Err(error)) => error@ == overlong_message(items_view(input@), at),
            _ => false,
        },
{
    let ghost all = items_view(input@);
    let mut i: usize = 0;
    while i < input.len()
        invariant
            i <= input.len(),
            all == items_view(input@),
            first_overlong(all.subrange(0, i as int)) is None,
        decreases input.len() - i,
    {
        assert(all.subrange(0, i + 1).drop_last() == all.subrange(0, i as int));
        if let Some(id) = input[i].get_str("id") {
            let len = id.as_bytes().len();
            if len > RESPONSES_ITEM_ID_MAX_LEN {
                proof {
                    lemma_overlong_stays(all, i as int + 1);
                }
                let head = concat3(
                    "failed to encode openai responses request: input[",
                    &decimal_text(i as u64),
                    "].id length ",
                );
                let message = crate::text::concat4(
                    &head,
                    &decimal_text(len as u64),
                    " exceeds ",
                    &decimal_text(RESPONSES_ITEM_ID_MAX_LEN as u64),
                );
                return Err(CodecError { message });
            }
        }
        i += 1;
    }
    assert(all.subrange(0, i as int) == all);
    Ok(())
}

proof fn lemma_overlong_stays(items: Seq<JsonView>, n: int)
    requires
        0 <= n <= items.len(),
        first_overlong(items.subrange(0, n)) is Some,
    ensures
        first_overlong(items) == first_overlong(items.subrange(0, n)),
    decreases items.len() - n,
{
    if n < items.len() {
        assert(items.subrange(0, n + 1).drop_last() == items.subrange(0, n));
        lemma_overlong_stays(items, n + 1);
    } else {
        assert(items.subrange(0, n) == items);
    }
}

// ---------------------------------------------------------------------------
// Requests to the Responses API

/// What a provider asks of a request beyond the conversation itself.
#[derive(Debug)]
pub struct ResponsesRequestOptions<'a> {
    pub stream: bool,
    pub store: Option<bool>,
    pub prompt_cache_key: Option<&'a str>,
    pub include_encrypted_reasoning: bool,
    pub reasoning_summary: Option<&'a str>,
    /// Sampling temperature; left out of the request where it is not set.
    pub temperature: Option<&'a JsonNumber>,
}

pub open spec fn effort_name(effort: ReasoningEffort) -> Seq<char> {
    match effort {
        ReasoningEffort::Low => "low"@,
        ReasoningEffort::Medium => "medium"@,
        ReasoningEffort::High => "high"@,
        ReasoningEffort::Xhigh => "xhigh"@,
    }
}

pub open spec fn optional_text_value(text: Option<Seq<char>>) -> Option<JsonView> {
    match text {
        Some(text) => Some(text_value(text)),
        None => None,
    }
}

pub open spec fn reasoning_value(reasoning: Option<ReasoningEffort>, summary: Option<Seq<char>>) -> Option<
    JsonView,
> {
    match reasoning {
        Some(effort) => Some(
            JsonView::Object(
                seq![("effort"@, text_value(effort_name(effort)))] + optional_field(
                    "summary"@,
                    optional_text_value(summary),
                ),
            ),
        ),
        None => None,
    }
}

pub open spec fn tool_item(spec: ToolSpec, names: Seq<ToolNames>) -> JsonView {
    JsonView::Object(
        seq![
            ("type"@, text_value("function"@)),
            ("name"@, text_value(provider_tool_name(spec.name.0@, names))),
            ("description"@, text_value(spec.description@)),
            ("parameters"@, spec.input_schema@),
        ],
    )
}

pub open spec fn tool_items(request: ProviderRequest) -> Seq<JsonView> {
    let names = tool_names(request.tools@, request.model.provider_kind);
    request.tools@.map_values(|spec: ToolSpec| tool_item(spec, names))
}

/// What goes before the messages of an unchained request: the system text as a
/// developer message, then the compacted history.
pub open spec fn request_prefix(request: ProviderRequest) -> Seq<JsonView> {
    let developer = match system_text(request) {
        Some(text) => seq![developer_item(text)],
        None => Seq::empty(),
    };
    developer + items_view(request.compacted_prefix@)
}

/// The input of a request: only the new messages where it continues a response
/// that the server has kept, and everything otherwise.
pub open spec fn request_input(request: ProviderRequest) -> Seq<JsonView> {
    let names = tool_names(request.tools@, request.model.provider_kind);
    let messages = request.messages@;
    if request.previous_response_id is Some {
        input_items(
            messages.subrange(request.new_messages_start as int, messages.len() as int),
            names,
        )
    } else {
        request_prefix(request) + input_items(messages, names)
    }
}

pub open spec fn responses_request_value(
    request: ProviderRequest,
    options: ResponsesRequestOptions<'_>,
) -> JsonView {
    let reasoning = reasoning_value(request.model.reasoning, str_view(options.reasoning_summary));
    let conversation = (Seq::empty().push(("model"@, text_value(request.model.model@)))
        + optional_field(
        "previous_response_id"@,
        optional_text_value(string_view(request.previous_response_id)),
    )).push(("input"@, JsonView::Array(request_input(request)))).push(
        ("stream"@, JsonView::Bool(options.stream)),
    );
    JsonView::Object(
        conversation + optional_field(
            "temperature"@,
            match options.temperature {
                Some(temperature) => Some(JsonView::Number(temperature@)),
                None => None,
            },
        ) + optional_field(
            "max_output_tokens"@,
            match request.model.max_output_tokens {
                Some(limit) => Some(number_value(limit as u64)),
                None => None,
            },
        ) + optional_field(
            "store"@,
            match options.store {
                Some(store) => Some(JsonView::Bool(store)),
                None => None,
            },
        ) + optional_field(
            "prompt_cache_key"@,
            optional_text_value(str_view(options.prompt_cache_key)),
        ) + optional_field("reasoning"@, reasoning) + optional_field(
            "include"@,
            if reasoning is Some && options.include_encrypted_reasoning {
                Some(JsonView::Array(seq![text_value("reasoning.encrypted_content"@)]))
            } else {
                None
            },
        ) + optional_field(
            "tools"@,
            if request.tools@.len() > 0 {
                Some(JsonView::Array(tool_items(request)))
            } else {
                None
            },
        ),
    )
}

pub fn encode_openai_reasoning(
    reasoning: Option<ReasoningEffort>,
    summary: Option<&str>,
) -> (value: Option<Json>)
    ensures
        owned_view(value) == reasoning_value(reasoning, str_view(summary)),
{
    let effort = match reasoning {
        Some(ReasoningEffort::Low) => "low",
        Some(ReasoningEffort::Medium) => "medium",
        Some(ReasoningEffort::High) => "high",
        Some(ReasoningEffort::Xhigh) => "xhigh",
        None => {
            return None;
        },
    };
    let mut body: Vec<JsonField> = Vec::new();
    push_field(&mut body, "effort", text_json(effort));
    assert(fields_view(body@) =~= seq![("effort"@, text_value(effort@))]);
    push_optional(&mut body, "summary", optional_text(summary));
    Some(Json::Object(body))
}

fn optional_text(text: Option<&str>) -> (value: Option<Json>)
    ensures
        owned_view(value) == optional_text_value(str_view(text)),
{
    match text {
        Some(text) => Some(text_json(text)),
        None => None,
    }
}

pub fn encode_responses_tools(request: &ProviderRequest) -> (tools: Vec<Json>)
    ensures
        items_view(tools@) == tool_items(*request),
{
    let mut tools: Vec<Json> = Vec::new();
    let mut i: usize = 0;
    while i < request.tools.len()
        invariant
            i <= request.tools.len(),
            items_view(tools@) == tool_items(*request).subrange(0, i as int),
        decreases request.tools.len() - i,
    {
        let tool = &request.tools[i];
        let name = tool_name_for_provider(&tool.name, &request.tools, request.model.provider_kind);
        push_item(
            &mut tools,
            object4(
                "type",
                text_json("function"),
                "name",
                Json::Text(name),
                "description",
                text_json(&tool.description),
                "parameters",
                tool.input_schema.duplicate(),
            ),
        );
        assert(items_view(tools@) =~= tool_items(*request).subrange(0, i + 1));
        i += 1;
    }
    assert(tool_items(*request).subrange(0, i as int) =~= tool_items(*request));
    tools
}

/// The positions of the compacted items in the input of an unchained request.
pub open spec fn is_prefix_position(request: ProviderRequest, at: nat) -> bool {
    let all = request_prefix(request).len();
    all - request.compacted_prefix@.len() <= at < all
}

fn encode_responses_input(request: &ProviderRequest) -> (input: Vec<Json>)
    requires
        request.previous_response_id is Some ==> request.new_messages_start
            <= request.messages@.len(),
    ensures
        items_view(input@) == request_input(*request),
        match first_overlong(request_input(*request)) {
            Some(at) => request.previous_response_id is None && is_prefix_position(*request, at),
            None => true,
        },
{
    let mut input: Vec<Json> = Vec::new();
    let ghost names = tool_names(request.tools@, request.model.provider_kind);
    assert(items_view(input@) =~= Seq::empty());
    if request.previous_response_id.is_some() {
        push_message_items(
            &mut input,
            &request.messages,
            request.new_messages_start,
            &request.tools,
            request.model.provider_kind,
        );
        assert(items_view(input@) =~= request_input(*request));
        proof {
            lemma_first_overlong(request_input(*request));
        }
        return input;
    }
    if let Some(system) = collect_system_text(request) {
        push_item(&mut input, encode_responses_developer_message(&system));
    }
    let ghost developer = items_view(input@);
    push_copies(&mut input, &request.compacted_prefix);
    assert(items_view(input@) =~= request_prefix(*request));
    let ghost prefix = items_view(input@);
    push_message_items(
        &mut input,
        &request.messages,
        0,
        &request.tools,
        request.model.provider_kind,
    );
    assert(request.messages@.subrange(0, request.messages@.len() as int) =~= request.messages@);
    proof {
        let all = request_input(*request);
        assert(items_view(input@) =~= all);
        lemma_first_overlong(all);
        if let Some(at) = first_overlong(all) {
            if at < developer.len() {
                assert(all[at as int] == developer[at as int]);
            }
        }
    }
    input
}

/// The body of a request to the Responses API. It is refused for its
/// identifiers only on account of the compacted history it was given.
pub fn encode_responses_request(
    request: &ProviderRequest,
    options: &ResponsesRequestOptions<'_>,
) -> (body: Result<Json, CodecError>)
    requires
        request.model.api_kind == ApiKind::OpenAiResponses && request.previous_response_id is Some
            ==> request.new_messages_start <= request.messages@.len(),
    ensures
        match body {
            Ok(body) => {
                &&& request.model.api_kind == ApiKind::OpenAiResponses
                &&& first_overlong(request_input(*request)) is None
                &&& body@ == responses_request_value(*request, *options)
            },
            Err(error) => if request.model.api_kind != ApiKind::OpenAiResponses {
                error@ == "failed to encode openai responses request: unsupported api kind"@
            } else {
                match first_overlong(request_input(*request)) {
                    Some(at) => {
                        &&& error@ == overlong_message(request_input(*request), at)
                        &&& request.previous_response_id is None
                        &&& is_prefix_position(*request, at)
                    },
                    None => false,
                }
            },
        },
{
    if request.model.api_kind != ApiKind::OpenAiResponses {
        return Err(
            CodecError::new("failed to encode openai responses request: unsupported api kind"),
        );
    }
    let mut body: Vec<JsonField> = Vec::new();
    assert(fields_view(body@) =~= Seq::empty());
    push_field(&mut body, "model", text_json(&request.model.model));
    let previous = match &request.previous_response_id {
        Some(id) => Some(text_json(id)),
        None => None,
    };
    push_optional(&mut body, "previous_response_id", previous);
    let input = encode_responses_input(request);
    if let Err(error) = validate_responses_input_item_ids(&input) {
        return Err(error);
    }
    push_field(&mut body, "input", Json::Array(input));
    push_field(&mut body, "stream", Json::Bool(options.stream));
    let temperature = match options.temperature {
        Some(temperature) => Some(Json::Number(temperature.duplicate())),
        None => None,
    };
    push_optional(&mut body, "temperature", temperature);
    let limit = match request.model.max_output_tokens {
        Some(limit) => Some(unsigned_json(limit as u64)),
        None => None,
    };
    push_optional(&mut body, "max_output_tokens", limit);
    let store = match options.store {
        Some(store) => Some(Json::Bool(store)),
        None => None,
    };
    push_optional(&mut body, "store", store);
    push_optional(&mut body, "prompt_cache_key", optional_text(options.prompt_cache_key));
    let reasoning = encode_openai_reasoning(request.model.reasoning, options.reasoning_summary);
    let extra = if reasoning.is_some() && options.include_encrypted_reasoning {
        Some(array1(text_json("reasoning.encrypted_content")))
    } else {
        None
    };
    push_optional(&mut body, "reasoning", reasoning);
    push_optional(&mut body, "include", extra);
    let tools = if request.tools.is_empty() {
        None
    } else {
        Some(Json::Array(encode_responses_tools(request)))
    };
    push_optional(&mut body, "tools", tools);
    Ok(Json::Object(body))
}

// ---------------------------------------------------------------------------
// Compaction

pub open spec fn compact_input(request: ProviderCompactionRequest) -> Seq<JsonView> {
    items_view(request.compacted_prefix@) + input_items(
        request.messages@,
        tool_names(request.tools@, request.model.provider_kind),
    )
}

pub open spec fn compact_value(request: ProviderCompactionRequest) -> Seq<(Seq<char>, JsonView)> {
    seq![
        ("model"@, text_value(request.model.model@)),
        ("input"@, JsonView::Array(compact_input(request))),
        ("instructions"@, text_value(request.instructions@)),
    ]
}

pub open spec fn openrouter_compact_value(request: ProviderCompactionRequest) -> Seq<
    (Seq<char>, JsonView),
> {
    compact_value(request) + seq![
        ("stream"@, JsonView::Bool(false)),
        ("store"@, JsonView::Bool(false)),
    ]
}

fn encode_responses_compact_input(request: &ProviderCompactionRequest) -> (input: Result<
    Vec<Json>,
    CodecError,
>)
    ensures
        match (first_overlong(compact_input(*request)), input) {
            (None, Ok(input)) => items_view(input@) == compact_input(*request),
            (Some(at), Err(error)) => error@ == overlong_message(compact_input(*request), at)
                && at < request.compacted_prefix@.len(),
            _ => false,
        },
{
    let mut input: Vec<Json> = Vec::new();
    push_copies(&mut input, &request.compacted_prefix);
    assert(items_view(input@) =~= items_view(request.compacted_prefix@));
    push_message_items(
        &mut input,
        &request.messages,
        0,
        &request.tools,
        request.model.provider_kind,
    );
    assert(request.messages@.subrange(0, request.messages@.len() as int) =~= request.messages@);
    proof {
        assert(items_view(input@) =~= compact_input(*request));
        lemma_first_overlong(compact_input(*request));
    }
    match validate_responses_input_item_ids(&input) {
        Ok(_) => Ok(input),
        Err(error) => Err(error),
    }
}

fn compact_fields(request: &ProviderCompactionRequest, input: Vec<Json>) -> (fields: Vec<JsonField>)
    requires
        items_view(input@) == compact_input(*request),
    ensures
        fields_view(fields@) == compact_value(*request),
{
    let mut fields: Vec<JsonField> = Vec::new();
    push_field(&mut fields, "model", text_json(&request.model.model));
    push_field(&mut fields, "input", Json::Array(input));
    push_field(&mut fields, "instructions", text_json(&request.instructions));
    assert(fields_view(fields@) =~= compact_value(*request));
    fields
}

/// The body of a request to the dedicated compaction endpoint.
pub fn encode_responses_compact_request(request: &ProviderCompactionRequest) -> (body: Result<
    Json,
    CodecError,
>)
    ensures
        match body {
            Ok(body) => {
                &&& request.model.api_kind == ApiKind::OpenAiResponses
                &&& first_overlong(compact_input(*request)) is None
                &&& body@ == JsonView::Object(compact_value(*request))
            },
            Err(error) => if request.model.api_kind != ApiKind::OpenAiResponses {
                error@ == "failed to encode openai compaction request: unsupported api kind"@
            } else {
                match first_overlong(compact_input(*request)) {
                    Some(at) => error@ == overlong_message(compact_input(*request), at) && at
                        < request.compacted_prefix@.len(),
                    None => false,
                }
            },
        },
{
    if request.model.api_kind != ApiKind::OpenAiResponses {
        return Err(
            CodecError::new("failed to encode openai compaction request: unsupported api kind"),
        );
    }
    match encode_responses_compact_input(request) {
        Ok(input) => Ok(Json::Object(compact_fields(request, input))),
        Err(error) => Err(error),
    }
}

/// The body of a request that asks OpenRouter for a summary in band.
pub fn encode_openrouter_compact_request(request: &ProviderCompactionRequest) -> (body: Result<
    Json,
    CodecError,
>)
    ensures
        match body {
            Ok(body) => {
                &&& request.model.api_kind == ApiKind::OpenAiResponses
                &&& first_overlong(compact_input(*request)) is None
                &&& body@ == JsonView::Object(openrouter_compact_value(*request))
            },
            Err(error) => if request.model.api_kind != ApiKind::OpenAiResponses {
                error@ == "failed to encode openrouter compaction request: unsupported api kind"@
            } else {
                match first_overlong(compact_input(*request)) {
                    Some(at) => error@ == overlong_message(compact_input(*request), at) && at
                        < request.compacted_prefix@.len(),
                    None => false,
                }
            },
        },
{
    if request.model.api_kind != ApiKind::OpenAiResponses {
        return Err(
            CodecError::new("failed to encode openrouter compaction request: unsupported api kind"),
        );
    }
    match encode_responses_compact_input(request) {
        Ok(input) => {
            let mut fields = compact_fields(request, input);
            push_field(&mut fields, "stream", Json::Bool(false));
            push_field(&mut fields, "store", Json::Bool(false));
            assert(fields_view(fields@) =~= openrouter_compact_value(*request));
            Ok(Json::Object(fields))
        },
        Err(error) => Err(error),
    }
}

/// A member three levels down.
pub open spec fn count_at(
    response: JsonView,
    outer: Seq<char>,
    middle: Seq<char>,
    inner: Seq<char>,
) -> u64 {
    match response.get_in(outer, middle) {
        Some(details) => match details.get_u64(inner) {
            Some(count) => count,
            None => 0,
        },
        None => 0,
    }
}

pub open spec fn openai_usage(response: JsonView) -> Usage {
    Usage {
        input_tokens: crate::anthropic_stream::usage_count(response, "input_tokens"@),
        output_tokens: crate::anthropic_stream::usage_count(response, "output_tokens"@),
        cache_creation_input_tokens: count_at(
            response,
            "usage"@,
            "input_tokens_details"@,
            "cache_creation_tokens"@,
        ),
        cache_read_input_tokens: count_at(
            response,
            "usage"@,
            "input_tokens_details"@,
            "cached_tokens"@,
        ),
    }
}

pub fn read_count_at(response: &Json, outer: &str, middle: &str, inner: &str) -> (count: u64)
    ensures
        count == count_at(response@, outer@, middle@, inner@),
{
    match response.get_in(outer, middle) {
        Some(details) => match details.get_u64(inner) {
            Some(count) => count,
            None => 0,
        },
        None => 0,
    }
}

pub fn decode_openai_usage(response: &Json) -> (usage: Usage)
    ensures
        usage == openai_usage(response@),
{
    Usage {
        input_tokens: crate::anthropic_stream::read_usage_count(response, "input_tokens"),
        output_tokens: crate::anthropic_stream::read_usage_count(response, "output_tokens"),
        cache_creation_input_tokens: read_count_at(
            response,
            "usage",
            "input_tokens_details",
            "cache_creation_tokens",
        ),
        cache_read_input_tokens: read_count_at(
            response,
            "usage",
            "input_tokens_details",
            "cached_tokens",
        ),
    }
}

/// Reads the reply of the dedicated compaction endpoint: its output as it
/// stands.
pub fn decode_responses_compact_response(response: &Json) -> (compaction: Result<
    ProviderCompactionResponse,
    CodecError,
>)
    ensures
        match (response@.get_array("output"@), compaction) {
            (Some(output), Ok(compaction)) => compaction@ == (CompactionView {
                output,
                usage: openai_usage(response@),
            }),
            (None, Err(error)) => error@
                == "failed to decode openai compaction response: missing output array"@,
            _ => false,
        },
{
    match response.get_array("output") {
        Some(items) => {
            let mut output: Vec<Json> = Vec::new();
            push_copies(&mut output, items);
            assert(items_view(output@) =~= items_view(items@));
            Ok(ProviderCompactionResponse { output, usage: decode_openai_usage(response) })
        },
        None => Err(
            CodecError::new("failed to decode openai compaction response: missing output array"),
        ),
    }
}

pub open spec fn content_said_text(content: JsonView) -> Option<Seq<char>> {
    first_text(content.get_str("text"@), content.get_str("output_text"@))
}

pub open spec fn contents_text(contents: Seq<JsonView>) -> Seq<char>
    decreases contents.len(),
{
    if contents.len() == 0 {
        Seq::empty()
    } else {
        contents_text(contents.drop_last()) + match content_said_text(contents.last()) {
            Some(text) => text,
            None => Seq::empty(),
        }
    }
}

/// What a message item of a summary says, if it is a message and says anything.
pub open spec fn summary_message_text(item: JsonView) -> Option<Seq<char>> {
    match item.get_array("content"@) {
        Some(contents) if has_type_spec(item, "message"@) && contents_text(contents).len() > 0 =>
        Some(contents_text(contents)),
        _ => None,
    }
}

pub open spec fn summary_texts(output: Seq<JsonView>) -> Seq<Seq<char>>
    decreases output.len(),
{
    if output.len() == 0 {
        Seq::empty()
    } else {
        let before = summary_texts(output.drop_last());
        match summary_message_text(output.last()) {
            Some(text) => before.push(text),
            None => before,
        }
    }
}

/// The summary in a reply, tagged, as one developer message; no item where the
/// reply says nothing.
pub open spec fn openrouter_summary(output: Seq<JsonView>) -> Seq<JsonView> {
    let text = joined(summary_texts(output), "\n\n"@);
    if text.len() == 0 {
        Seq::empty()
    } else {
        seq![developer_item(COMPACTION_OPEN_TAG@ + text + COMPACTION_CLOSE_TAG@)]
    }
}

fn openrouter_compaction_content_text(content: &Json) -> (text: Option<&str>)
    ensures
        str_view(text) == content_said_text(content@),
{
    match content.get_str("text") {
        Some(text) => Some(text),
        None => content.get_str("output_text"),
    }
}

fn openrouter_compaction_message_text(item: &Json) -> (text: Option<String>)
    ensures
        string_view(text) == summary_message_text(item@),
{
    if !has_type(item, "message") {
        return None;
    }
    let contents = match item.get_array("content") {
        Some(contents) => contents,
        None => {
            return None;
        },
    };
    let ghost all = items_view(contents@);
    let mut text = String::new();
    let mut i: usize = 0;
    while i < contents.len()
        invariant
            i <= contents.len(),
            all == items_view(contents@),
            text@ == contents_text(all.subrange(0, i as int)),
        decreases contents.len() - i,
    {
        assert(all.subrange(0, i + 1).drop_last() == all.subrange(0, i as int));
        match openrouter_compaction_content_text(&contents[i]) {
            Some(piece) => {
                text.append(piece);
            },
            None => {
                assert(text@ =~= text@ + Seq::<char>::empty());
            },
        }
        i += 1;
    }
    assert(all.subrange(0, i as int) == all);
    if text.as_str().is_empty() {
        None
    } else {
        Some(text)
    }
}

fn openrouter_compaction_output_text(output: &Vec<Json>) -> (text: String)
    ensures
        text@ == joined(summary_texts(items_view(output@)), "\n\n"@),
{
    let ghost all = items_view(output@);
    let mut texts: Vec<String> = Vec::new();
    let mut i: usize = 0;
    while i < output.len()
        invariant
            i <= output.len(),
            all == items_view(output@),
            views(texts@) == summary_texts(all.subrange(0, i as int)),
        decreases output.len() - i,
    {
        assert(all.subrange(0, i + 1).drop_last() == all.subrange(0, i as int));
        if let Some(text) = openrouter_compaction_message_text(&output[i]) {
            push_piece(&mut texts, text);
        }
        i += 1;
    }
    assert(all.subrange(0, i as int) == all);
    join(&texts, "\n\n")
}

/// Reads a summary that OpenRouter gave in band.
pub fn decode_openrouter_compact_response(response: &Json) -> (compaction: Result<
    ProviderCompactionResponse,
    CodecError,
>)
    ensures
        match (response@.get_array("output"@), compaction) {
            (Some(output), Ok(compaction)) => compaction@ == (CompactionView {
                output: openrouter_summary(output),
                usage: openai_usage(response@),
            }),
            (None, Err(error)) => error@
                == "failed to decode openrouter compaction response: missing output array"@,
            _ => false,
        },
{
    match response.get_array("output") {
        Some(items) => {
            let text = openrouter_compaction_output_text(items);
            let mut output: Vec<Json> = Vec::new();
            assert(items_view(output@) =~= Seq::empty());
            if !text.as_str().is_empty() {
                let tagged = concat3(COMPACTION_OPEN_TAG, &text, COMPACTION_CLOSE_TAG);
                push_item(&mut output, encode_responses_developer_message(&tagged));
            }
            assert(items_view(output@) =~= openrouter_summary(items_view(items@)));
            Ok(ProviderCompactionResponse { output, usage: decode_openai_usage(response) })
        },
        None => Err(
            CodecError::new(
                "failed to decode openrouter compaction response: missing output array",
            ),
        ),
    }
}

// ---------------------------------------------------------------------------
// Whole Responses replies

pub open spec fn reply_items(response: JsonView) -> Seq<JsonView> {
    match response.get_array("output"@) {
        Some(items) => items,
        None => Seq::empty(),
    }
}

/// The identifier of a message item, if it is one that the API gave.
pub open spec fn item_message_id(item: JsonView) -> Option<Seq<char>> {
    match item.get_str("id"@) {
        Some(id) if has_type_spec(item, "message"@) && is_message_item_id(id) => Some(id),
        _ => None,
    }
}

pub open spec fn first_message_id(items: Seq<JsonView>) -> Option<Seq<char>>
    decreases items.len(),
{
    if items.len() == 0 {
        None
    } else {
        match first_message_id(items.drop_last()) {
            Some(id) => Some(id),
            None => item_message_id(items.last()),
        }
    }
}

pub open spec fn nonempty_response_id(response: JsonView) -> Option<Seq<char>> {
    match response.get_str("id"@) {
        Some(id) if id.len() > 0 => Some(id),
        _ => None,
    }
}

/// The identifier of a reply's message: that of its first message item, or one
/// made from the response's.
pub open spec fn reply_message_id(response: JsonView) -> Option<Seq<char>> {
    match first_message_id(reply_items(response)) {
        Some(id) => Some(id),
        None => match nonempty_response_id(response) {
            Some(id) => Some(synthesized_message_id(id)),
            None => None,
        },
    }
}

pub open spec fn blocks_said(blocks: Seq<JsonView>, ids: IdsView) -> Said
    decreases blocks.len(),
{
    if blocks.len() == 0 {
        Said { events: Seq::empty(), ids }
    } else {
        let before = blocks_said(blocks.drop_last(), ids);
        match content_said_text(blocks.last()) {
            Some(text) => Said {
                events: before.events + whole_text(before.ids.fresh(), text),
                ids: before.ids.advanced(),
            },
            None => before,
        }
    }
}

/// The texts of the entries: their `text` members, or the entries themselves
/// where `bare` entries are texts too.
pub open spec fn entry_texts(entries: Seq<JsonView>, bare: bool) -> Seq<Seq<char>>
    decreases entries.len(),
{
    if entries.len() == 0 {
        Seq::empty()
    } else {
        let before = entry_texts(entries.drop_last(), bare);
        let entry = entries.last();
        let other = if bare {
            entry.as_str()
        } else {
            None
        };
        match first_text(entry.get_str("text"@), other) {
            Some(text) => before.push(text),
            None => before,
        }
    }
}

pub open spec fn entries_text(entries: Option<Seq<JsonView>>, bare: bool) -> Seq<char> {
    match entries {
        Some(entries) => joined(entry_texts(entries, bare), "\n"@),
        None => Seq::empty(),
    }
}

/// The summary of a reasoning item, or its content where the summary is empty.
pub open spec fn item_reasoning_text(item: JsonView) -> Seq<char> {
    let summary = entries_text(item.get_array("summary"@), true);
    if summary.len() > 0 {
        summary
    } else {
        entries_text(item.get_array("content"@), false)
    }
}

pub open spec fn arguments_text(value: Option<JsonView>) -> Seq<char> {
    match value {
        Some(JsonView::Text(text)) => text,
        Some(value) => json_text(value),
        None => "{}"@,
    }
}

/// What one output item says.
pub open spec fn item_said(item: JsonView, names: Seq<ToolNames>, ids: IdsView) -> Said {
    let nothing = Said { events: Seq::empty(), ids };
    if has_type_spec(item, "message"@) {
        match item.get_array("content"@) {
            Some(blocks) => blocks_said(blocks, ids),
            None => nothing,
        }
    } else if has_type_spec(item, "reasoning"@) {
        let text = item_reasoning_text(item);
        if text.len() > 0 {
            Said {
                events: whole_thinking(ids.fresh(), text, item.get_str("encrypted_content"@)),
                ids: ids.advanced(),
            }
        } else {
            nothing
        }
    } else if has_type_spec(item, "function_call"@) {
        let name = given_tool_name(item.get_str("name"@), names);
        let arguments = arguments_text(item.get("arguments"@));
        match first_text(item.get_str("call_id"@), item.get_str("id"@)) {
            Some(call_id) => Said {
                events: whole_tool_call(ids.fresh(), call_id, name, arguments),
                ids: ids.advanced(),
            },
            None => Said {
                events: whole_tool_call(ids.fresh(), ids.advanced().fresh(), name, arguments),
                ids: ids.advanced().advanced(),
            },
        }
    } else {
        nothing
    }
}

pub open spec fn items_said(items: Seq<JsonView>, names: Seq<ToolNames>, ids: IdsView) -> Said
    decreases items.len(),
{
    if items.len() == 0 {
        Said { events: Seq::empty(), ids }
    } else {
        let before = items_said(items.drop_last(), names, ids);
        let last = item_said(items.last(), names, before.ids);
        Said { events: before.events + last.events, ids: last.ids }
    }
}

pub open spec fn has_call_item(items: Seq<JsonView>) -> bool {
    exists|i: int| 0 <= i < items.len() && has_type_spec(#[trigger] items[i], "function_call"@)
}

pub open spec fn incomplete_reason(response: JsonView) -> Option<Seq<char>> {
    match response.get_in("incomplete_details"@, "reason"@) {
        Some(reason) => reason.as_str(),
        None => None,
    }
}

/// What a whole reply says.
pub open spec fn reply_said(request: ProviderRequest, response: JsonView, ids: IdsView) -> Said {
    let names = tool_names(request.tools@, request.model.provider_kind);
    let known = reply_message_id(response);
    let id = match known {
        Some(id) => id,
        None => ids.fresh(),
    };
    let items = reply_items(response);
    let said = items_said(
        items,
        names,
        if known is Some {
            ids
        } else {
            ids.advanced()
        },
    );
    Said {
        events: seq![EventView::MessageStart { id }] + said.events + seq![
            EventView::UsageUpdate { usage: openai_usage(response) },
            EventView::MessageEnd {
                id,
                stop_reason: stop_reason_spec(incomplete_reason(response), has_call_item(items)),
                response_id: nonempty_response_id(response),
            },
        ],
        ids: said.ids,
    }
}

fn response_output_message_id(response: &Json) -> (id: Option<String>)
    ensures
        string_view(id) == reply_message_id(response@),
{
    if let Some(output) = response.get_array("output") {
        let ghost all = items_view(output@);
        let mut i: usize = 0;
        while i < output.len()
            invariant
                i <= output.len(),
                all == items_view(output@),
                first_message_id(all.subrange(0, i as int)) is None,
                all == reply_items(response@),
            decreases output.len() - i,
        {
            assert(all.subrange(0, i + 1).drop_last() == all.subrange(0, i as int));
            if has_type(&output[i], "message") {
                if let Some(id) = output[i].get_str("id") {
                    if is_responses_message_item_id(id) {
                        proof {
                            lemma_message_id_stays(all, i as int + 1);
                        }
                        return Some(id.to_owned());
                    }
                }
            }
            i += 1;
        }
        assert(all.subrange(0, i as int) == all);
    }
    match response.get_str("id") {
        Some(id) if !id.is_empty() => Some(synthesized_responses_message_id(id).0),
        _ => None,
    }
}

proof fn lemma_message_id_stays(items: Seq<JsonView>, n: int)
    requires
        0 <= n <= items.len(),
        first_message_id(items.subrange(0, n)) is Some,
    ensures
        first_message_id(items) == first_message_id(items.subrange(0, n)),
    decreases items.len() - n,
{
    if n < items.len() {
        assert(items.subrange(0, n + 1).drop_last() == items.subrange(0, n));
        lemma_message_id_stays(items, n + 1);
    } else {
        assert(items.subrange(0, n) == items);
    }
}

fn response_output_response_id(response: &Json) -> (id: Option<String>)
    ensures
        string_view(id) == nonempty_response_id(response@),
{
    match response.get_str("id") {
        Some(id) if !id.is_empty() => Some(id.to_owned()),
        _ => None,
    }
}

pub fn join_entries(entries: &Vec<Json>, bare: bool) -> (text: String)
    ensures
        text@ == joined(entry_texts(items_view(entries@), bare), "\n"@),
{
    let ghost all = items_view(entries@);
    let mut texts: Vec<String> = Vec::new();
    let mut i: usize = 0;
    while i < entries.len()
        invariant
            i <= entries.len(),
            all == items_view(entries@),
            views(texts@) == entry_texts(all.subrange(0, i as int), bare),
        decreases entries.len() - i,
    {
        assert(all.subrange(0, i + 1).drop_last() == all.subrange(0, i as int));
        let text = match entries[i].get_str("text") {
            Some(text) => Some(text),
            None => if bare {
                entries[i].as_str()
            } else {
                None
            },
        };
        if let Some(text) = text {
            push_piece(&mut texts, text.to_owned());
        }
        i += 1;
    }
    assert(all.subrange(0, i as int) == all);
    join(&texts, "\n")
}

fn reasoning_text(item: &Json) -> (text: String)
    ensures
        text@ == item_reasoning_text(item@),
{
    if let Some(summary) = item.get_array("summary") {
        let text = join_entries(summary, true);
        if !text.as_str().is_empty() {
            return text;
        }
    }
    match item.get_array("content") {
        Some(content) => join_entries(content, false),
        None => String::new(),
    }
}

pub fn openai_arguments_string(value: Option<&Json>) -> (text: String)
    ensures
        text@ == arguments_text(crate::json::json_view(value)),
{
    match value {
        Some(Json::Text(text)) => text.clone(),
        Some(value) => value.to_text(),
        None => "{}".to_owned(),
    }
}

fn push_blocks(events: &mut Vec<StreamEvent>, blocks: &Vec<Json>, ids: &mut IdSource)
    ensures
        events_view(final(events)@) == events_view(old(events)@) + blocks_said(
            items_view(blocks@),
            old(ids)@,
        ).events,
        final(ids)@ == blocks_said(items_view(blocks@), old(ids)@).ids,
{
    let ghost all = items_view(blocks@);
    let ghost before = events_view(events@);
    let ghost start = ids@;
    let mut i: usize = 0;
    assert(before + blocks_said(all.subrange(0, 0), start).events =~= before);
    while i < blocks.len()
        invariant
            i <= blocks.len(),
            all == items_view(blocks@),
            events_view(events@) == before + blocks_said(all.subrange(0, i as int), start).events,
            ids@ == blocks_said(all.subrange(0, i as int), start).ids,
        decreases blocks.len() - i,
    {
        assert(all.subrange(0, i + 1).drop_last() == all.subrange(0, i as int));
        if let Some(text) = openrouter_compaction_content_text(&blocks[i]) {
            push_text(events, ids.mint(), text);
            assert(events_view(events@) =~= before + blocks_said(
                all.subrange(0, i + 1),
                start,
            ).events);
        }
        i += 1;
    }
    assert(all.subrange(0, i as int) == all);
}

fn push_output_item(
    events: &mut Vec<StreamEvent>,
    item: &Json,
    request: &ProviderRequest,
    ids: &mut IdSource,
)
    ensures
        ({
            let said = item_said(
                item@,
                tool_names(request.tools@, request.model.provider_kind),
                old(ids)@,
            );
            &&& events_view(final(events)@) == events_view(old(events)@) + said.events
            &&& final(ids)@ == said.ids
        }),
{
    if has_type(item, "message") {
        if let Some(content) = item.get_array("content") {
            push_blocks(events, content, ids);
            return ;
        }
    } else if has_type(item, "reasoning") {
        let text = reasoning_text(item);
        if !text.as_str().is_empty() {
            let signature = owned(item.get_str("encrypted_content"));
            push_thinking_block(events, ids.mint(), &text, signature);
            return ;
        }
    } else if has_type(item, "function_call") {
        let id = ids.mint();
        let given = match item.get_str("call_id") {
            Some(call_id) => Some(call_id),
            None => item.get_str("id"),
        };
        let call_id = match given {
            Some(call_id) => call_id.to_owned(),
            None => ids.mint(),
        };
        let name = named_tool(item.get_str("name"), &request.tools, request.model.provider_kind);
        let arguments = openai_arguments_string(item.get("arguments"));
        push_tool_call(events, id, ToolCallId(call_id), name, arguments);
        return ;
    }
    assert(events_view(events@) =~= events_view(old(events)@) + Seq::<EventView>::empty());
}

/// Reads one whole Responses reply.
pub fn decode_responses_response(
    request: &ProviderRequest,
    response: &Json,
    ids: &mut IdSource,
) -> (events: Vec<StreamEvent>)
    ensures
        events_view(events@) == reply_said(*request, response@, old(ids)@).events,
        final(ids)@ == reply_said(*request, response@, old(ids)@).ids,
{
    let ghost names = tool_names(request.tools@, request.model.provider_kind);
    let message_id = match response_output_message_id(response) {
        Some(id) => id,
        None => ids.mint(),
    };
    let ghost start = ids@;
    let mut events: Vec<StreamEvent> = Vec::new();
    push_event(&mut events, StreamEvent::MessageStart { id: MessageId(message_id.clone()) });
    let ghost head = events_view(events@);
    assert(head =~= seq![EventView::MessageStart { id: message_id@ }]);
    let ghost all = reply_items(response@);
    let mut saw_tool_call = false;
    assert(head + items_said(all.subrange(0, 0), names, start).events =~= head);
    if let Some(output) = response.get_array("output") {
        let mut i: usize = 0;
        while i < output.len()
            invariant
                i <= output.len(),
                all == items_view(output@),
                names == tool_names(request.tools@, request.model.provider_kind),
                events_view(events@) == head + items_said(
                    all.subrange(0, i as int),
                    names,
                    start,
                ).events,
                ids@ == items_said(all.subrange(0, i as int), names, start).ids,
                saw_tool_call == has_call_item(all.subrange(0, i as int)),
            decreases output.len() - i,
        {
            let ghost done = all.subrange(0, i as int);
            let ghost next = all.subrange(0, i + 1);
            assert(next.drop_last() == done);
            push_output_item(&mut events, &output[i], request, ids);
            assert(events_view(events@) =~= head + items_said(next, names, start).events);
            let is_call = has_type(&output[i], "function_call");
            proof {
                if is_call {
                    assert(has_type_spec(next[i as int], "function_call"@));
                }
                if has_call_item(done) {
                    let k = choose|k: int|
                        0 <= k < done.len() && has_type_spec(
                            #[trigger] done[k],
                            "function_call"@,
                        );
                    assert(has_type_spec(next[k], "function_call"@));
                }
                if has_call_item(next) {
                    let k = choose|k: int|
                        0 <= k < next.len() && has_type_spec(
                            #[trigger] next[k],
                            "function_call"@,
                        );
                    if k < i {
                        assert(has_type_spec(done[k], "function_call"@));
                    }
                }
            }
            if is_call {
                saw_tool_call = true;
            }
            i += 1;
        }
        assert(all.subrange(0, i as int) == all);
    } else {
        assert(all.subrange(0, 0) == all);
    }
    push_event(&mut events, StreamEvent::UsageUpdate { usage: decode_openai_usage(response) });
    let reason = match response.get_in("incomplete_details", "reason") {
        Some(reason) => reason.as_str(),
        None => None,
    };
    push_event(
        &mut events,
        StreamEvent::MessageEnd {
            id: MessageId(message_id),
            stop_reason: responses_stop_reason(reason, saw_tool_call),
            response_id: response_output_response_id(response),
        },
    );
    assert(events_view(events@) =~= reply_said(*request, response@, old(ids)@).events);
    events
}

} // verus!
