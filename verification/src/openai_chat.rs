//! Requests to, and whole replies from, the chat completions API.

use vstd::prelude::*;

use crate::anthropic_codec::{
    number_value, push_text, push_tool_call, text_value, whole_text, whole_tool_call, Said,
};
use crate::anthropic_laws::counted;
use crate::anthropic_stream::{given_tool_name, named_tool, usage_count};
use crate::codec_common::{
    assistant_text, assistant_texts, canonical_name, collect_system_text, data_url, data_url_text,
    has_user_media, provider_tool_name, result_text, system_text, tool_name_for_provider,
    tool_names, tool_result_text, user_has_media, user_text, user_texts, ToolNames,
};
use crate::hash::base64_text;
use crate::ids::{IdSource, IdsView};
use crate::json::{
    fields_view, items_view, json_text, law_missing_member_is_not_read, law_optional_member_is_read,
    lemma_fields_join, lemma_member, object1, object2, object3, optional_field, push_field,
    push_item, push_optional, string_view, text_json, unsigned_json, Json, JsonField, JsonView,
    NumberView,
};
use crate::openai_codec::{
    arguments_text, count_at, encode_openai_reasoning, entries_text, join_entries,
    openai_arguments_string, read_count_at, reasoning_value,
};
use crate::protocol::{
    events_view, push_event, ApiKind, AssistantMessage, AssistantPart, CodecError, EventView,
    Message, MessageId, ProviderRequest, StopReason, StreamEvent, ToolCall, ToolCallId, ToolResult,
    ToolResultMessage, ToolSpec, Usage, UserMessage, UserPart,
};
use crate::text::{concat3, joined, same_text};

verus! {

pub open spec fn unsupported_document(media_type: Seq<char>) -> Seq<char> {
    "failed to encode openai chat request: document inputs are not supported by chat completions ("@
        + media_type + ")"@
}

/// The parts of a user message, unless one is a document; then the first one's
/// refusal.
pub open spec fn chat_parts(parts: Seq<UserPart>) -> Result<Seq<JsonView>, Seq<char>>
    decreases parts.len(),
{
    if parts.len() == 0 {
        Ok(Seq::empty())
    } else {
        match chat_parts(parts.drop_last()) {
            Err(message) => Err(message),
            Ok(before) => match parts.last() {
                UserPart::Text { text } => Ok(
                    before.push(
                        JsonView::Object(
                            seq![("type"@, text_value("text"@)), ("text"@, text_value(text@))],
                        ),
                    ),
                ),
                UserPart::Image { media_type, data } => Ok(
                    before.push(
                        JsonView::Object(
                            seq![
                                ("type"@, text_value("image_url"@)),
                                (
                                    "image_url"@,
                                    JsonView::Object(
                                        seq![
                                            (
                                                "url"@,
                                                text_value(data_url_text(media_type@, data@)),
                                            ),
                                        ],
                                    ),
                                ),
                            ],
                        ),
                    ),
                ),
                UserPart::Document { media_type, .. } => Err(unsupported_document(media_type@)),
            },
        }
    }
}

pub open spec fn role_value(role: Seq<char>, content: JsonView) -> JsonView {
    JsonView::Object(seq![("role"@, text_value(role)), ("content"@, content)])
}

pub open spec fn chat_user(message: UserMessage) -> Result<JsonView, Seq<char>> {
    if user_has_media(message.parts@) {
        match chat_parts(message.parts@) {
            Ok(content) => Ok(role_value("user"@, JsonView::Array(content))),
            Err(message) => Err(message),
        }
    } else {
        Ok(role_value("user"@, text_value(joined(user_texts(message.parts@), "\n"@))))
    }
}

pub open spec fn chat_call(call: ToolCall, names: Seq<ToolNames>) -> JsonView {
    JsonView::Object(
        seq![
            ("id"@, text_value(call.id.0@)),
            ("type"@, text_value("function"@)),
            (
                "function"@,
                JsonView::Object(
                    seq![
                        ("name"@, text_value(provider_tool_name(call.name.0@, names))),
                        ("arguments"@, text_value(json_text(call.arguments@))),
                    ],
                ),
            ),
        ],
    )
}

pub open spec fn chat_calls(parts: Seq<AssistantPart>, names: Seq<ToolNames>) -> Seq<JsonView>
    decreases parts.len(),
{
    if parts.len() == 0 {
        Seq::empty()
    } else {
        let before = chat_calls(parts.drop_last(), names);
        match parts.last() {
            AssistantPart::ToolCall(call) => before.push(chat_call(call, names)),
            _ => before,
        }
    }
}

/// An assistant message, unless it has neither text nor tool calls.
pub open spec fn chat_assistant(message: AssistantMessage, names: Seq<ToolNames>) -> Seq<JsonView> {
    let text = joined(assistant_texts(message.parts@), "\n"@);
    let calls = chat_calls(message.parts@, names);
    if text.len() == 0 && calls.len() == 0 {
        Seq::empty()
    } else {
        seq![
            JsonView::Object(
                seq![("role"@, text_value("assistant"@))] + optional_field(
                    "content"@,
                    if text.len() > 0 {
                        Some(text_value(text))
                    } else {
                        None
                    },
                ) + optional_field(
                    "tool_calls"@,
                    if calls.len() > 0 {
                        Some(JsonView::Array(calls))
                    } else {
                        None
                    },
                ),
            ),
        ]
    }
}

/// What one message becomes, or why it cannot be sent.
pub open spec fn chat_message(message: Message, names: Seq<ToolNames>) -> Result<
    Seq<JsonView>,
    Seq<char>,
> {
    match message {
        Message::System(_) => Ok(Seq::empty()),
        Message::User(user) => match chat_user(user) {
            Ok(value) => Ok(seq![value]),
            Err(message) => Err(message),
        },
        Message::Assistant(assistant) => Ok(chat_assistant(assistant, names)),
        Message::Tool(tool) => Ok(
            seq![
                JsonView::Object(
                    seq![
                        ("role"@, text_value("tool"@)),
                        ("tool_call_id"@, text_value(tool.call_id.0@)),
                        ("content"@, text_value(result_text(tool.content, tool.error))),
                    ],
                ),
            ],
        ),
    }
}

pub open spec fn chat_messages_from(
    first: Seq<JsonView>,
    messages: Seq<Message>,
    names: Seq<ToolNames>,
) -> Result<Seq<JsonView>, Seq<char>>
    decreases messages.len(),
{
    if messages.len() == 0 {
        Ok(first)
    } else {
        match chat_messages_from(first, messages.drop_last(), names) {
            Err(message) => Err(message),
            Ok(before) => match chat_message(messages.last(), names) {
                Ok(more) => Ok(before + more),
                Err(message) => Err(message),
            },
        }
    }
}

/// The messages of a chat request, the system text first.
pub open spec fn chat_messages(request: ProviderRequest) -> Result<Seq<JsonView>, Seq<char>> {
    chat_messages_from(
        match system_text(request) {
            Some(text) => seq![role_value("system"@, text_value(text))],
            None => Seq::empty(),
        },
        request.messages@,
        tool_names(request.tools@, request.model.provider_kind),
    )
}

pub open spec fn chat_tool(spec: ToolSpec, names: Seq<ToolNames>) -> JsonView {
    JsonView::Object(
        seq![
            ("type"@, text_value("function"@)),
            (
                "function"@,
                JsonView::Object(
                    seq![
                        ("name"@, text_value(provider_tool_name(spec.name.0@, names))),
                        ("description"@, text_value(spec.description@)),
                        ("parameters"@, spec.input_schema@),
                    ],
                ),
            ),
        ],
    )
}

pub open spec fn chat_tools(request: ProviderRequest) -> Seq<JsonView> {
    let names = tool_names(request.tools@, request.model.provider_kind);
    request.tools@.map_values(|spec: ToolSpec| chat_tool(spec, names))
}

pub open spec fn chat_request_value(
    request: ProviderRequest,
    include_reasoning: bool,
    messages: Seq<JsonView>,
) -> JsonView {
    JsonView::Object(
        seq![
            ("model"@, text_value(request.model.model@)),
            ("stream"@, JsonView::Bool(false)),
            ("messages"@, JsonView::Array(messages)),
        ] + optional_field(
            "max_tokens"@,
            match request.model.max_output_tokens {
                Some(limit) => Some(number_value(limit as u64)),
                None => None,
            },
        ) + optional_field(
            "reasoning"@,
            if include_reasoning {
                reasoning_value(request.model.reasoning, None)
            } else {
                None
            },
        ) + if request.tools@.len() > 0 {
            seq![
                ("tools"@, JsonView::Array(chat_tools(request))),
                ("tool_choice"@, text_value("auto"@)),
            ]
        } else {
            Seq::empty()
        },
    )
}

fn encode_chat_parts(parts: &Vec<UserPart>) -> (content: Result<Vec<Json>, CodecError>)
    ensures
        match (chat_parts(parts@), content) {
            (Ok(values), Ok(content)) => items_view(content@) == values,
            (Err(message), Err(error)) => error@ == message,
            _ => false,
        },
{
    let mut content: Vec<Json> = Vec::new();
    let mut i: usize = 0;
    assert(items_view(content@) =~= Seq::empty());
    while i < parts.len()
        invariant
            i <= parts.len(),
            chat_parts(parts@.subrange(0, i as int)) == Ok::<Seq<JsonView>, Seq<char>>(
                items_view(content@),
            ),
        decreases parts.len() - i,
    {
        assert(parts@.subrange(0, i + 1).drop_last() == parts@.subrange(0, i as int));
        match &parts[i] {
            UserPart::Text { text } => {
                push_item(
                    &mut content,
                    object2("type", text_json("text"), "text", text_json(text)),
                );
            },
            UserPart::Image { media_type, data } => {
                let url = object1("url", Json::Text(data_url(media_type, data)));
                push_item(
                    &mut content,
                    object2("type", text_json("image_url"), "image_url", url),
                );
            },
            UserPart::Document { media_type, .. } => {
                proof {
                    lemma_refusal_stays(parts@, i as int + 1);
                }
                return Err(
                    CodecError {
                        message: concat3(
                            "failed to encode openai chat request: document inputs are not supported by chat completions (",
                            media_type,
                            ")",
                        ),
                    },
                );
            },
        }
        i += 1;
    }
    assert(parts@.subrange(0, i as int) == parts@);
    Ok(content)
}

proof fn lemma_refusal_stays(parts: Seq<UserPart>, n: int)
    requires
        0 <= n <= parts.len(),
        chat_parts(parts.subrange(0, n)) is Err,
    ensures
        chat_parts(parts) == chat_parts(parts.subrange(0, n)),
    decreases parts.len() - n,
{
    if n < parts.len() {
        assert(parts.subrange(0, n + 1).drop_last() == parts.subrange(0, n));
        lemma_refusal_stays(parts, n + 1);
    } else {
        assert(parts.subrange(0, n) == parts);
    }
}

fn encode_chat_user_message(message: &UserMessage) -> (value: Result<Json, CodecError>)
    ensures
        match (chat_user(*message), value) {
            (Ok(expected), Ok(value)) => value@ == expected,
            (Err(message), Err(error)) => error@ == message,
            _ => false,
        },
{
    if !has_user_media(message) {
        return Ok(
            object2("role", text_json("user"), "content", Json::Text(user_text(message))),
        );
    }
    match encode_chat_parts(&message.parts) {
        Ok(content) => Ok(object2("role", text_json("user"), "content", Json::Array(content))),
        Err(error) => Err(error),
    }
}

fn encode_chat_calls(request: &ProviderRequest, parts: &Vec<AssistantPart>) -> (calls: Vec<Json>)
    ensures
        items_view(calls@) == chat_calls(
            parts@,
            tool_names(request.tools@, request.model.provider_kind),
        ),
{
    let ghost names = tool_names(request.tools@, request.model.provider_kind);
    let mut calls: Vec<Json> = Vec::new();
    let mut i: usize = 0;
    assert(items_view(calls@) =~= Seq::empty());
    while i < parts.len()
        invariant
            i <= parts.len(),
            names == tool_names(request.tools@, request.model.provider_kind),
            items_view(calls@) == chat_calls(parts@.subrange(0, i as int), names),
        decreases parts.len() - i,
    {
        assert(parts@.subrange(0, i + 1).drop_last() == parts@.subrange(0, i as int));
        if let AssistantPart::ToolCall(call) = &parts[i] {
            let name = tool_name_for_provider(
                &call.name,
                &request.tools,
                request.model.provider_kind,
            );
            let function = object2(
                "name",
                Json::Text(name),
                "arguments",
                Json::Text(call.arguments.to_text()),
            );
            push_item(
                &mut calls,
                object3(
                    "id",
                    text_json(&call.id.0),
                    "type",
                    text_json("function"),
                    "function",
                    function,
                ),
            );
        }
        i += 1;
    }
    assert(parts@.subrange(0, i as int) == parts@);
    calls
}

fn push_chat_assistant(
    messages: &mut Vec<Json>,
    request: &ProviderRequest,
    assistant: &AssistantMessage,
)
    ensures
        items_view(final(messages)@) == items_view(old(messages)@) + chat_assistant(
            *assistant,
            tool_names(request.tools@, request.model.provider_kind),
        ),
{
    let text = assistant_text(assistant);
    let calls = encode_chat_calls(request, &assistant.parts);
    assert(items_view(calls@).len() == calls@.len());
    let no_text = text.as_str().is_empty();
    if no_text && calls.is_empty() {
        assert(items_view(messages@) =~= items_view(old(messages)@) + Seq::<JsonView>::empty());
        return ;
    }
    let mut fields: Vec<JsonField> = Vec::new();
    push_field(&mut fields, "role", text_json("assistant"));
    assert(fields_view(fields@) =~= seq![("role"@, text_value("assistant"@))]);
    let content = if no_text {
        None
    } else {
        Some(Json::Text(text))
    };
    push_optional(&mut fields, "content", content);
    let tool_calls = if calls.is_empty() {
        None
    } else {
        Some(Json::Array(calls))
    };
    push_optional(&mut fields, "tool_calls", tool_calls);
    let value = Json::Object(fields);
    push_item(messages, value);
    assert(items_view(messages@) =~= items_view(old(messages)@) + seq![value@]);
}

pub fn encode_chat_messages(request: &ProviderRequest) -> (messages: Result<Vec<Json>, CodecError>)
    ensures
        match (chat_messages(*request), messages) {
            (Ok(values), Ok(messages)) => items_view(messages@) == values,
            (Err(message), Err(error)) => error@ == message,
            _ => false,
        },
{
    let ghost names = tool_names(request.tools@, request.model.provider_kind);
    let mut messages: Vec<Json> = Vec::new();
    if let Some(system) = collect_system_text(request) {
        push_item(
            &mut messages,
            object2("role", text_json("system"), "content", Json::Text(system)),
        );
    }
    let ghost first = items_view(messages@);
    assert(first =~= match system_text(*request) {
        Some(text) => seq![role_value("system"@, text_value(text))],
        None => Seq::empty(),
    });
    let mut i: usize = 0;
    while i < request.messages.len()
        invariant
            i <= request.messages.len(),
            names == tool_names(request.tools@, request.model.provider_kind),
            chat_messages(*request) == chat_messages_from(first, request.messages@, names),
            chat_messages_from(first, request.messages@.subrange(0, i as int), names) == Ok::<
                Seq<JsonView>,
                Seq<char>,
            >(items_view(messages@)),
        decreases request.messages.len() - i,
    {
        let ghost done = items_view(messages@);
        assert(request.messages@.subrange(0, i + 1).drop_last() == request.messages@.subrange(
            0,
            i as int,
        ));
        match &request.messages[i] {
            Message::System(_) => {
                assert(done =~= done + Seq::<JsonView>::empty());
            },
            Message::User(user) => match encode_chat_user_message(user) {
                Ok(value) => {
                    push_item(&mut messages, value);
                    assert(items_view(messages@) =~= done + seq![value@]);
                },
                Err(error) => {
                    proof {
                        lemma_failure_stays(first, request.messages@, names, i as int + 1);
                    }
                    return Err(error);
                },
            },
            Message::Assistant(assistant) => {
                push_chat_assistant(&mut messages, request, assistant);
            },
            Message::Tool(tool) => {
                let value = object3(
                    "role",
                    text_json("tool"),
                    "tool_call_id",
                    text_json(&tool.call_id.0),
                    "content",
                    Json::Text(tool_result_text(&tool.content, &tool.error)),
                );
                push_item(&mut messages, value);
                assert(items_view(messages@) =~= done + seq![value@]);
            },
        }
        i += 1;
    }
    assert(request.messages@.subrange(0, i as int) == request.messages@);
    Ok(messages)
}

proof fn lemma_failure_stays(
    first: Seq<JsonView>,
    messages: Seq<Message>,
    names: Seq<ToolNames>,
    n: int,
)
    requires
        0 <= n <= messages.len(),
        chat_messages_from(first, messages.subrange(0, n), names) is Err,
    ensures
        chat_messages_from(first, messages, names) == chat_messages_from(
            first,
            messages.subrange(0, n),
            names,
        ),
    decreases messages.len() - n,
{
    if n < messages.len() {
        assert(messages.subrange(0, n + 1).drop_last() == messages.subrange(0, n));
        lemma_failure_stays(first, messages, names, n + 1);
    } else {
        assert(messages.subrange(0, n) == messages);
    }
}

fn encode_chat_tools(request: &ProviderRequest) -> (tools: Vec<Json>)
    ensures
        items_view(tools@) == chat_tools(*request),
{
    let mut tools: Vec<Json> = Vec::new();
    let mut i: usize = 0;
    while i < request.tools.len()
        invariant
            i <= request.tools.len(),
            items_view(tools@) == chat_tools(*request).subrange(0, i as int),
        decreases request.tools.len() - i,
    {
        let tool = &request.tools[i];
        let name = tool_name_for_provider(&tool.name, &request.tools, request.model.provider_kind);
        let function = object3(
            "name",
            Json::Text(name),
            "description",
            text_json(&tool.description),
            "parameters",
            tool.input_schema.duplicate(),
        );
        push_item(&mut tools, object2("type", text_json("function"), "function", function));
        assert(items_view(tools@) =~= chat_tools(*request).subrange(0, i + 1));
        i += 1;
    }
    assert(chat_tools(*request).subrange(0, i as int) =~= chat_tools(*request));
    tools
}

/// The body of a chat completions request.
pub fn encode_chat_request(request: &ProviderRequest, include_reasoning: bool) -> (body: Result<
    Json,
    CodecError,
>)
    ensures
        match body {
            Ok(body) => {
                &&& request.model.api_kind == ApiKind::OpenAiChat
                &&& chat_messages(*request) is Ok
                &&& body@ == chat_request_value(
                    *request,
                    include_reasoning,
                    chat_messages(*request)->Ok_0,
                )
            },
            Err(error) => if request.model.api_kind != ApiKind::OpenAiChat {
                error@ == "failed to encode openai chat request: unsupported api kind"@
            } else {
                chat_messages(*request) == Err::<Seq<JsonView>, Seq<char>>(error@)
            },
        },
{
    if request.model.api_kind != ApiKind::OpenAiChat {
        return Err(CodecError::new("failed to encode openai chat request: unsupported api kind"));
    }
    let messages = match encode_chat_messages(request) {
        Ok(messages) => messages,
        Err(error) => {
            return Err(error);
        },
    };
    let ghost values = items_view(messages@);
    let mut body: Vec<JsonField> = Vec::new();
    push_field(&mut body, "model", text_json(&request.model.model));
    push_field(&mut body, "stream", Json::Bool(false));
    push_field(&mut body, "messages", Json::Array(messages));
    assert(fields_view(body@) =~= seq![
        ("model"@, text_value(request.model.model@)),
        ("stream"@, JsonView::Bool(false)),
        ("messages"@, JsonView::Array(values)),
    ]);
    let limit = match request.model.max_output_tokens {
        Some(limit) => Some(unsigned_json(limit as u64)),
        None => None,
    };
    push_optional(&mut body, "max_tokens", limit);
    let reasoning = if include_reasoning {
        encode_openai_reasoning(request.model.reasoning, None)
    } else {
        None
    };
    push_optional(&mut body, "reasoning", reasoning);
    let ghost before = fields_view(body@);
    if request.tools.is_empty() {
        assert(before =~= before + Seq::<(Seq<char>, JsonView)>::empty());
    } else {
        push_field(&mut body, "tools", Json::Array(encode_chat_tools(request)));
        push_field(&mut body, "tool_choice", text_json("auto"));
        assert(fields_view(body@) =~= before + seq![
            ("tools"@, JsonView::Array(chat_tools(*request))),
            ("tool_choice"@, text_value("auto"@)),
        ]);
    }
    Ok(Json::Object(body))
}

// ---------------------------------------------------------------------------
// Replies

/// The first of the reply's choices.
pub open spec fn first_choice(response: JsonView) -> Option<JsonView> {
    match response.get("choices"@) {
        Some(JsonView::Array(choices)) => if choices.len() > 0 {
            Some(choices[0])
        } else {
            None
        },
        Some(choices) => choices.get("0"@),
        None => None,
    }
}

/// What the content of a message says, if it says anything.
pub open spec fn chat_content(content: Option<JsonView>) -> Option<Seq<char>> {
    let text = match content {
        Some(JsonView::Text(text)) => text,
        Some(JsonView::Array(parts)) => entries_text(Some(parts), true),
        _ => Seq::empty(),
    };
    if text.len() > 0 {
        Some(text)
    } else {
        None
    }
}

pub open spec fn chat_call_said(call: JsonView, names: Seq<ToolNames>, ids: IdsView) -> Said {
    let function = match call.get("function"@) {
        Some(function) => function,
        None => call,
    };
    let name = given_tool_name(function.get_str("name"@), names);
    let arguments = arguments_text(function.get("arguments"@));
    match call.get_str("id"@) {
        Some(call_id) => Said {
            events: whole_tool_call(ids.fresh(), call_id, name, arguments),
            ids: ids.advanced(),
        },
        None => Said {
            events: whole_tool_call(ids.fresh(), ids.advanced().fresh(), name, arguments),
            ids: ids.advanced().advanced(),
        },
    }
}

pub open spec fn chat_calls_said(calls: Seq<JsonView>, names: Seq<ToolNames>, ids: IdsView) -> Said
    decreases calls.len(),
{
    if calls.len() == 0 {
        Said { events: Seq::empty(), ids }
    } else {
        let before = chat_calls_said(calls.drop_last(), names, ids);
        let last = chat_call_said(calls.last(), names, before.ids);
        Said { events: before.events + last.events, ids: last.ids }
    }
}

pub open spec fn chat_stop_reason(choice: JsonView) -> StopReason {
    let reason = choice.get_str("finish_reason"@);
    if reason == Some("tool_calls"@) || reason == Some("function_call"@) {
        StopReason::ToolUse
    } else if reason == Some("length"@) {
        StopReason::MaxTokens
    } else if reason == Some("content_filter"@) {
        StopReason::Error
    } else {
        StopReason::EndTurn
    }
}

pub open spec fn chat_usage(response: JsonView) -> Usage {
    Usage {
        input_tokens: usage_count(response, "prompt_tokens"@),
        output_tokens: usage_count(response, "completion_tokens"@),
        cache_creation_input_tokens: 0,
        cache_read_input_tokens: count_at(
            response,
            "usage"@,
            "prompt_tokens_details"@,
            "cached_tokens"@,
        ),
    }
}

/// The part of a reply between its start and its end.
pub open spec fn chat_body_said(message: JsonView, names: Seq<ToolNames>, ids: IdsView) -> Said {
    let calls = match message.get_array("tool_calls"@) {
        Some(calls) => calls,
        None => Seq::empty(),
    };
    match chat_content(message.get("content"@)) {
        Some(text) => {
            let said = chat_calls_said(calls, names, ids.advanced());
            Said { events: whole_text(ids.fresh(), text) + said.events, ids: said.ids }
        },
        None => chat_calls_said(calls, names, ids),
    }
}

/// What a whole chat reply says, or why it cannot be read.
pub open spec fn chat_said(request: ProviderRequest, response: JsonView, ids: IdsView) -> Result<
    Said,
    Seq<char>,
> {
    let names = tool_names(request.tools@, request.model.provider_kind);
    let given = response.get_str("id"@);
    let id = match given {
        Some(id) => id,
        None => ids.fresh(),
    };
    match first_choice(response) {
        None => Err("failed to decode openai chat response: missing first choice"@),
        Some(choice) => match choice.get("message"@) {
            None => Err("failed to decode openai chat response: missing message"@),
            Some(message) => {
                let body = chat_body_said(
                    message,
                    names,
                    if given is Some {
                        ids
                    } else {
                        ids.advanced()
                    },
                );
                Ok(
                    Said {
                        events: seq![EventView::MessageStart { id }] + body.events + seq![
                            EventView::UsageUpdate { usage: chat_usage(response) },
                            EventView::MessageEnd {
                                id,
                                stop_reason: chat_stop_reason(choice),
                                response_id: None,
                            },
                        ],
                        ids: body.ids,
                    },
                )
            },
        },
    }
}

fn find_first_choice(response: &Json) -> (choice: Option<&Json>)
    ensures
        crate::json::json_view(choice) == first_choice(response@),
{
    match response.get("choices") {
        Some(Json::Array(choices)) => if choices.len() > 0 {
            Some(&choices[0])
        } else {
            None
        },
        Some(choices) => choices.get("0"),
        None => None,
    }
}

fn chat_content_text(content: Option<&Json>) -> (text: Option<String>)
    ensures
        string_view(text) == chat_content(crate::json::json_view(content)),
{
    let text = match content {
        Some(Json::Text(text)) => text.clone(),
        Some(Json::Array(parts)) => join_entries(parts, true),
        _ => String::new(),
    };
    if text.as_str().is_empty() {
        None
    } else {
        Some(text)
    }
}

fn push_chat_call(
    events: &mut Vec<StreamEvent>,
    call: &Json,
    request: &ProviderRequest,
    ids: &mut IdSource,
)
    ensures
        ({
            let said = chat_call_said(
                call@,
                tool_names(request.tools@, request.model.provider_kind),
                old(ids)@,
            );
            &&& events_view(final(events)@) == events_view(old(events)@) + said.events
            &&& final(ids)@ == said.ids
        }),
{
    let id = ids.mint();
    let call_id = match call.get_str("id") {
        Some(call_id) => call_id.to_owned(),
        None => ids.mint(),
    };
    let function = match call.get("function") {
        Some(function) => function,
        None => call,
    };
    let name = named_tool(function.get_str("name"), &request.tools, request.model.provider_kind);
    let arguments = openai_arguments_string(function.get("arguments"));
    push_tool_call(events, id, ToolCallId(call_id), name, arguments);
}

fn push_chat_calls(
    events: &mut Vec<StreamEvent>,
    calls: &Vec<Json>,
    request: &ProviderRequest,
    ids: &mut IdSource,
)
    ensures
        ({
            let said = chat_calls_said(
                items_view(calls@),
                tool_names(request.tools@, request.model.provider_kind),
                old(ids)@,
            );
            &&& events_view(final(events)@) == events_view(old(events)@) + said.events
            &&& final(ids)@ == said.ids
        }),
{
    let ghost names = tool_names(request.tools@, request.model.provider_kind);
    let ghost all = items_view(calls@);
    let ghost before = events_view(events@);
    let ghost start = ids@;
    let mut i: usize = 0;
    assert(before + chat_calls_said(all.subrange(0, 0), names, start).events =~= before);
    while i < calls.len()
        invariant
            i <= calls.len(),
            all == items_view(calls@),
            names == tool_names(request.tools@, request.model.provider_kind),
            events_view(events@) == before + chat_calls_said(
                all.subrange(0, i as int),
                names,
                start,
            ).events,
            ids@ == chat_calls_said(all.subrange(0, i as int), names, start).ids,
        decreases calls.len() - i,
    {
        assert(all.subrange(0, i + 1).drop_last() == all.subrange(0, i as int));
        push_chat_call(events, &calls[i], request, ids);
        assert(events_view(events@) =~= before + chat_calls_said(
            all.subrange(0, i + 1),
            names,
            start,
        ).events);
        i += 1;
    }
    assert(all.subrange(0, i as int) == all);
}

fn decode_chat_stop_reason(choice: &Json) -> (reason: StopReason)
    ensures
        reason == chat_stop_reason(choice@),
{
    let reason = match choice.get_str("finish_reason") {
        Some(reason) => reason,
        None => {
            return StopReason::EndTurn;
        },
    };
    if same_text(reason, "tool_calls") || same_text(reason, "function_call") {
        StopReason::ToolUse
    } else if same_text(reason, "length") {
        StopReason::MaxTokens
    } else if same_text(reason, "content_filter") {
        StopReason::Error
    } else {
        StopReason::EndTurn
    }
}

fn decode_chat_usage(response: &Json) -> (usage: Usage)
    ensures
        usage == chat_usage(response@),
{
    Usage {
        input_tokens: crate::anthropic_stream::read_usage_count(response, "prompt_tokens"),
        output_tokens: crate::anthropic_stream::read_usage_count(response, "completion_tokens"),
        cache_creation_input_tokens: 0,
        cache_read_input_tokens: read_count_at(
            response,
            "usage",
            "prompt_tokens_details",
            "cached_tokens",
        ),
    }
}

/// Reads one whole chat reply.
pub fn decode_chat_response(
    request: &ProviderRequest,
    response: &Json,
    ids: &mut IdSource,
) -> (result: Result<Vec<StreamEvent>, CodecError>)
    ensures
        match (chat_said(*request, response@, old(ids)@), result) {
            (Ok(said), Ok(events)) => events_view(events@) == said.events && final(ids)@
                == said.ids,
            (Err(message), Err(error)) => error@ == message && final(ids)@ == old(ids)@,
            _ => false,
        },
{
    let choice = match find_first_choice(response) {
        Some(choice) => choice,
        None => {
            return Err(
                CodecError::new("failed to decode openai chat response: missing first choice"),
            );
        },
    };
    let message = match choice.get("message") {
        Some(message) => message,
        None => {
            return Err(CodecError::new("failed to decode openai chat response: missing message"));
        },
    };
    let ghost names = tool_names(request.tools@, request.model.provider_kind);
    let message_id = match response.get_str("id") {
        Some(id) => id.to_owned(),
        None => ids.mint(),
    };
    let ghost start = ids@;
    let mut events: Vec<StreamEvent> = Vec::new();
    push_event(&mut events, StreamEvent::MessageStart { id: MessageId(message_id.clone()) });
    let ghost head = events_view(events@);
    assert(head =~= seq![EventView::MessageStart { id: message_id@ }]);
    if let Some(text) = chat_content_text(message.get("content")) {
        push_text(&mut events, ids.mint(), &text);
    }
    match message.get_array("tool_calls") {
        Some(calls) => {
            push_chat_calls(&mut events, calls, request, ids);
        },
        None => {},
    }
    assert(events_view(events@) =~= head + chat_body_said(message@, names, start).events);
    push_event(&mut events, StreamEvent::UsageUpdate { usage: decode_chat_usage(response) });
    push_event(
        &mut events,
        StreamEvent::MessageEnd {
            id: MessageId(message_id),
            stop_reason: decode_chat_stop_reason(choice),
            response_id: None,
        },
    );
    assert(events_view(events@) =~= chat_said(*request, response@, old(ids)@)->Ok_0.events);
    Ok(events)
}

// ---------------------------------------------------------------------------
// What a chat request and its reply say

/// A call goes out under its identifier, with its tool's name and its arguments as
/// JSON text.
pub proof fn law_chat_call_keeps_its_arguments(call: ToolCall, names: Seq<ToolNames>)
    ensures
        ({
            let value = chat_call(call, names);
            &&& value.get_str("id"@) == Some(call.id.0@)
            &&& value.get_str("type"@) == Some("function"@)
            &&& value.get_in_str("function"@, "name"@) == Some(
                provider_tool_name(call.name.0@, names),
            )
            &&& value.get_in_str("function"@, "arguments"@) == Some(json_text(call.arguments@))
        }),
{
    reveal_strlit("id");
    reveal_strlit("type");
    reveal_strlit("function");
    reveal_strlit("name");
    reveal_strlit("arguments");
    assert("id"@.len() == 2);
    assert("type"@.len() == 4);
    assert("function"@.len() == 8);
    assert("name"@.len() == 4);
    assert("arguments"@.len() == 9);
    assert("type"@[0] != "name"@[0]);
    let value = chat_call(call, names);
    lemma_member(value, 0, "id"@);
    lemma_member(value, 1, "type"@);
    lemma_member(value, 2, "function"@);
    let function = value.get("function"@)->0;
    lemma_member(function, 0, "name"@);
    lemma_member(function, 1, "arguments"@);
}

/// A tool's answer goes out as the tool's message, under the identifier of its call,
/// with what the tool gave or why it failed.
pub proof fn law_chat_result_answers_its_call(tool: ToolResultMessage, names: Seq<ToolNames>)
    ensures
        chat_message(Message::Tool(tool), names) matches Ok(values) && {
            let said = values[0].get_str("content"@);
            &&& values.len() == 1
            &&& values[0].get_str("role"@) == Some("tool"@)
            &&& values[0].get_str("tool_call_id"@) == Some(tool.call_id.0@)
            &&& match (tool.content, tool.error) {
                (ToolResult::Empty, None) => said == Some(Seq::<char>::empty()),
                (ToolResult::Text { text }, None) => said == Some(text@),
                (ToolResult::Json { value }, None) => said == Some(json_text(value@)),
                (ToolResult::Empty, Some(error)) => said == Some(error.message@),
                (ToolResult::Text { text }, Some(error)) => said == Some(
                    text@ + "\n\nerror: "@ + error.message@,
                ),
                (ToolResult::Json { value }, Some(error)) => said == Some(
                    json_text(
                        JsonView::Object(
                            seq![("result"@, value@), ("error"@, JsonView::Text(error.message@))],
                        ),
                    ),
                ),
            }
        },
{
    reveal_strlit("role");
    reveal_strlit("tool_call_id");
    reveal_strlit("content");
    assert("role"@.len() == 4);
    assert("tool_call_id"@.len() == 12);
    assert("content"@.len() == 7);
    let value = chat_message(Message::Tool(tool), names)->Ok_0[0];
    lemma_member(value, 0, "role"@);
    lemma_member(value, 1, "tool_call_id"@);
    lemma_member(value, 2, "content"@);
}

/// What the user says goes out as the user's message: as one text, or part by part
/// where there is an image among it. A document cannot go out at all.
pub proof fn law_chat_user_message_is_kept(user: UserMessage, names: Seq<ToolNames>)
    ensures
        !user_has_media(user.parts@) ==> (chat_message(Message::User(user), names) matches Ok(
            values,
        ) && values.len() == 1 && values[0].get_str("role"@) == Some("user"@)
            && values[0].get_str("content"@) == Some(joined(user_texts(user.parts@), "\n"@))),
        user_has_media(user.parts@) && chat_parts(user.parts@) is Ok ==> (chat_message(
            Message::User(user),
            names,
        ) matches Ok(values) && values.len() == 1 && values[0].get_str("role"@) == Some("user"@)
            && values[0].get_array("content"@) == Some(chat_parts(user.parts@)->Ok_0)),
        user_has_media(user.parts@) && chat_parts(user.parts@) is Err ==> chat_message(
            Message::User(user),
            names,
        ) is Err,
{
    reveal_strlit("role");
    reveal_strlit("content");
    assert("role"@.len() == 4);
    assert("content"@.len() == 7);
    if let Ok(values) = chat_message(Message::User(user), names) {
        lemma_member(values[0], 0, "role"@);
        lemma_member(values[0], 1, "content"@);
    }
}

/// Parts go out in their order: texts as texts, images as data with their types; the
/// first document among them is why none goes out.
pub proof fn law_chat_parts_are_kept(parts: Seq<UserPart>, part: UserPart)
    ensures
        chat_parts(Seq::empty()) == Ok::<Seq<JsonView>, Seq<char>>(Seq::empty()),
        chat_parts(parts) is Err ==> chat_parts(parts.push(part)) == chat_parts(parts),
        chat_parts(parts) matches Ok(before) ==> match part {
            UserPart::Document { media_type, .. } => chat_parts(parts.push(part)) == Err::<
                Seq<JsonView>,
                Seq<char>,
            >(
                "failed to encode openai chat request: document inputs are not supported by chat completions ("@
                    + media_type@ + ")"@,
            ),
            UserPart::Text { text } => chat_parts(parts.push(part)) matches Ok(after) && {
                &&& after.len() == before.len() + 1
                &&& after.drop_last() == before
                &&& after.last().get_str("type"@) == Some("text"@)
                &&& after.last().get_str("text"@) == Some(text@)
            },
            UserPart::Image { media_type, data } => chat_parts(parts.push(part)) matches Ok(
                after,
            ) && {
                &&& after.len() == before.len() + 1
                &&& after.drop_last() == before
                &&& after.last().get_str("type"@) == Some("image_url"@)
                &&& after.last().get_in_str("image_url"@, "url"@) == Some(
                    "data:"@ + media_type@ + ";base64,"@ + base64_text(data@),
                )
            },
        },
{
    assert(parts.push(part).drop_last() =~= parts);
    reveal_strlit("type");
    reveal_strlit("text");
    reveal_strlit("image_url");
    reveal_strlit("url");
    assert("type"@.len() == 4);
    assert("text"@.len() == 4);
    assert("image_url"@.len() == 9);
    assert("url"@.len() == 3);
    assert("type"@[1] != "text"@[1]);
    if let Ok(after) = chat_parts(parts.push(part)) {
        let before = chat_parts(parts)->Ok_0;
        assert(after.drop_last() =~= before);
        lemma_member(after.last(), 0, "type"@);
        match part {
            UserPart::Text { .. } => {
                lemma_member(after.last(), 1, "text"@);
            },
            UserPart::Image { .. } => {
                lemma_member(after.last(), 1, "image_url"@);
                lemma_member(after.last().get("image_url"@)->0, 0, "url"@);
            },
            _ => {},
        }
    }
}

/// What the assistant said goes out as the assistant's message, where it said or
/// called anything: its texts line by line, and its calls.
pub proof fn law_chat_assistant_message_is_kept(
    assistant: AssistantMessage,
    names: Seq<ToolNames>,
)
    ensures
        ({
            let text = joined(assistant_texts(assistant.parts@), "\n"@);
            let calls = chat_calls(assistant.parts@, names);
            let values = chat_assistant(assistant, names);
            &&& values.len() == if text.len() == 0 && calls.len() == 0 {
                0int
            } else {
                1
            }
            &&& values.len() == 1 ==> {
                &&& values[0].get_str("role"@) == Some("assistant"@)
                &&& text.len() > 0 ==> values[0].get_str("content"@) == Some(text)
                &&& text.len() == 0 ==> values[0].get("content"@) is None
                &&& calls.len() > 0 ==> values[0].get_array("tool_calls"@) == Some(calls)
                &&& calls.len() == 0 ==> values[0].get("tool_calls"@) is None
            }
        }),
        chat_message(Message::Assistant(assistant), names) == Ok::<Seq<JsonView>, Seq<char>>(
            chat_assistant(assistant, names),
        ),
{
    reveal_strlit("role");
    reveal_strlit("content");
    reveal_strlit("tool_calls");
    assert("role"@.len() == 4);
    assert("content"@.len() == 7);
    assert("tool_calls"@.len() == 10);
    let text = joined(assistant_texts(assistant.parts@), "\n"@);
    let calls = chat_calls(assistant.parts@, names);
    if text.len() > 0 || calls.len() > 0 {
        let value = chat_assistant(assistant, names)[0];
        let fields = value->Object_0;
        lemma_member(value, 0, "role"@);
        if text.len() > 0 {
            lemma_member(value, 1, "content"@);
        } else {
            law_missing_member_is_not_read(fields, "content"@);
        }
        if calls.len() > 0 {
            lemma_member(value, fields.len() - 1, "tool_calls"@);
        } else {
            law_missing_member_is_not_read(fields, "tool_calls"@);
        }
    }
}

/// Every call that the assistant made goes out, in its order, and nothing else does as
/// a call.
pub proof fn law_chat_calls_are_sent(
    parts: Seq<AssistantPart>,
    part: AssistantPart,
    names: Seq<ToolNames>,
)
    ensures
        chat_calls(Seq::empty(), names).len() == 0,
        chat_calls(parts.push(part), names) == match part {
            AssistantPart::ToolCall(call) => chat_calls(parts, names).push(chat_call(call, names)),
            _ => chat_calls(parts, names),
        },
{
    assert(parts.push(part).drop_last() =~= parts);
}

/// Messages go out in their order, what the system says first and under its role; one
/// message that cannot go out keeps all from going out.
pub proof fn law_chat_messages_are_sent_in_order(
    first: Seq<JsonView>,
    messages: Seq<Message>,
    message: Message,
    names: Seq<ToolNames>,
)
    ensures
        chat_messages_from(first, Seq::empty(), names) == Ok::<Seq<JsonView>, Seq<char>>(first),
        chat_messages_from(first, messages.push(message), names) == match (
            chat_messages_from(first, messages, names),
            chat_message(message, names),
        ) {
            (Ok(before), Ok(more)) => Ok(before + more),
            (Err(reason), _) => Err(reason),
            (_, Err(reason)) => Err(reason),
        },
        message is System ==> chat_message(message, names) == Ok::<Seq<JsonView>, Seq<char>>(
            Seq::empty(),
        ),
{
    assert(messages.push(message).drop_last() =~= messages);
}

/// What the system says is the first message, and the system's; without it the
/// conversation begins with its own first message.
pub proof fn law_chat_system_comes_first(request: ProviderRequest)
    ensures
        ({
            let names = tool_names(request.tools@, request.model.provider_kind);
            &&& system_text(request) is None ==> chat_messages(request) == chat_messages_from(
                Seq::empty(),
                request.messages@,
                names,
            )
            &&& system_text(request) matches Some(text) ==> exists|said: JsonView|
                {
                    &&& said.get_str("role"@) == Some("system"@)
                    &&& said.get_str("content"@) == Some(text)
                    &&& chat_messages(request) == #[trigger] chat_messages_from(
                        seq![said],
                        request.messages@,
                        names,
                    )
                }
        }),
{
    reveal_strlit("role");
    reveal_strlit("content");
    assert("role"@.len() == 4);
    assert("content"@.len() == 7);
    if let Some(text) = system_text(request) {
        let said = role_value("system"@, text_value(text));
        lemma_member(said, 0, "role"@);
        lemma_member(said, 1, "content"@);
        let names = tool_names(request.tools@, request.model.provider_kind);
        assert(chat_messages(request) == chat_messages_from(
            seq![said],
            request.messages@,
            names,
        ));
    }
}

/// A request names the model and its messages, is not streamed, and says how many
/// tokens to give at most, what effort to make and which tools there are, as far as
/// that is set; which tool to take is left to the model.
pub proof fn law_chat_request_says_what_is_asked(
    request: ProviderRequest,
    include_reasoning: bool,
    messages: Seq<JsonView>,
)
    ensures
        ({
            let body = chat_request_value(request, include_reasoning, messages);
            &&& body.get_str("model"@) == Some(request.model.model@)
            &&& body.get("stream"@) == Some(JsonView::Bool(false))
            &&& body.get_array("messages"@) == Some(messages)
            &&& body.get("max_tokens"@) == if request.model.max_output_tokens is Some {
                Some(
                    JsonView::Number(
                        NumberView::Unsigned(
                            request.model.max_output_tokens->0 as u64,
                        ),
                    ),
                )
            } else {
                None
            }
            &&& include_reasoning ==> body.get("reasoning"@) == reasoning_value(
                request.model.reasoning,
                None,
            )
            &&& !include_reasoning ==> body.get("reasoning"@) is None
            &&& request.tools@.len() > 0 ==> body.get_array("tools"@) == Some(chat_tools(request))
                && body.get_str("tool_choice"@) == Some("auto"@)
            &&& request.tools@.len() == 0 ==> body.get("tools"@) is None && body.get(
                "tool_choice"@,
            ) is None
        }),
{
    reveal_strlit("model");
    reveal_strlit("stream");
    reveal_strlit("messages");
    reveal_strlit("max_tokens");
    reveal_strlit("reasoning");
    reveal_strlit("tools");
    reveal_strlit("tool_choice");
    assert("model"@.len() == 5);
    assert("stream"@.len() == 6);
    assert("messages"@.len() == 8);
    assert("max_tokens"@.len() == 10);
    assert("reasoning"@.len() == 9);
    assert("tools"@.len() == 5);
    assert("tool_choice"@.len() == 11);
    assert("model"@[0] != "tools"@[0]);
    lemma_chat_request_members(request, include_reasoning, messages, "model"@);
    lemma_chat_request_members(request, include_reasoning, messages, "stream"@);
    lemma_chat_request_members(request, include_reasoning, messages, "messages"@);
    lemma_chat_request_members(request, include_reasoning, messages, "max_tokens"@);
    lemma_chat_request_members(request, include_reasoning, messages, "reasoning"@);
    lemma_chat_request_members(request, include_reasoning, messages, "tools"@);
    lemma_chat_request_members(request, include_reasoning, messages, "tool_choice"@);
}

proof fn lemma_chat_request_members(
    request: ProviderRequest,
    include_reasoning: bool,
    messages: Seq<JsonView>,
    key: Seq<char>,
)
    ensures
        chat_request_value(request, include_reasoning, messages).get(key) == if key == "model"@ {
            Some(text_value(request.model.model@))
        } else if key == "stream"@ {
            Some(JsonView::Bool(false))
        } else if key == "messages"@ {
            Some(JsonView::Array(messages))
        } else if key == "max_tokens"@ {
            match request.model.max_output_tokens {
                Some(limit) => Some(number_value(limit as u64)),
                None => None,
            }
        } else if key == "reasoning"@ {
            if include_reasoning {
                reasoning_value(request.model.reasoning, None)
            } else {
                None
            }
        } else if key == "tools"@ && request.tools@.len() > 0 {
            Some(JsonView::Array(chat_tools(request)))
        } else if key == "tool_choice"@ && request.tools@.len() > 0 {
            Some(text_value("auto"@))
        } else {
            None
        },
{
    reveal_strlit("model");
    reveal_strlit("stream");
    reveal_strlit("messages");
    reveal_strlit("max_tokens");
    reveal_strlit("reasoning");
    reveal_strlit("tools");
    reveal_strlit("tool_choice");
    assert("model"@.len() == 5);
    assert("stream"@.len() == 6);
    assert("messages"@.len() == 8);
    assert("max_tokens"@.len() == 10);
    assert("reasoning"@.len() == 9);
    assert("tools"@.len() == 5);
    assert("tool_choice"@.len() == 11);
    assert("model"@[0] != "tools"@[0]);
    let first = seq![
        ("model"@, text_value(request.model.model@)),
        ("stream"@, JsonView::Bool(false)),
        ("messages"@, JsonView::Array(messages)),
    ];
    let limit = match request.model.max_output_tokens {
        Some(limit) => Some(number_value(limit as u64)),
        None => None,
    };
    let reasoning = if include_reasoning {
        reasoning_value(request.model.reasoning, None)
    } else {
        None
    };
    let last = if request.tools@.len() > 0 {
        seq![
            ("tools"@, JsonView::Array(chat_tools(request))),
            ("tool_choice"@, text_value("auto"@)),
        ]
    } else {
        Seq::empty()
    };
    let head = JsonView::Object(first);
    if key == "model"@ {
        lemma_member(head, 0, key);
    } else if key == "stream"@ {
        lemma_member(head, 1, key);
    } else if key == "messages"@ {
        lemma_member(head, 2, key);
    } else {
        law_missing_member_is_not_read(first, key);
    }
    let tail = JsonView::Object(last);
    if request.tools@.len() > 0 && key == "tools"@ {
        lemma_member(tail, 0, key);
    } else if request.tools@.len() > 0 && key == "tool_choice"@ {
        lemma_member(tail, 1, key);
    } else {
        law_missing_member_is_not_read(last, key);
    }
    law_optional_member_is_read("max_tokens"@, limit, key);
    law_optional_member_is_read("reasoning"@, reasoning, key);
    let b = optional_field("max_tokens"@, limit);
    let c = optional_field("reasoning"@, reasoning);
    lemma_fields_join(first, b, key);
    lemma_fields_join(first + b, c, key);
    lemma_fields_join(first + b + c, last, key);
}

/// A tool is offered under the name it goes by at the provider, with its description
/// and what its arguments have to look like.
pub proof fn law_chat_tool_is_offered(request: ProviderRequest, at: int)
    requires
        0 <= at < request.tools@.len(),
    ensures
        ({
            let names = tool_names(request.tools@, request.model.provider_kind);
            let value = chat_tools(request)[at];
            let spec = request.tools@[at];
            let function = value.get("function"@);
            &&& chat_tools(request).len() == request.tools@.len()
            &&& value.get_str("type"@) == Some("function"@)
            &&& function is Some
            &&& function->0.get_str("name"@) == Some(provider_tool_name(spec.name.0@, names))
            &&& function->0.get_str("description"@) == Some(spec.description@)
            &&& function->0.get("parameters"@) == Some(spec.input_schema@)
        }),
{
    reveal_strlit("type");
    reveal_strlit("function");
    reveal_strlit("name");
    reveal_strlit("description");
    reveal_strlit("parameters");
    assert("type"@.len() == 4);
    assert("function"@.len() == 8);
    assert("name"@.len() == 4);
    assert("description"@.len() == 11);
    assert("parameters"@.len() == 10);
    assert("type"@[0] != "name"@[0]);
    let value = chat_tools(request)[at];
    lemma_member(value, 0, "type"@);
    lemma_member(value, 1, "function"@);
    let function = value.get("function"@)->0;
    lemma_member(function, 0, "name"@);
    lemma_member(function, 1, "description"@);
    lemma_member(function, 2, "parameters"@);
}

/// Why a chat reply stopped, by what its choice says: `tool_calls` and `function_call`
/// are tool calls, `length` is want of tokens, `content_filter` is an error, and
/// anything else is the end of the turn.
pub proof fn law_chat_stop_reasons(choice: JsonView, reason: Seq<char>)
    requires
        choice.get_str("finish_reason"@) == Some(reason),
    ensures
        reason == "tool_calls"@ ==> chat_stop_reason(choice) == StopReason::ToolUse,
        reason == "function_call"@ ==> chat_stop_reason(choice) == StopReason::ToolUse,
        reason == "length"@ ==> chat_stop_reason(choice) == StopReason::MaxTokens,
        reason == "content_filter"@ ==> chat_stop_reason(choice) == StopReason::Error,
        reason == "stop"@ ==> chat_stop_reason(choice) == StopReason::EndTurn,
        reason != "tool_calls"@ && reason != "function_call"@ && reason != "length"@ && reason
            != "content_filter"@ ==> chat_stop_reason(choice) == StopReason::EndTurn,
{
    reveal_strlit("tool_calls");
    reveal_strlit("function_call");
    reveal_strlit("length");
    reveal_strlit("content_filter");
    reveal_strlit("stop");
    assert("tool_calls"@.len() == 10);
    assert("function_call"@.len() == 13);
    assert("length"@.len() == 6);
    assert("content_filter"@.len() == 14);
    assert("stop"@.len() == 4);
}

/// A call in a chat reply is told under the identifier that its result has to answer,
/// with its tool's name and its arguments, and ended.
pub proof fn law_chat_call_is_told(
    call: JsonView,
    names: Seq<ToolNames>,
    ids: IdsView,
    function: JsonView,
    call_id: Seq<char>,
    name: Seq<char>,
    arguments: Seq<char>,
)
    requires
        call.get("function"@) == Some(function),
        call.get_str("id"@) == Some(call_id),
        function.get_str("name"@) == Some(name),
        function.get_str("arguments"@) == Some(arguments),
    ensures
        ({
            let id = ids.fresh();
            chat_call_said(call, names, ids).events == seq![
                EventView::ToolCallStart {
                    id,
                    tool_call_id: call_id,
                    name: canonical_name(name, names),
                },
                EventView::ToolArgsDelta { id, delta: arguments },
                EventView::ToolCallEnd { id },
            ]
        }),
{
}

/// A chat reply is told as its message: opened under the reply's identifier, its text,
/// its calls in their order, its token counts, and why it stopped.
pub proof fn law_chat_reply_is_told(
    request: ProviderRequest,
    response: JsonView,
    ids: IdsView,
    id: Seq<char>,
    choice: JsonView,
    message: JsonView,
    text: Seq<char>,
    calls: Seq<JsonView>,
)
    requires
        response.get_str("id"@) == Some(id),
        response.get_array("choices"@) is Some,
        response.get_array("choices"@)->0.len() > 0,
        response.get_array("choices"@)->0[0] == choice,
        choice.get("message"@) == Some(message),
        message.get_str("content"@) == Some(text),
        text.len() > 0,
        message.get_array("tool_calls"@) == Some(calls),
    ensures
        chat_said(request, response, ids) matches Ok(said) && {
            let names = tool_names(request.tools@, request.model.provider_kind);
            let block = ids.fresh();
            let told = chat_calls_said(calls, names, ids.advanced()).events;
            let usage = response.get("usage"@);
            let events = said.events;
            let last = events.len() - 1;
            &&& events.len() == told.len() + 6
            &&& events[0] == (EventView::MessageStart { id })
            &&& events.subrange(1, 4) == seq![
                EventView::TextStart { id: block },
                EventView::TextDelta { id: block, delta: text },
                EventView::TextEnd { id: block },
            ]
            &&& events.subrange(4, last - 1) == told
            &&& events[last - 1] is UsageUpdate
            &&& events[last - 1]->usage.input_tokens == counted(
                usage,
                "prompt_tokens"@,
            )
            &&& events[last - 1]->usage.output_tokens == counted(
                usage,
                "completion_tokens"@,
            )
            &&& events[last - 1]->usage.cache_creation_input_tokens == 0
            &&& events[last] == (EventView::MessageEnd {
                id,
                stop_reason: chat_stop_reason(choice),
                response_id: None,
            })
        },
{
    let names = tool_names(request.tools@, request.model.provider_kind);
    let block = ids.fresh();
    let told = chat_calls_said(calls, names, ids.advanced()).events;
    let events = chat_said(request, response, ids)->Ok_0.events;
    assert(events.subrange(1, 4) =~= seq![
        EventView::TextStart { id: block },
        EventView::TextDelta { id: block, delta: text },
        EventView::TextEnd { id: block },
    ]);
    assert(events.subrange(4, events.len() - 2) =~= told);
}

/// Calls in a chat reply are told one after another.
pub proof fn law_chat_calls_are_told_in_order(
    calls: Seq<JsonView>,
    call: JsonView,
    names: Seq<ToolNames>,
    ids: IdsView,
)
    ensures
        chat_calls_said(Seq::empty(), names, ids).events.len() == 0,
        ({
            let before = chat_calls_said(calls, names, ids);
            chat_calls_said(calls.push(call), names, ids).events == before.events
                + chat_call_said(call, names, before.ids).events
        }),
{
    assert(calls.push(call).drop_last() =~= calls);
}

/// A reply without a choice, or with one that has no message, cannot be read.
pub proof fn law_chat_reply_needs_a_message(
    request: ProviderRequest,
    response: JsonView,
    ids: IdsView,
)
    ensures
        response.get("choices"@) is None ==> chat_said(request, response, ids) == Err::<
            Said,
            Seq<char>,
        >("failed to decode openai chat response: missing first choice"@),
        response.get_array("choices"@) is Some && response.get_array("choices"@)->0.len() == 0
            ==> chat_said(request, response, ids) is Err,
        response.get_array("choices"@) is Some && response.get_array("choices"@)->0.len() > 0
            && response.get_array("choices"@)->0[0].get("message"@) is None ==> chat_said(
            request,
            response,
            ids,
        ) == Err::<Said, Seq<char>>(
            "failed to decode openai chat response: missing message"@,
        ),
{
}

} // verus!
