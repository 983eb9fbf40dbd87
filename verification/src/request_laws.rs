//! What holds of every request, whichever API it goes to.

use vstd::prelude::*;

use crate::anthropic_codec::{
    assistant_part_value, assistant_parts_value, cache_control, encoded_messages, flushed,
    is_adaptive_model, messages_value, pinned_content, pinned_message, pinned_messages,
    rendered_segments, request_value, role_message, skill_end, system_blocks, system_end,
    system_tail, system_value, text_block_value, text_value, thinking_fields, tool_result_value,
    tools_value, user_part_value, user_parts_value,
};
use crate::codec_common::{
    bounded_id, byte_length, is_clean_id, is_short_hash, law_clean_short_id_is_kept,
    law_empty_id_is_named_by_its_hash, law_short_id_is_kept, provider_tool_name, short_hash_text,
    system_sections, system_text, system_texts, tool_names, user_has_media, user_texts, ToolNames,
};
use crate::hash::base64_text;
use crate::json::{
    field_value, items_view, json_read, json_text, law_missing_member_is_not_read,
    law_optional_member_is_read, law_set_member_is_read, lemma_fields_join, lemma_member,
    optional_field, str_view, string_view, with_field, JsonNumber, JsonView, NumberView,
};
use crate::openai_codec::{
    assistant_item, call_item, call_items, compact_value, first_overlong, input_items,
    is_item_id_char, is_message_item_id, is_overlong, openrouter_compact_value, output_item,
    overlong_message, reasoning_value, replayed_message_id, request_input, responses_request_value,
    synthesized_message_id, tool_items, user_item, user_part_item, ResponsesRequestOptions,
};
use crate::protocol::{
    AssistantMessage, AssistantPart, Message, ProviderCompactionRequest, ProviderRequest,
    ReasoningEffort, SystemMessage, ToolCall, ToolResult, ToolResultMessage, UserMessage, UserPart,
};
use crate::text::{decimal, has_prefix, joined, trimmed};

verus! {

/// The second member is found where the first has another name.
proof fn lemma_second_field(fields: Seq<(Seq<char>, JsonView)>, key: Seq<char>)
    requires
        fields.len() >= 2,
        fields[0].0 != key,
        fields[1].0 == key,
    ensures
        field_value(fields, key) == Some(fields[1].1),
{
    reveal_with_fuel(field_value, 2);
    assert(fields.drop_first()[0] == fields[1]);
}

/// A tool result answers its call: both go to the Messages API under one
/// identifier.
pub proof fn law_messages_result_answers_its_call(
    call: ToolCall,
    result: ToolResultMessage,
    names: Seq<ToolNames>,
)
    requires
        call.id.0@ == result.call_id.0@,
    ensures
        ({
            let asked = assistant_part_value(AssistantPart::ToolCall(call), names)->0;
            let answered = tool_result_value(result);
            &&& asked.get_str("id"@) is Some
            &&& answered.get_str("tool_use_id"@) == asked.get_str("id"@)
        }),
{
    reveal_strlit("type");
    reveal_strlit("id");
    reveal_strlit("tool_use_id");
    assert("type"@.len() != "id"@.len());
    assert("type"@.len() != "tool_use_id"@.len());
    let asked = assistant_part_value(AssistantPart::ToolCall(call), names)->0;
    lemma_second_field(asked->Object_0, "id"@);
    lemma_second_field(tool_result_value(result)->Object_0, "tool_use_id"@);
}

/// A tool result answers its call: both go to the Responses API under one
/// identifier.
pub proof fn law_responses_result_answers_its_call(
    call: ToolCall,
    result: ToolResultMessage,
    names: Seq<ToolNames>,
)
    requires
        call.id.0@ == result.call_id.0@,
    ensures
        call_item(call, names).get_str("call_id"@) == Some(call.id.0@),
        output_item(result).get_str("call_id"@) == Some(call.id.0@),
{
    reveal_strlit("type");
    reveal_strlit("id");
    reveal_strlit("call_id");
    assert("type"@.len() != "call_id"@.len());
    let asked = call_item(call, names)->Object_0;
    let answered = output_item(result)->Object_0;
    lemma_second_field(asked.drop_first(), "call_id"@);
    lemma_second_field(answered.drop_first(), "call_id"@);
}

/// A compacted history goes into the next request unchanged: it follows the
/// instructions, if there are any, and precedes the messages.
pub proof fn law_compacted_history_is_replayed(request: ProviderRequest)
    requires
        request.previous_response_id is None,
    ensures
        ({
            let before: int = if system_text(request) is Some {
                1
            } else {
                0
            };
            let history = items_view(request.compacted_prefix@);
            &&& before + history.len() <= request_input(request).len()
            &&& request_input(request).subrange(before, before + history.len()) == history
        }),
{
    let before: int = if system_text(request) is Some {
        1
    } else {
        0
    };
    let history = items_view(request.compacted_prefix@);
    assert(request_input(request).subrange(before, before + history.len()) =~= history);
}

/// A request that continues an earlier response sends the new messages and
/// nothing else.
pub proof fn law_continuation_sends_new_messages(request: ProviderRequest)
    requires
        request.previous_response_id is Some,
        request.new_messages_start <= request.messages@.len(),
    ensures
        request_input(request) == input_items(
            request.messages@.skip(request.new_messages_start as int),
            tool_names(request.tools@, request.model.provider_kind),
        ),
{
    assert(request.messages@.skip(request.new_messages_start as int) =~= request.messages@.subrange(
        request.new_messages_start as int,
        request.messages@.len() as int,
    ));
}

// ---------------------------------------------------------------------------
// The Messages API

/// A tool result says whether the tool failed, and what it gave or why it failed.
pub proof fn law_messages_result_tells_failure(result: ToolResultMessage)
    ensures
        ({
            let block = tool_result_value(result);
            &&& block.get_str("type"@) == Some("tool_result"@)
            &&& result.error is None ==> block.get("is_error"@) == Some(JsonView::Bool(false))
            &&& result.error is Some ==> block.get("is_error"@) == Some(JsonView::Bool(true))
        }),
        ({
            let said = tool_result_value(result).get_str("content"@);
            match (result.content, result.error) {
                (ToolResult::Empty, None) => said == Some(Seq::<char>::empty()),
                (ToolResult::Text { text }, None) => said == Some(text@),
                (ToolResult::Json { value }, None) => said == Some(json_text(value@)),
                (ToolResult::Empty, Some(error)) => said == Some(error.message@),
                (ToolResult::Text { text }, Some(error)) => said == Some(
                    text@ + "\n\nerror: "@ + error.message@,
                ),
                (ToolResult::Json { value }, Some(error)) => said == Some(
                    json_text(
                        JsonView::Object(
                            seq![("result"@, value@), ("error"@, JsonView::Text(error.message@))],
                        ),
                    ),
                ),
            }
        }),
{
    reveal_strlit("type");
    reveal_strlit("tool_use_id");
    reveal_strlit("content");
    reveal_strlit("is_error");
    assert("type"@.len() == 4);
    assert("tool_use_id"@.len() == 11);
    assert("content"@.len() == 7);
    assert("is_error"@.len() == 8);
    let block = tool_result_value(result);
    lemma_member(block, 0, "type"@);
    lemma_member(block, 2, "content"@);
    lemma_member(block, 3, "is_error"@);
}

/// What is known of a block that carries a file.
pub open spec fn carries(block: JsonView, kind: Seq<char>, media: Seq<char>, data: Seq<u8>) -> bool {
    &&& block.get_str("type"@) == Some(kind)
    &&& block.get_in_str("source"@, "type"@) == Some("base64"@)
    &&& block.get_in_str("source"@, "media_type"@) == Some(media)
    &&& block.get_in_str("source"@, "data"@) == Some(base64_text(data))
}

/// What the user said goes to the Messages API as it is: texts as texts, images as
/// images and documents as documents, with their types and contents.
pub proof fn law_messages_user_part_is_kept(part: UserPart)
    ensures
        ({
            let block = user_part_value(part);
            match part {
                UserPart::Text { text } => block.get_str("type"@) == Some("text"@)
                    && block.get_str("text"@) == Some(text@) && block.get("cache_control"@) is None,
                UserPart::Image { media_type, data } => carries(
                    block,
                    "image"@,
                    media_type@,
                    data@,
                ),
                UserPart::Document { media_type, data } => carries(
                    block,
                    "document"@,
                    media_type@,
                    data@,
                ),
            }
        }),
{
    reveal_strlit("type");
    reveal_strlit("text");
    reveal_strlit("source");
    reveal_strlit("media_type");
    reveal_strlit("data");
    reveal_strlit("cache_control");
    assert("type"@.len() == 4);
    assert("text"@.len() == 4);
    assert("source"@.len() == 6);
    assert("media_type"@.len() == 10);
    assert("data"@.len() == 4);
    assert("cache_control"@.len() == 13);
    assert("type"@[1] != "text"@[1]);
    assert("type"@[0] != "data"@[0]);
    assert("text"@[0] != "data"@[0]);
    let block = user_part_value(part);
    lemma_member(block, 0, "type"@);
    match part {
        UserPart::Text { text } => {
            lemma_member(block, 1, "text"@);
            law_missing_member_is_not_read(block->Object_0, "cache_control"@);
        },
        _ => {
            lemma_member(block, 1, "source"@);
            let source = block.get("source"@)->0;
            lemma_member(source, 0, "type"@);
            lemma_member(source, 1, "media_type"@);
            lemma_member(source, 2, "data"@);
        },
    }
}

/// What the assistant said goes to the Messages API as it is: texts, thinking with
/// its signature, and tool calls with their arguments. Only an empty text is left
/// out.
pub proof fn law_messages_assistant_part_is_kept(part: AssistantPart, names: Seq<ToolNames>)
    ensures
        ({
            let block = assistant_part_value(part, names);
            match part {
                AssistantPart::Text { text } => if text@.len() == 0 {
                    block is None
                } else {
                    block is Some && block->0.get_str("type"@) == Some("text"@)
                        && block->0.get_str("text"@) == Some(text@)
                },
                AssistantPart::Thinking(thought) => {
                    &&& block is Some
                    &&& block->0.get_str("type"@) == Some("thinking"@)
                    &&& block->0.get_str("thinking"@) == Some(thought.text@)
                    &&& match thought.signature {
                        Some(signature) => block->0.get_str("signature"@) == Some(signature@),
                        None => block->0.get("signature"@) is None,
                    }
                },
                AssistantPart::ToolCall(call) => {
                    &&& block is Some
                    &&& block->0.get_str("type"@) == Some("tool_use"@)
                    &&& block->0.get_str("name"@) == Some(provider_tool_name(call.name.0@, names))
                    &&& block->0.get("input"@) == Some(call.arguments@)
                    &&& 0 < call.id.0@.len() <= 64 && is_clean_id(call.id.0@)
                        ==> block->0.get_str("id"@) == Some(call.id.0@)
                },
            }
        }),
{
    reveal_strlit("type");
    reveal_strlit("text");
    reveal_strlit("thinking");
    reveal_strlit("signature");
    reveal_strlit("id");
    reveal_strlit("name");
    reveal_strlit("input");
    assert("type"@.len() == 4);
    assert("text"@.len() == 4);
    assert("thinking"@.len() == 8);
    assert("signature"@.len() == 9);
    assert("id"@.len() == 2);
    assert("name"@.len() == 4);
    assert("input"@.len() == 5);
    assert("type"@[1] != "text"@[1]);
    assert("type"@[0] != "name"@[0]);
    assert("text"@[0] != "name"@[0]);
    match assistant_part_value(part, names) {
        Some(block) => {
            lemma_member(block, 0, "type"@);
            match part {
                AssistantPart::Text { text } => {
                    lemma_member(block, 1, "text"@);
                },
                AssistantPart::Thinking(thought) => {
                    lemma_member(block, 1, "thinking"@);
                    if thought.signature is Some {
                        lemma_member(block, 2, "signature"@);
                    } else {
                        law_missing_member_is_not_read(
                            block->Object_0,
                            "signature"@,
                        );
                    }
                },
                AssistantPart::ToolCall(call) => {
                    lemma_member(block, 1, "id"@);
                    lemma_member(block, 2, "name"@);
                    lemma_member(block, 3, "input"@);
                    if 0 < call.id.0@.len() <= 64 && is_clean_id(call.id.0@) {
                        law_clean_short_id_is_kept(call.id.0@, 64, "tool"@);
                    }
                },
            }
        },
        None => {},
    }
}

/// A message of that role with that content.
pub open spec fn spoken(message: JsonView, role: Seq<char>, content: Seq<JsonView>) -> bool {
    message.get_str("role"@) == Some(role) && message.get_array("content"@) == Some(content)
}

proof fn lemma_spoken(role: Seq<char>, content: Seq<JsonView>)
    ensures
        spoken(role_message(role, content), role, content),
{
    reveal_strlit("role");
    reveal_strlit("content");
    assert("role"@.len() == 4);
    assert("content"@.len() == 7);
    let message = role_message(role, content);
    lemma_member(message, 0, "role"@);
    lemma_member(message, 1, "content"@);
}

/// The messages that the Messages API is sent of a conversation.
pub open spec fn sent(messages: Seq<Message>, names: Seq<ToolNames>) -> Seq<JsonView> {
    flushed(encoded_messages(messages, names))
}

/// What the user says next is sent next, as the user's, with all its parts; what
/// was sent before it stays as it is.
pub proof fn law_messages_user_is_sent_next(
    messages: Seq<Message>,
    user: UserMessage,
    names: Seq<ToolNames>,
)
    ensures
        ({
            let after = sent(messages.push(Message::User(user)), names);
            &&& after.len() == sent(messages, names).len() + 1
            &&& after.drop_last() == sent(messages, names)
            &&& after.last().get_str("role"@) == Some("user"@)
            &&& after.last().get_array("content"@) is Some
            &&& after.last().get_array("content"@)->0.len() == user.parts@.len()
            &&& forall|i: int|
                0 <= i < user.parts@.len() ==> after.last().get_array("content"@)->0[i]
                    == user_part_value(#[trigger] user.parts@[i])
        }),
{
    let all = messages.push(Message::User(user));
    assert(all.drop_last() =~= messages);
    lemma_spoken("user"@, user_parts_value(user.parts@));
    assert(sent(all, names).drop_last() =~= sent(messages, names));
}

/// What the assistant said next is sent next, as the assistant's; where nothing of
/// it can be sent, nothing is.
pub proof fn law_messages_assistant_is_sent_next(
    messages: Seq<Message>,
    assistant: AssistantMessage,
    names: Seq<ToolNames>,
)
    ensures
        ({
            let after = sent(messages.push(Message::Assistant(assistant)), names);
            let content = assistant_parts_value(assistant.parts@, names);
            if content.len() == 0 {
                after == sent(messages, names)
            } else {
                &&& after.len() == sent(messages, names).len() + 1
                &&& after.drop_last() == sent(messages, names)
                &&& spoken(after.last(), "assistant"@, content)
            }
        }),
{
    let all = messages.push(Message::Assistant(assistant));
    let content = assistant_parts_value(assistant.parts@, names);
    assert(all.drop_last() =~= messages);
    lemma_spoken("assistant"@, content);
    if content.len() > 0 {
        assert(sent(all, names).drop_last() =~= sent(messages, names));
    }
}

/// Of what the assistant said, all parts are sent in their order but empty texts.
pub proof fn law_messages_assistant_parts_are_sent(
    parts: Seq<AssistantPart>,
    part: AssistantPart,
    names: Seq<ToolNames>,
)
    ensures
        assistant_parts_value(Seq::empty(), names).len() == 0,
        ({
            let before = assistant_parts_value(parts, names);
            let after = assistant_parts_value(parts.push(part), names);
            let empty = part matches AssistantPart::Text { text } && text@.len() == 0;
            if empty {
                after == before
            } else {
                after == before.push(assistant_part_value(part, names)->0)
            }
        }),
{
    assert(parts.push(part).drop_last() =~= parts);
}

/// A tool result is sent next, as the user's: with the results just before it in
/// one message, and otherwise in a message of its own.
pub proof fn law_messages_results_are_sent_together(
    messages: Seq<Message>,
    tool: ToolResultMessage,
    names: Seq<ToolNames>,
)
    ensures
        ({
            let before = sent(messages, names);
            let after = sent(messages.push(Message::Tool(tool)), names);
            let block = tool_result_value(tool);
            if messages.len() > 0 && messages.last() is Tool {
                &&& after.len() == before.len()
                &&& before.len() > 0
                &&& after.drop_last() == before.drop_last()
                &&& before.last().get_array("content"@) is Some
                &&& spoken(
                    after.last(),
                    "user"@,
                    before.last().get_array("content"@)->0.push(block),
                )
            } else if messages.len() > 0 && messages.last() is System {
                spoken(after.last(), "user"@, after.last().get_array("content"@)->0)
                    && after.last().get_array("content"@)->0.last() == block
            } else {
                &&& after.len() == before.len() + 1
                &&& after.drop_last() == before
                &&& spoken(after.last(), "user"@, seq![block])
            }
        }),
{
    let all = messages.push(Message::Tool(tool));
    assert(all.drop_last() =~= messages);
    let earlier = encoded_messages(messages, names);
    let block = tool_result_value(tool);
    lemma_spoken("user"@, earlier.waiting.push(block));
    lemma_spoken("user"@, earlier.waiting);
    assert(sent(all, names).drop_last() =~= earlier.sent);
    if messages.len() > 0 && messages.last() is Tool {
        assert(sent(messages, names).drop_last() =~= earlier.sent);
    } else if messages.len() > 0 && messages.last() is System {
    } else {
        assert(earlier.waiting =~= Seq::empty());
        assert(earlier.waiting.push(block) =~= seq![block]);
    }
}

/// What the system says is not sent among the messages.
pub proof fn law_messages_system_is_sent_apart(
    messages: Seq<Message>,
    system: SystemMessage,
    names: Seq<ToolNames>,
)
    ensures
        sent(messages.push(Message::System(system)), names) == sent(messages, names),
        sent(Seq::empty(), names).len() == 0,
{
    assert(messages.push(Message::System(system)).drop_last() =~= messages);
}

proof fn lemma_one_field(key: Seq<char>, value: JsonView, other: Seq<char>)
    ensures
        field_value(seq![(key, value)], other) == if other == key {
            Some(value)
        } else {
            None
        },
{
    law_optional_member_is_read(key, Some(value), other);
    assert(optional_field(key, Some(value)) =~= seq![(key, value)]);
}

/// A request to the Messages API names the model, how many tokens it may give, the
/// temperature where one is set, the messages, and whether to stream; it brings along
/// what the system says and the tools, where there are any.
pub proof fn law_messages_request_says_what_is_asked(
    request: ProviderRequest,
    temperature: Option<JsonNumber>,
    stream: bool,
)
    ensures
        ({
            let body = request_value(request, temperature, stream);
            &&& body.get("model"@) == Some(JsonView::Text(request.model.model@))
            &&& body.get("max_tokens"@) == Some(
                JsonView::Number(
                    NumberView::Unsigned(
                        if request.model.max_output_tokens is Some {
                            request.model.max_output_tokens->0 as u64
                        } else {
                            4096
                        },
                    ),
                ),
            )
            &&& body.get("temperature"@) == if temperature is Some {
                Some(JsonView::Number(temperature->0@))
            } else {
                None
            }
            &&& body.get("messages"@) == Some(JsonView::Array(messages_value(request)))
            &&& body.get("stream"@) == if stream {
                Some(JsonView::Bool(true))
            } else {
                None
            }
            &&& body.get("system"@) == system_value(request)
            &&& request.tools@.len() == 0 ==> body.get("tools"@) is None
            &&& request.tools@.len() > 0 ==> body.get_array("tools"@) == Some(tools_value(request))
            &&& request.model.reasoning is None ==> body.get("thinking"@) is None && body.get(
                "output_config"@,
            ) is None
        }),
{
    lemma_messages_request_members(request, temperature, stream, "model"@);
    lemma_messages_request_members(request, temperature, stream, "max_tokens"@);
    lemma_messages_request_members(request, temperature, stream, "temperature"@);
    lemma_messages_request_members(request, temperature, stream, "messages"@);
    lemma_messages_request_members(request, temperature, stream, "stream"@);
    lemma_messages_request_members(request, temperature, stream, "system"@);
    lemma_messages_request_members(request, temperature, stream, "tools"@);
    lemma_messages_request_members(request, temperature, stream, "thinking"@);
    lemma_messages_request_members(request, temperature, stream, "output_config"@);
    reveal_strlit("model");
    reveal_strlit("max_tokens");
    reveal_strlit("temperature");
    reveal_strlit("messages");
    reveal_strlit("stream");
    reveal_strlit("system");
    reveal_strlit("tools");
    reveal_strlit("thinking");
    reveal_strlit("output_config");
    assert("model"@.len() == 5);
    assert("max_tokens"@.len() == 10);
    assert("temperature"@.len() == 11);
    assert("messages"@.len() == 8);
    assert("stream"@.len() == 6);
    assert("system"@.len() == 6);
    assert("tools"@.len() == 5);
    assert("thinking"@.len() == 8);
    assert("output_config"@.len() == 13);
    assert("model"@[0] != "tools"@[0]);
    assert("messages"@[0] != "thinking"@[0]);
    assert("stream"@[1] != "system"@[1]);
    lemma_thinking_members(request, "model"@);
    lemma_thinking_members(request, "max_tokens"@);
    lemma_thinking_members(request, "temperature"@);
    lemma_thinking_members(request, "messages"@);
    lemma_thinking_members(request, "stream"@);
    lemma_thinking_members(request, "system"@);
    lemma_thinking_members(request, "tools"@);
}

proof fn lemma_thinking_members(request: ProviderRequest, key: Seq<char>)
    requires
        key != "thinking"@,
        key != "output_config"@,
    ensures
        field_value(
            thinking_fields(
                request.model.model@,
                request.model.reasoning,
                request.model.max_output_tokens,
            ),
            key,
        ) is None,
{
    law_missing_member_is_not_read(
        thinking_fields(
            request.model.model@,
            request.model.reasoning,
            request.model.max_output_tokens,
        ),
        key,
    );
}

proof fn lemma_messages_request_members(
    request: ProviderRequest,
    temperature: Option<JsonNumber>,
    stream: bool,
    key: Seq<char>,
)
    ensures
        ({
            let body = request_value(request, temperature, stream);
            let thinking = thinking_fields(
                request.model.model@,
                request.model.reasoning,
                request.model.max_output_tokens,
            );
            body.get(key) == if key == "model"@ {
                Some(text_value(request.model.model@))
            } else if key == "max_tokens"@ {
                Some(crate::anthropic_codec::max_tokens_value(request.model.max_output_tokens))
            } else if key == "temperature"@ && temperature is Some {
                crate::anthropic_codec::temperature_value(temperature)
            } else if key == "messages"@ {
                Some(JsonView::Array(messages_value(request)))
            } else if key == "stream"@ && stream {
                Some(JsonView::Bool(true))
            } else if key == "system"@ && system_value(request) is Some {
                system_value(request)
            } else if key == "tools"@ && request.tools@.len() > 0 {
                Some(JsonView::Array(tools_value(request)))
            } else {
                field_value(thinking, key)
            }
        }),
{
    reveal_strlit("model");
    reveal_strlit("max_tokens");
    reveal_strlit("temperature");
    reveal_strlit("messages");
    reveal_strlit("stream");
    reveal_strlit("system");
    reveal_strlit("tools");
    assert("model"@.len() == 5);
    assert("max_tokens"@.len() == 10);
    assert("temperature"@.len() == 11);
    assert("messages"@.len() == 8);
    assert("stream"@.len() == 6);
    assert("system"@.len() == 6);
    assert("tools"@.len() == 5);
    assert("model"@[0] != "tools"@[0]);
    assert("stream"@[1] != "system"@[1]);
    let body = request_value(request, temperature, stream)->Object_0;
    let first = seq![
        ("model"@, text_value(request.model.model@)),
        (
            "max_tokens"@,
            crate::anthropic_codec::max_tokens_value(request.model.max_output_tokens),
        ),
    ];
    let second = optional_field(
        "temperature"@,
        crate::anthropic_codec::temperature_value(temperature),
    );
    let third = seq![("messages"@, JsonView::Array(messages_value(request)))];
    let fourth = optional_field(
        "stream"@,
        if stream {
            Some(JsonView::Bool(true))
        } else {
            None
        },
    );
    let fifth = optional_field("system"@, system_value(request));
    let sixth = optional_field(
        "tools"@,
        if request.tools@.len() > 0 {
            Some(JsonView::Array(tools_value(request)))
        } else {
            None
        },
    );
    let last = thinking_fields(
        request.model.model@,
        request.model.reasoning,
        request.model.max_output_tokens,
    );
    lemma_one_field("model"@, first[0].1, key);
    lemma_one_field("max_tokens"@, first[1].1, key);
    assert(first =~= seq![first[0]] + seq![first[1]]);
    lemma_fields_join(seq![first[0]], seq![first[1]], key);
    law_optional_member_is_read(
        "temperature"@,
        crate::anthropic_codec::temperature_value(temperature),
        key,
    );
    lemma_one_field("messages"@, third[0].1, key);
    law_optional_member_is_read(
        "stream"@,
        if stream {
            Some(JsonView::Bool(true))
        } else {
            None
        },
        key,
    );
    law_optional_member_is_read("system"@, system_value(request), key);
    law_optional_member_is_read(
        "tools"@,
        if request.tools@.len() > 0 {
            Some(JsonView::Array(tools_value(request)))
        } else {
            None
        },
        key,
    );
    lemma_fields_join(first, second, key);
    lemma_fields_join(first + second, third, key);
    lemma_fields_join(first + second + third, fourth, key);
    lemma_fields_join(first + second + third + fourth, fifth, key);
    lemma_fields_join(first + second + third + fourth + fifth, sixth, key);
    lemma_fields_join(first + second + third + fourth + fifth + sixth, last, key);
}

/// Where no place in the conversation is to be cached, the messages go out as they
/// are.
pub proof fn law_messages_are_sent_as_they_are(request: ProviderRequest)
    requires
        !request.prompt.cache_breakpoints.after_user_prompt,
    ensures
        messages_value(request) == sent(
            request.messages@,
            tool_names(request.tools@, request.model.provider_kind),
        ),
{
}

/// The block is marked as the end of what is worth caching.
pub open spec fn is_marked(block: JsonView) -> bool {
    block.get_in_str("cache_control"@, "type"@) == Some("ephemeral"@)
}

proof fn lemma_marked(fields: Seq<(Seq<char>, JsonView)>)
    ensures
        is_marked(JsonView::Object(with_field(fields, "cache_control"@, cache_control()))),
        cache_control().get_str("type"@) == Some("ephemeral"@),
{
    law_set_member_is_read(fields, "cache_control"@, cache_control(), "cache_control"@);
    lemma_member(cache_control(), 0, "type"@);
}

/// Marking a message marks the last block of its content, and changes nothing else of
/// it.
pub proof fn law_marked_message_is_otherwise_unchanged(
    role: Seq<char>,
    content: Seq<JsonView>,
    key: Seq<char>,
)
    requires
        content.len() > 0,
        content.last() is Object,
    ensures
        ({
            let marked = pinned_message(role_message(role, content));
            let after = marked.get_array("content"@);
            &&& marked.get_str("role"@) == Some(role)
            &&& after is Some && after->0.len() == content.len()
            &&& after->0.drop_last() == content.drop_last()
            &&& is_marked(after->0.last())
            &&& key != "cache_control"@ ==> after->0.last().get(key) == content.last().get(key)
        }),
{
    reveal_strlit("role");
    reveal_strlit("content");
    assert("role"@.len() == 4);
    assert("content"@.len() == 7);
    let message = role_message(role, content);
    lemma_spoken(role, content);
    let fields = message->Object_0;
    let pinned = JsonView::Array(pinned_content(content));
    law_set_member_is_read(fields, "content"@, pinned, "role"@);
    lemma_marked(content.last()->Object_0);
    law_set_member_is_read(
        content.last()->Object_0,
        "cache_control"@,
        cache_control(),
        key,
    );
    assert(pinned_content(content).drop_last() =~= content.drop_last());
}

/// Where the conversation is to be cached, the user's last message is marked, and no
/// other.
pub proof fn law_last_user_message_is_marked(messages: Seq<JsonView>, at: int)
    requires
        0 <= at < messages.len(),
        messages[at].get_str("role"@) == Some("user"@),
        forall|i: int|
            at < i < messages.len() ==> (#[trigger] messages[i]).get_str("role"@) != Some("user"@),
    ensures
        pinned_messages(messages) == messages.update(at, pinned_message(messages[at])),
    decreases messages.len(),
{
    if at == messages.len() - 1 {
        assert(pinned_messages(messages) =~= messages.update(at, pinned_message(messages[at])));
    } else {
        assert(messages.last() == messages[messages.len() - 1]);
        let before = messages.drop_last();
        assert forall|i: int| at < i < before.len() implies (#[trigger] before[i]).get_str(
            "role"@,
        ) != Some("user"@) by {
            assert(messages[i].get_str("role"@) != Some("user"@));
        }
        law_last_user_message_is_marked(before, at);
        assert(pinned_messages(messages) =~= messages.update(at, pinned_message(messages[at])));
    }
}

/// A tool is offered under the name it goes by at the provider, with its description
/// and what its arguments have to look like; where tools are to be cached, the last
/// one is marked, and no other.
pub proof fn law_messages_tool_is_offered(request: ProviderRequest, at: int)
    requires
        0 <= at < request.tools@.len(),
    ensures
        ({
            let names = tool_names(request.tools@, request.model.provider_kind);
            let offered = tools_value(request);
            let spec = request.tools@[at];
            &&& offered.len() == request.tools@.len()
            &&& offered[at].get_str("name"@) == Some(provider_tool_name(spec.name.0@, names))
            &&& offered[at].get_str("description"@) == Some(spec.description@)
            &&& offered[at].get("input_schema"@) == Some(spec.input_schema@)
            &&& is_marked(offered[at]) == (request.prompt.cache_breakpoints.after_tools && at
                == request.tools@.len() - 1)
        }),
{
    reveal_strlit("name");
    reveal_strlit("description");
    reveal_strlit("input_schema");
    reveal_strlit("cache_control");
    assert("name"@.len() == 4);
    assert("description"@.len() == 11);
    assert("input_schema"@.len() == 12);
    assert("cache_control"@.len() == 13);
    let offered = tools_value(request)[at];
    lemma_member(offered, 0, "name"@);
    lemma_member(offered, 1, "description"@);
    lemma_member(offered, 2, "input_schema"@);
    lemma_marked(Seq::empty());
    if request.prompt.cache_breakpoints.after_tools && at == request.tools@.len() - 1 {
        lemma_member(offered, 3, "cache_control"@);
    } else {
        law_missing_member_is_not_read(offered->Object_0, "cache_control"@);
    }
}

/// A model that adapts its thinking is told how much effort to make; extra effort is
/// asked of the one model that knows it. Any other model is given a budget of tokens
/// to think with: by the effort, and less than it may give in all. One that may give
/// no more than 1024 tokens, or has no limit, is given none.
pub proof fn law_thinking_is_asked_for(request: ProviderRequest, effort: ReasoningEffort)
    requires
        request.model.reasoning == Some(effort),
    ensures
        ({
            let body = request_value(request, None, true);
            let model = request.model.model@;
            let most = request.model.max_output_tokens;
            let newest = crate::anthropic_codec::names_model(model, "claude_opus_4_7"@);
            let wanted: u32 = match effort {
                ReasoningEffort::Low => 1024,
                ReasoningEffort::Medium => 4096,
                ReasoningEffort::High => 8192,
                ReasoningEffort::Xhigh => 8192,
            };
            if is_adaptive_model(model) {
                &&& body.get_in_str("thinking"@, "type"@) == Some("adaptive"@)
                &&& body.get_in_str("thinking"@, "display"@) == Some("summarized"@)
                &&& body.get_in_str("output_config"@, "effort"@) == Some(
                    match effort {
                        ReasoningEffort::Low => "low"@,
                        ReasoningEffort::Medium => "medium"@,
                        ReasoningEffort::High => "high"@,
                        ReasoningEffort::Xhigh => if newest {
                            "xhigh"@
                        } else {
                            "high"@
                        },
                    },
                )
            } else if most is Some && most->0 > 1024 {
                &&& body.get_in_str("thinking"@, "type"@) == Some("enabled"@)
                &&& body.get("output_config"@) is None
                &&& body.get_in("thinking"@, "budget_tokens"@) == Some(
                    JsonView::Number(
                        NumberView::Unsigned(
                            if wanted < most->0 {
                                wanted as u64
                            } else {
                                (most->0 - 1) as u64
                            },
                        ),
                    ),
                )
            } else {
                body.get("thinking"@) is None && body.get("output_config"@) is None
            }
        }),
{
    reveal_strlit("thinking");
    reveal_strlit("output_config");
    reveal_strlit("model");
    reveal_strlit("max_tokens");
    reveal_strlit("temperature");
    reveal_strlit("messages");
    reveal_strlit("stream");
    reveal_strlit("system");
    reveal_strlit("tools");
    assert("thinking"@.len() == 8);
    assert("output_config"@.len() == 13);
    assert("model"@.len() == 5);
    assert("max_tokens"@.len() == 10);
    assert("temperature"@.len() == 11);
    assert("messages"@.len() == 8);
    assert("stream"@.len() == 6);
    assert("system"@.len() == 6);
    assert("tools"@.len() == 5);
    assert("thinking"@[0] != "messages"@[0]);
    assert("model"@[0] != "tools"@[0]);
    assert("stream"@[1] != "system"@[1]);
    lemma_messages_request_members(request, None, true, "thinking"@);
    lemma_messages_request_members(request, None, true, "output_config"@);
    let fields = thinking_fields(
        request.model.model@,
        request.model.reasoning,
        request.model.max_output_tokens,
    );
    let object = JsonView::Object(fields);
    reveal_strlit("type");
    reveal_strlit("display");
    reveal_strlit("effort");
    reveal_strlit("budget_tokens");
    assert("type"@.len() == 4);
    assert("display"@.len() == 7);
    assert("effort"@.len() == 6);
    assert("budget_tokens"@.len() == 13);
    if is_adaptive_model(request.model.model@) {
        lemma_member(object, 0, "output_config"@);
        lemma_member(object, 1, "thinking"@);
        lemma_member(fields[0].1, 0, "effort"@);
        lemma_member(fields[1].1, 0, "type"@);
        lemma_member(fields[1].1, 1, "display"@);
    } else if request.model.max_output_tokens is Some && request.model.max_output_tokens->0
        > 1024 {
        lemma_member(object, 0, "thinking"@);
        law_missing_member_is_not_read(fields, "output_config"@);
        lemma_member(fields[0].1, 0, "type"@);
        lemma_member(fields[0].1, 1, "budget_tokens"@);
    } else {
        law_missing_member_is_not_read(fields, "output_config"@);
        law_missing_member_is_not_read(fields, "thinking"@);
    }
}

/// What the system says in a further message comes last, after a blank line; one that
/// says nothing is left out.
pub proof fn law_system_messages_are_joined(messages: Seq<Message>, system: SystemMessage)
    ensures
        system_texts(Seq::empty()).len() == 0,
        system_texts(messages.push(Message::System(system))) == if trimmed(system.text@).len()
            > 0 {
            system_texts(messages).push(trimmed(system.text@))
        } else {
            system_texts(messages)
        },
{
    assert(messages.push(Message::System(system)).drop_last() =~= messages);
}

/// What others say is not what the system says.
pub proof fn law_system_text_is_the_systems_alone(messages: Seq<Message>, other: Message)
    requires
        !(other is System),
    ensures
        system_texts(messages.push(other)) == system_texts(messages),
{
    assert(messages.push(other).drop_last() =~= messages);
}

/// The prompt comes before what the system says in messages, and a blank line between
/// any two; there is no text exactly where nothing is said.
pub proof fn law_prompt_comes_first(request: ProviderRequest)
    ensures
        ({
            let prompt = trimmed(request.prompt.rendered_prefix@);
            let said = system_texts(request.messages@);
            &&& prompt.len() == 0 && said.len() == 0 ==> system_text(request) is None
            &&& prompt.len() > 0 && said.len() == 0 ==> system_text(request) == Some(prompt)
            &&& prompt.len() == 0 && said.len() > 0 ==> system_text(request) == Some(
                joined(said, "\n\n"@),
            )
            &&& prompt.len() > 0 && said.len() == 1 ==> system_text(request) == Some(
                prompt + "\n\n"@ + said[0],
            )
            &&& prompt.len() > 0 ==> system_sections(request) == seq![prompt] + said
        }),
{
    let prompt = trimmed(request.prompt.rendered_prefix@);
    let said = system_texts(request.messages@);
    if prompt.len() > 0 {
        if said.len() == 0 {
            assert(seq![prompt] + said =~= seq![prompt]);
        } else if said.len() == 1 {
            let both = seq![prompt] + said;
            assert(both.drop_last() =~= seq![prompt]);
            assert(both.last() == said[0]);
            assert(joined(seq![prompt], "\n\n"@) == prompt);
        }
    }
}

/// Without places to cache, what the system says goes to the Messages API as one
/// text.
pub proof fn law_messages_system_is_one_text(request: ProviderRequest)
    requires
        !request.prompt.cache_breakpoints.after_system,
        !request.prompt.cache_breakpoints.after_skills,
    ensures
        system_value(request) == if system_text(request) is Some {
            Some(JsonView::Text(system_text(request)->0))
        } else {
            None
        },
{
}

proof fn lemma_text_block(text: Seq<char>, marked: bool)
    ensures
        text_block_value(text, marked).get_str("type"@) == Some("text"@),
        text_block_value(text, marked).get_str("text"@) == Some(text),
        is_marked(text_block_value(text, marked)) == marked,
{
    reveal_strlit("type");
    reveal_strlit("text");
    reveal_strlit("cache_control");
    assert("type"@.len() == 4);
    assert("text"@.len() == 4);
    assert("cache_control"@.len() == 13);
    assert("type"@[1] != "text"@[1]);
    let block = text_block_value(text, marked);
    lemma_member(block, 0, "type"@);
    lemma_member(block, 1, "text"@);
    lemma_marked(Seq::empty());
    if marked {
        lemma_member(block, 2, "cache_control"@);
    } else {
        law_missing_member_is_not_read(block->Object_0, "cache_control"@);
    }
}

/// With places to cache, what the system says goes to the Messages API in blocks: the
/// system's segments, those of the skills, and the rest. The first two are marked
/// where they are worth caching, and the rest never is.
pub proof fn law_messages_system_blocks_are_marked(request: ProviderRequest)
    ensures
        ({
            let segments = request.prompt.ordered_segments@;
            let breakpoints = request.prompt.cache_breakpoints;
            let first = rendered_segments(segments.subrange(0, system_end(request)));
            let second = rendered_segments(
                segments.subrange(system_end(request), skill_end(request)),
            );
            let rest = system_tail(request);
            let blocks = system_blocks(request);
            let at: int = if first is Some {
                1
            } else {
                0
            };
            let end: int = if second is Some {
                at + 1
            } else {
                at
            };
            &&& first is Some ==> blocks.len() > 0 && blocks[0].get_str("text"@) == Some(first->0)
                && is_marked(blocks[0]) == breakpoints.after_system
            &&& second is Some ==> blocks.len() > at && blocks[at].get_str("text"@) == Some(
                second->0,
            ) && is_marked(blocks[at]) == breakpoints.after_skills
            &&& rest is Some ==> blocks.len() == end + 1 && blocks[end].get_str("text"@) == Some(
                rest->0,
            ) && !is_marked(blocks[end])
            &&& rest is None ==> blocks.len() == end
            &&& (breakpoints.after_system || breakpoints.after_skills) && blocks.len() > 0
                ==> system_value(request) == Some(JsonView::Array(blocks))
        }),
        0 <= system_end(request) <= skill_end(request) <= request.prompt.ordered_segments@.len(),
        request.prompt.system_segment_count <= request.prompt.ordered_segments@.len()
            ==> system_end(request) == request.prompt.system_segment_count,
        request.prompt.system_segment_count + request.prompt.skill_segment_count
            <= request.prompt.ordered_segments@.len() ==> skill_end(request)
            == request.prompt.system_segment_count + request.prompt.skill_segment_count,
{
    let segments = request.prompt.ordered_segments@;
    let breakpoints = request.prompt.cache_breakpoints;
    let first = rendered_segments(segments.subrange(0, system_end(request)));
    let second = rendered_segments(segments.subrange(system_end(request), skill_end(request)));
    if first is Some {
        lemma_text_block(first->0, breakpoints.after_system);
    }
    if second is Some {
        lemma_text_block(second->0, breakpoints.after_skills);
    }
    if system_tail(request) is Some {
        lemma_text_block(system_tail(request)->0, false);
    }
}

// ---------------------------------------------------------------------------
// The Responses API

/// A call goes to the Responses API with its arguments as JSON text: what reads that
/// text back reads the call's arguments, and two calls that go out alike had
/// arguments with the same text.
pub proof fn law_responses_call_keeps_its_arguments(
    call: ToolCall,
    other: ToolCall,
    names: Seq<ToolNames>,
)
    ensures
        call_item(call, names).get_str("arguments"@) == Some(json_text(call.arguments@)),
        json_read(json_text(call.arguments@)) == Ok::<JsonView, Seq<char>>(call.arguments@)
            ==> json_read(call_item(call, names).get_str("arguments"@)->0)
            == Ok::<JsonView, Seq<char>>(call.arguments@),
        call_item(call, names) == call_item(other, names) ==> json_text(call.arguments@)
            == json_text(other.arguments@),
        call_item(call, names).get_str("type"@) == Some("function_call"@),
        call_item(call, names).get_str("status"@) == Some("completed"@),
        call_item(call, names).get_str("name"@) == Some(provider_tool_name(call.name.0@, names)),
{
    reveal_strlit("type");
    reveal_strlit("id");
    reveal_strlit("call_id");
    reveal_strlit("name");
    reveal_strlit("arguments");
    reveal_strlit("status");
    assert("type"@.len() == 4);
    assert("id"@.len() == 2);
    assert("call_id"@.len() == 7);
    assert("name"@.len() == 4);
    assert("arguments"@.len() == 9);
    assert("status"@.len() == 6);
    assert("type"@[0] != "name"@[0]);
    let item = call_item(call, names);
    lemma_member(item, 0, "type"@);
    lemma_member(item, 3, "name"@);
    lemma_member(item, 4, "arguments"@);
    lemma_member(item, 5, "status"@);
    lemma_member(call_item(other, names), 4, "arguments"@);
}

/// A tool's answer goes to the Responses API with what the tool gave, or why it
/// failed.
pub proof fn law_responses_result_tells_what_was_given(result: ToolResultMessage)
    ensures
        ({
            let item = output_item(result);
            let said = item.get_str("output"@);
            &&& item.get_str("type"@) == Some("function_call_output"@)
            &&& match (result.content, result.error) {
                (ToolResult::Empty, None) => said == Some(Seq::<char>::empty()),
                (ToolResult::Text { text }, None) => said == Some(text@),
                (ToolResult::Json { value }, None) => said == Some(json_text(value@)),
                (ToolResult::Empty, Some(error)) => said == Some(error.message@),
                (ToolResult::Text { text }, Some(error)) => said == Some(
                    text@ + "\n\nerror: "@ + error.message@,
                ),
                (ToolResult::Json { value }, Some(error)) => said == Some(
                    json_text(
                        JsonView::Object(
                            seq![("result"@, value@), ("error"@, JsonView::Text(error.message@))],
                        ),
                    ),
                ),
            }
        }),
{
    reveal_strlit("type");
    reveal_strlit("id");
    reveal_strlit("call_id");
    reveal_strlit("output");
    assert("type"@.len() == 4);
    assert("id"@.len() == 2);
    assert("call_id"@.len() == 7);
    assert("output"@.len() == 6);
    let item = output_item(result);
    lemma_member(item, 0, "type"@);
    lemma_member(item, 3, "output"@);
}

/// A part of what the user says goes to the Responses API as it is: texts as texts,
/// images and documents as data with their types.
pub proof fn law_responses_user_part_is_kept(part: UserPart)
    ensures
        ({
            let item = user_part_item(part);
            match part {
                UserPart::Text { text } => item.get_str("type"@) == Some("input_text"@)
                    && item.get_str("text"@) == Some(text@),
                UserPart::Image { media_type, data } => item.get_str("type"@) == Some(
                    "input_image"@,
                ) && item.get_str("image_url"@) == Some(
                    "data:"@ + media_type@ + ";base64,"@ + base64_text(data@),
                ),
                UserPart::Document { media_type, data } => {
                    &&& item.get_str("type"@) == Some("input_file"@)
                    &&& item.get_str("file_data"@) == Some(
                        "data:"@ + media_type@ + ";base64,"@ + base64_text(data@),
                    )
                    &&& item.get_str("filename"@) == Some(
                        if media_type@ == "application/pdf"@ {
                            "upload.pdf"@
                        } else if media_type@ == "text/plain"@ {
                            "upload.txt"@
                        } else {
                            "upload.bin"@
                        },
                    )
                },
            }
        }),
{
    reveal_strlit("type");
    reveal_strlit("text");
    reveal_strlit("image_url");
    reveal_strlit("filename");
    reveal_strlit("file_data");
    assert("type"@.len() == 4);
    assert("text"@.len() == 4);
    assert("image_url"@.len() == 9);
    assert("filename"@.len() == 8);
    assert("file_data"@.len() == 9);
    assert("type"@[1] != "text"@[1]);
    assert("image_url"@[0] != "file_data"@[0]);
    let item = user_part_item(part);
    lemma_member(item, 0, "type"@);
    match part {
        UserPart::Text { .. } => {
            lemma_member(item, 1, "text"@);
        },
        UserPart::Image { .. } => {
            lemma_member(item, 1, "image_url"@);
        },
        UserPart::Document { .. } => {
            lemma_member(item, 1, "filename"@);
            lemma_member(item, 2, "file_data"@);
        },
    }
}

/// What the user says goes to the Responses API as a message of the user: part by
/// part where there is an image or a document among it, and otherwise as one text.
pub proof fn law_responses_user_message_is_kept(user: UserMessage)
    ensures
        ({
            let item = user_item(user);
            let content = item.get_array("content"@);
            &&& item.get_str("type"@) == Some("message"@)
            &&& item.get_str("role"@) == Some("user"@)
            &&& content is Some
            &&& user_has_media(user.parts@) ==> content->0.len() == user.parts@.len()
                && forall|i: int|
                0 <= i < user.parts@.len() ==> content->0[i] == user_part_item(
                    #[trigger] user.parts@[i],
                )
            &&& !user_has_media(user.parts@) ==> content->0.len() == 1 && content->0[0].get_str(
                "type"@,
            ) == Some("input_text"@) && content->0[0].get_str("text"@) == Some(
                joined(user_texts(user.parts@), "\n"@),
            )
        }),
        user_has_media(user.parts@) == exists|i: int|
            0 <= i < user.parts@.len() && !(#[trigger] user.parts@[i] is Text),
{
    reveal_strlit("type");
    reveal_strlit("role");
    reveal_strlit("content");
    reveal_strlit("text");
    assert("type"@.len() == 4);
    assert("role"@.len() == 4);
    assert("content"@.len() == 7);
    assert("text"@.len() == 4);
    assert("type"@[0] != "role"@[0]);
    assert("type"@[1] != "text"@[1]);
    assert("role"@[0] != "text"@[0]);
    let item = user_item(user);
    lemma_member(item, 0, "type"@);
    lemma_member(item, 1, "role"@);
    lemma_member(item, 2, "content"@);
    if !user_has_media(user.parts@) {
        let block = item.get_array("content"@)->0[0];
        lemma_member(block, 0, "type"@);
        lemma_member(block, 1, "text"@);
    }
}

/// Of what the user says in texts, all of them count but empty ones, in their order.
pub proof fn law_user_texts_are_kept(parts: Seq<UserPart>, part: UserPart)
    ensures
        user_texts(Seq::empty()).len() == 0,
        user_texts(parts.push(part)) == match part {
            UserPart::Text { text } => if text@.len() > 0 {
                user_texts(parts).push(text@)
            } else {
                user_texts(parts)
            },
            _ => user_texts(parts),
        },
{
    assert(parts.push(part).drop_last() =~= parts);
}

/// What the assistant said goes to the Responses API as a completed message of the
/// assistant, where it said anything: its texts, line by line.
pub proof fn law_responses_assistant_message_is_kept(assistant: AssistantMessage)
    ensures
        ({
            let texts = crate::codec_common::assistant_texts(assistant.parts@);
            let said = joined(texts, "\n"@);
            let item = assistant_item(assistant);
            &&& item is Some == (said.len() > 0)
            &&& item is Some ==> {
                let content = item->0.get_array("content"@);
                &&& item->0.get_str("type"@) == Some("message"@)
                &&& item->0.get_str("role"@) == Some("assistant"@)
                &&& item->0.get_str("status"@) == Some("completed"@)
                &&& content is Some && content->0.len() == 1
                &&& content->0[0].get_str("type"@) == Some("output_text"@)
                &&& content->0[0].get_str("text"@) == Some(said)
                &&& crate::openai_codec::is_message_item_id(assistant.id.0@)
                    && assistant.id.0@.len() <= 64 && is_clean_id(assistant.id.0@)
                    ==> item->0.get_str("id"@) == Some(assistant.id.0@)
                &&& !crate::openai_codec::is_message_item_id(assistant.id.0@) ==> item->0.get(
                    "id"@,
                ) is None
            }
        }),
{
    reveal_strlit("type");
    reveal_strlit("role");
    reveal_strlit("status");
    reveal_strlit("content");
    reveal_strlit("id");
    reveal_strlit("text");
    reveal_strlit("annotations");
    assert("type"@.len() == 4);
    assert("role"@.len() == 4);
    assert("status"@.len() == 6);
    assert("content"@.len() == 7);
    assert("id"@.len() == 2);
    assert("text"@.len() == 4);
    assert("annotations"@.len() == 11);
    assert("type"@[0] != "role"@[0]);
    assert("type"@[1] != "text"@[1]);
    assert("role"@[0] != "text"@[0]);
    reveal_strlit("msg_");
    if let Some(item) = assistant_item(assistant) {
        lemma_member(item, 0, "type"@);
        lemma_member(item, 1, "role"@);
        lemma_member(item, 2, "status"@);
        lemma_member(item, 3, "content"@);
        let block = item.get_array("content"@)->0[0];
        lemma_member(block, 0, "type"@);
        lemma_member(block, 1, "text"@);
        if crate::openai_codec::is_message_item_id(assistant.id.0@) {
            lemma_member(item, 4, "id"@);
            if assistant.id.0@.len() <= 64 && is_clean_id(assistant.id.0@) {
                law_clean_short_id_is_kept(assistant.id.0@, 64, "msg"@);
            }
        } else {
            law_missing_member_is_not_read(item->Object_0, "id"@);
        }
    }
}

/// Of what the assistant said in texts, all of them count but empty ones, in their
/// order; thinking and calls are no texts.
pub proof fn law_assistant_texts_are_kept(parts: Seq<AssistantPart>, part: AssistantPart)
    ensures
        crate::codec_common::assistant_texts(Seq::empty()).len() == 0,
        crate::codec_common::assistant_texts(parts.push(part)) == match part {
            AssistantPart::Text { text } => if text@.len() > 0 {
                crate::codec_common::assistant_texts(parts).push(text@)
            } else {
                crate::codec_common::assistant_texts(parts)
            },
            _ => crate::codec_common::assistant_texts(parts),
        },
{
    assert(parts.push(part).drop_last() =~= parts);
}

/// Every call that the assistant made goes out, in its order, and nothing else does as
/// a call.
pub proof fn law_responses_calls_are_sent(
    parts: Seq<AssistantPart>,
    part: AssistantPart,
    names: Seq<ToolNames>,
)
    ensures
        call_items(Seq::empty(), names).len() == 0,
        call_items(parts.push(part), names) == match part {
            AssistantPart::ToolCall(call) => call_items(parts, names).push(
                call_item(call, names),
            ),
            _ => call_items(parts, names),
        },
{
    assert(parts.push(part).drop_last() =~= parts);
}

/// A message that is said next goes out next: what the user says as one item, what
/// the assistant said as its text and then its calls, a tool's answer as one item, and
/// what the system says not among these. What went out before stays as it is.
pub proof fn law_responses_messages_are_sent_in_order(
    messages: Seq<Message>,
    message: Message,
    names: Seq<ToolNames>,
)
    ensures
        input_items(Seq::empty(), names).len() == 0,
        input_items(messages.push(message), names) == input_items(messages, names)
            + match message {
            Message::System(_) => Seq::empty(),
            Message::User(user) => seq![user_item(user)],
            Message::Assistant(assistant) => if assistant_item(assistant) is Some {
                seq![assistant_item(assistant)->0] + call_items(assistant.parts@, names)
            } else {
                call_items(assistant.parts@, names)
            },
            Message::Tool(tool) => seq![output_item(tool)],
        },
{
    assert(messages.push(message).drop_last() =~= messages);
    if let Message::Assistant(assistant) = message {
        assert(Seq::<JsonView>::empty() + call_items(assistant.parts@, names)
            =~= call_items(assistant.parts@, names));
    }
}

/// A new conversation begins with what the system says, as the developer's message,
/// and with what an earlier compaction left.
pub proof fn law_responses_input_begins_with_the_system(request: ProviderRequest)
    requires
        request.previous_response_id is None,
        system_text(request) is Some,
    ensures
        ({
            let first = request_input(request)[0];
            let content = first.get_array("content"@);
            &&& request_input(request).len() > 0
            &&& first.get_str("type"@) == Some("message"@)
            &&& first.get_str("role"@) == Some("developer"@)
            &&& content is Some && content->0.len() == 1
            &&& content->0[0].get_str("type"@) == Some("input_text"@)
            &&& content->0[0].get_str("text"@) == Some(system_text(request)->0)
            &&& request_input(request) == seq![first] + items_view(request.compacted_prefix@)
                + input_items(
                request.messages@,
                tool_names(request.tools@, request.model.provider_kind),
            )
        }),
{
    reveal_strlit("type");
    reveal_strlit("role");
    reveal_strlit("content");
    reveal_strlit("text");
    assert("type"@.len() == 4);
    assert("role"@.len() == 4);
    assert("content"@.len() == 7);
    assert("text"@.len() == 4);
    assert("type"@[0] != "role"@[0]);
    assert("type"@[1] != "text"@[1]);
    assert("role"@[0] != "text"@[0]);
    let first = request_input(request)[0];
    lemma_member(first, 0, "type"@);
    lemma_member(first, 1, "role"@);
    lemma_member(first, 2, "content"@);
    let block = first.get_array("content"@)->0[0];
    lemma_member(block, 0, "type"@);
    lemma_member(block, 1, "text"@);
    assert(request_input(request) =~= seq![first] + items_view(request.compacted_prefix@)
        + input_items(
        request.messages@,
        tool_names(request.tools@, request.model.provider_kind),
    ));
}

/// A tool is offered to the Responses API under the name it goes by at the provider,
/// with its description and what its arguments have to look like.
pub proof fn law_responses_tool_is_offered(request: ProviderRequest, at: int)
    requires
        0 <= at < request.tools@.len(),
    ensures
        ({
            let names = tool_names(request.tools@, request.model.provider_kind);
            let item = tool_items(request)[at];
            let spec = request.tools@[at];
            &&& tool_items(request).len() == request.tools@.len()
            &&& item.get_str("type"@) == Some("function"@)
            &&& item.get_str("name"@) == Some(provider_tool_name(spec.name.0@, names))
            &&& item.get_str("description"@) == Some(spec.description@)
            &&& item.get("parameters"@) == Some(spec.input_schema@)
        }),
{
    reveal_strlit("type");
    reveal_strlit("name");
    reveal_strlit("description");
    reveal_strlit("parameters");
    assert("type"@.len() == 4);
    assert("name"@.len() == 4);
    assert("description"@.len() == 11);
    assert("parameters"@.len() == 10);
    assert("type"@[0] != "name"@[0]);
    let item = tool_items(request)[at];
    lemma_member(item, 0, "type"@);
    lemma_member(item, 1, "name"@);
    lemma_member(item, 2, "description"@);
    lemma_member(item, 3, "parameters"@);
}

/// How much effort a model is to make goes out by its name, with how to sum up its
/// reasoning where that is asked for.
pub proof fn law_effort_is_asked_for(effort: ReasoningEffort, summary: Option<Seq<char>>)
    ensures
        reasoning_value(None, summary) is None,
        ({
            let value = reasoning_value(Some(effort), summary);
            &&& value is Some
            &&& value->0.get_str("effort"@) == Some(
                match effort {
                    ReasoningEffort::Low => "low"@,
                    ReasoningEffort::Medium => "medium"@,
                    ReasoningEffort::High => "high"@,
                    ReasoningEffort::Xhigh => "xhigh"@,
                },
            )
            &&& summary is Some ==> value->0.get_str("summary"@) == summary
            &&& summary is None ==> value->0.get("summary"@) is None
        }),
{
    reveal_strlit("effort");
    reveal_strlit("summary");
    assert("effort"@.len() == 6);
    assert("summary"@.len() == 7);
    let value = reasoning_value(Some(effort), summary)->0;
    lemma_member(value, 0, "effort"@);
    if summary is Some {
        lemma_member(value, 1, "summary"@);
    } else {
        law_missing_member_is_not_read(value->Object_0, "summary"@);
    }
}

/// What each member of a request to the Responses API stands for.
spec fn responses_member(
    request: ProviderRequest,
    options: ResponsesRequestOptions<'_>,
    key: Seq<char>,
) -> Option<JsonView> {
    if key == "model"@ {
        Some(JsonView::Text(request.model.model@))
    } else if key == "previous_response_id"@ {
        match request.previous_response_id {
            Some(id) => Some(JsonView::Text(id@)),
            None => None,
        }
    } else if key == "input"@ {
        Some(JsonView::Array(request_input(request)))
    } else if key == "stream"@ {
        Some(JsonView::Bool(options.stream))
    } else if key == "temperature"@ {
        match options.temperature {
            Some(temperature) => Some(JsonView::Number(temperature@)),
            None => None,
        }
    } else if key == "max_output_tokens"@ {
        match request.model.max_output_tokens {
            Some(limit) => Some(JsonView::Number(NumberView::Unsigned(limit as u64))),
            None => None,
        }
    } else if key == "store"@ {
        match options.store {
            Some(store) => Some(JsonView::Bool(store)),
            None => None,
        }
    } else if key == "prompt_cache_key"@ {
        match options.prompt_cache_key {
            Some(cache_key) => Some(JsonView::Text(cache_key@)),
            None => None,
        }
    } else if key == "reasoning"@ {
        reasoning_value(request.model.reasoning, str_view(options.reasoning_summary))
    } else if key == "include"@ {
        if request.model.reasoning is Some && options.include_encrypted_reasoning {
            Some(JsonView::Array(seq![JsonView::Text("reasoning.encrypted_content"@)]))
        } else {
            None
        }
    } else if key == "tools"@ {
        if request.tools@.len() > 0 {
            Some(JsonView::Array(tool_items(request)))
        } else {
            None
        }
    } else {
        None
    }
}

proof fn lemma_responses_keys_differ()
    ensures
        "model"@.len() == 5,
        "previous_response_id"@.len() == 20,
        "input"@.len() == 5,
        "stream"@.len() == 6,
        "temperature"@.len() == 11,
        "max_output_tokens"@.len() == 17,
        "store"@.len() == 5,
        "prompt_cache_key"@.len() == 16,
        "reasoning"@.len() == 9,
        "include"@.len() == 7,
        "tools"@.len() == 5,
        "model"@ != "input"@,
        "model"@ != "store"@,
        "model"@ != "tools"@,
        "input"@ != "store"@,
        "input"@ != "tools"@,
        "store"@ != "tools"@,
{
    reveal_strlit("model");
    reveal_strlit("previous_response_id");
    reveal_strlit("input");
    reveal_strlit("stream");
    reveal_strlit("temperature");
    reveal_strlit("max_output_tokens");
    reveal_strlit("store");
    reveal_strlit("prompt_cache_key");
    reveal_strlit("reasoning");
    reveal_strlit("include");
    reveal_strlit("tools");
    assert("model"@.len() == 5);
    assert("previous_response_id"@.len() == 20);
    assert("input"@.len() == 5);
    assert("stream"@.len() == 6);
    assert("temperature"@.len() == 11);
    assert("max_output_tokens"@.len() == 17);
    assert("store"@.len() == 5);
    assert("prompt_cache_key"@.len() == 16);
    assert("reasoning"@.len() == 9);
    assert("include"@.len() == 7);
    assert("tools"@.len() == 5);
    assert("model"@[0] != "input"@[0]);
    assert("model"@[0] != "store"@[0]);
    assert("model"@[0] != "tools"@[0]);
    assert("input"@[0] != "store"@[0]);
    assert("input"@[0] != "tools"@[0]);
    assert("store"@[0] != "tools"@[0]);
}

proof fn lemma_responses_request_members(
    request: ProviderRequest,
    options: ResponsesRequestOptions<'_>,
    key: Seq<char>,
)
    ensures
        responses_request_value(request, options).get(key) == responses_member(
            request,
            options,
            key,
        ),
{
    lemma_responses_keys_differ();
    let reasoning = reasoning_value(request.model.reasoning, str_view(options.reasoning_summary));
    let model = seq![("model"@, JsonView::Text(request.model.model@))];
    let earlier = optional_field(
        "previous_response_id"@,
        crate::openai_codec::optional_text_value(string_view(request.previous_response_id)),
    );
    let input = seq![("input"@, JsonView::Array(request_input(request)))];
    let stream = seq![("stream"@, JsonView::Bool(options.stream))];
    let temperature = match options.temperature {
        Some(temperature) => Some(JsonView::Number(temperature@)),
        None => None,
    };
    let limit = match request.model.max_output_tokens {
        Some(limit) => Some(crate::anthropic_codec::number_value(limit as u64)),
        None => None,
    };
    let store = match options.store {
        Some(store) => Some(JsonView::Bool(store)),
        None => None,
    };
    let cache_key = crate::openai_codec::optional_text_value(str_view(options.prompt_cache_key));
    let include_value = if reasoning is Some && options.include_encrypted_reasoning {
        Some(JsonView::Array(seq![text_value("reasoning.encrypted_content"@)]))
    } else {
        None
    };
    let tools = if request.tools@.len() > 0 {
        Some(JsonView::Array(tool_items(request)))
    } else {
        None
    };
    lemma_one_field("model"@, model[0].1, key);
    law_optional_member_is_read(
        "previous_response_id"@,
        crate::openai_codec::optional_text_value(string_view(request.previous_response_id)),
        key,
    );
    lemma_one_field("input"@, input[0].1, key);
    lemma_one_field("stream"@, stream[0].1, key);
    law_optional_member_is_read("temperature"@, temperature, key);
    law_optional_member_is_read("max_output_tokens"@, limit, key);
    law_optional_member_is_read("store"@, store, key);
    law_optional_member_is_read("prompt_cache_key"@, cache_key, key);
    law_optional_member_is_read("reasoning"@, reasoning, key);
    law_optional_member_is_read("include"@, include_value, key);
    law_optional_member_is_read("tools"@, tools, key);
    let a = model + earlier;
    let b = a + input;
    let c = b + stream;
    let d = c + optional_field("temperature"@, temperature);
    let e = d + optional_field("max_output_tokens"@, limit);
    let f = e + optional_field("store"@, store);
    let g = f + optional_field("prompt_cache_key"@, cache_key);
    let h = g + optional_field("reasoning"@, reasoning);
    let i = h + optional_field("include"@, include_value);
    let j = i + optional_field("tools"@, tools);
    lemma_fields_join(model, earlier, key);
    lemma_fields_join(a, input, key);
    lemma_fields_join(b, stream, key);
    lemma_fields_join(c, optional_field("temperature"@, temperature), key);
    lemma_fields_join(d, optional_field("max_output_tokens"@, limit), key);
    lemma_fields_join(e, optional_field("store"@, store), key);
    lemma_fields_join(f, optional_field("prompt_cache_key"@, cache_key), key);
    lemma_fields_join(g, optional_field("reasoning"@, reasoning), key);
    lemma_fields_join(h, optional_field("include"@, include_value), key);
    lemma_fields_join(i, optional_field("tools"@, tools), key);
    assert(responses_request_value(request, options)->Object_0 =~= j);
}

/// A request to the Responses API names the model, the response that it continues, its
/// input, whether to stream, and whatever else is set: temperature, how many tokens to
/// give at most, whether to store, the key to cache by, the effort and the tools. What
/// reasoning is signed with is asked for only where there is reasoning.
pub proof fn law_responses_request_says_what_is_asked(
    request: ProviderRequest,
    options: ResponsesRequestOptions<'_>,
)
    ensures
        ({
            let body = responses_request_value(request, options);
            &&& body.get("model"@) == Some(JsonView::Text(request.model.model@))
            &&& body.get_str("previous_response_id"@) == string_view(request.previous_response_id)
            &&& body.get_array("input"@) == Some(request_input(request))
            &&& body.get("stream"@) == Some(JsonView::Bool(options.stream))
            &&& body.get("temperature"@) == if options.temperature is Some {
                Some(JsonView::Number(options.temperature->0@))
            } else {
                None
            }
            &&& body.get("max_output_tokens"@) == if request.model.max_output_tokens is Some {
                Some(
                    JsonView::Number(
                        NumberView::Unsigned(request.model.max_output_tokens->0 as u64),
                    ),
                )
            } else {
                None
            }
            &&& body.get("store"@) == if options.store is Some {
                Some(JsonView::Bool(options.store->0))
            } else {
                None
            }
            &&& body.get_str("prompt_cache_key"@) == str_view(options.prompt_cache_key)
            &&& body.get("reasoning"@) == reasoning_value(
                request.model.reasoning,
                str_view(options.reasoning_summary),
            )
            &&& body.get("include"@) == if request.model.reasoning is Some
                && options.include_encrypted_reasoning {
                Some(JsonView::Array(seq![JsonView::Text("reasoning.encrypted_content"@)]))
            } else {
                None
            }
            &&& request.tools@.len() == 0 ==> body.get("tools"@) is None
            &&& request.tools@.len() > 0 ==> body.get_array("tools"@) == Some(tool_items(request))
        }),
{
    lemma_responses_keys_differ();
    lemma_responses_request_members(request, options, "model"@);
    lemma_responses_request_members(request, options, "previous_response_id"@);
    lemma_responses_request_members(request, options, "input"@);
    lemma_responses_request_members(request, options, "stream"@);
    lemma_responses_request_members(request, options, "temperature"@);
    lemma_responses_request_members(request, options, "max_output_tokens"@);
    lemma_responses_request_members(request, options, "store"@);
    lemma_responses_request_members(request, options, "prompt_cache_key"@);
    lemma_responses_request_members(request, options, "reasoning"@);
    lemma_responses_request_members(request, options, "include"@);
    lemma_responses_request_members(request, options, "tools"@);
}

/// A request for a compaction names the model, what is to be compacted and how: what
/// an earlier compaction left comes first.
pub proof fn law_responses_compaction_says_what_is_asked(request: ProviderCompactionRequest)
    ensures
        ({
            let body = JsonView::Object(compact_value(request));
            let other = JsonView::Object(openrouter_compact_value(request));
            &&& body.get_str("model"@) == Some(request.model.model@)
            &&& body.get_array("input"@) == Some(
                items_view(request.compacted_prefix@) + input_items(
                    request.messages@,
                    tool_names(request.tools@, request.model.provider_kind),
                ),
            )
            &&& body.get_str("instructions"@) == Some(request.instructions@)
            &&& other.get_str("model"@) == Some(request.model.model@)
            &&& other.get_array("input"@) == body.get_array("input"@)
            &&& other.get_str("instructions"@) == Some(request.instructions@)
            &&& other.get("stream"@) == Some(JsonView::Bool(false))
            &&& other.get("store"@) == Some(JsonView::Bool(false))
        }),
{
    reveal_strlit("model");
    reveal_strlit("input");
    reveal_strlit("instructions");
    reveal_strlit("stream");
    reveal_strlit("store");
    assert("model"@.len() == 5);
    assert("input"@.len() == 5);
    assert("instructions"@.len() == 12);
    assert("stream"@.len() == 6);
    assert("store"@.len() == 5);
    assert("model"@[0] != "input"@[0]);
    assert("model"@[0] != "store"@[0]);
    assert("input"@[0] != "store"@[0]);
    let body = JsonView::Object(compact_value(request));
    let other = JsonView::Object(openrouter_compact_value(request));
    lemma_member(body, 0, "model"@);
    lemma_member(body, 1, "input"@);
    lemma_member(body, 2, "instructions"@);
    lemma_member(other, 0, "model"@);
    lemma_member(other, 1, "input"@);
    lemma_member(other, 2, "instructions"@);
    lemma_member(other, 3, "stream"@);
    lemma_member(other, 4, "store"@);
}

/// An identifier of a message begins with `msg_`, and small letters, digits, underscores
/// and hyphens follow, one at least.
pub proof fn law_message_ids_are_known(id: Seq<char>, rest: Seq<char>)
    ensures
        !has_prefix(id, "msg_"@) ==> !is_message_item_id(id),
        !is_message_item_id("msg_"@),
        is_message_item_id("msg_"@ + rest) <==> rest.len() > 0 && forall|i: int|
            0 <= i < rest.len() ==> ('a' <= #[trigger] rest[i] <= 'z') || ('0' <= rest[i] <= '9')
                || rest[i] == '_' || rest[i] == '-',
{
    reveal_strlit("msg_");
    let whole = "msg_"@ + rest;
    assert("msg_"@.len() == 4);
    assert(whole.subrange(0, 4) =~= "msg_"@);
    assert forall|i: int| 0 <= i < rest.len() implies whole[i + 4] == #[trigger] rest[i] by {}
    if is_message_item_id(whole) {
        assert forall|i: int| 0 <= i < rest.len() implies ('a' <= #[trigger] rest[i] <= 'z') || ('0'
            <= rest[i] <= '9') || rest[i] == '_' || rest[i] == '-' by {
            assert(is_item_id_char(whole[i + 4]));
        }
    }
    if rest.len() > 0 && forall|i: int|
        0 <= i < rest.len() ==> ('a' <= #[trigger] rest[i] <= 'z') || ('0' <= rest[i] <= '9')
            || rest[i] == '_' || rest[i] == '-' {
        assert forall|i: int| 4 <= i < whole.len() implies is_item_id_char(
            #[trigger] whole[i],
        ) by {
            assert(whole[i] == rest[i - 4]);
        }
    }
}

/// A response is made into the identifier of a message by a prefix, unless it is one
/// already; only an identifier of a message is sent back.
pub proof fn law_messages_are_named_after_responses(id: Seq<char>)
    requires
        id.len() > 0,
        is_clean_id(id),
    ensures
        !is_message_item_id(id) && id.len() <= 51 ==> synthesized_message_id(id) == "msg_response_"@
            + id,
        is_message_item_id(id) && id.len() <= 64 ==> synthesized_message_id(id) == id,
        is_message_item_id(id) && id.len() <= 64 ==> replayed_message_id(id) == Some(id),
        !is_message_item_id(id) ==> replayed_message_id(id) is None,
{
    if id.len() <= 64 {
        law_clean_short_id_is_kept(id, 64, "msg"@);
    }
    if id.len() <= 51 {
        reveal_strlit("msg_response_");
        assert("msg_response_"@.len() == 13);
        assert(is_clean_id("msg_response_"@));
        lemma_prefixed_id("msg_response_"@, id, "msg_response"@);
    }
}

proof fn lemma_prefixed_id(prefix: Seq<char>, id: Seq<char>, empty_prefix: Seq<char>)
    requires
        is_clean_id(prefix),
        is_clean_id(id),
        id.len() > 0,
        prefix.len() + id.len() <= 64,
    ensures
        bounded_id(prefix, id, 64, empty_prefix) == prefix + id,
{
    let kept = bounded_id(prefix, id, 64, empty_prefix);
    law_short_id_is_kept(prefix, id, 64, empty_prefix, 0);
    assert forall|i: int| 0 <= i < id.len() implies kept[prefix.len() + i] == #[trigger] id[i] by {
        law_short_id_is_kept(prefix, id, 64, empty_prefix, i);
        assert(crate::codec_common::is_provider_id_char(id[i]));
    }
    assert forall|i: int| 0 <= i < prefix.len() implies kept[i] == prefix[i] by {
        assert(kept.subrange(0, prefix.len() as int)[i] == kept[i]);
    }
    assert forall|i: int| 0 <= i < kept.len() implies kept[i] == (prefix + id)[i] by {
        if i >= prefix.len() {
            assert(kept[prefix.len() + (i - prefix.len())] == id[i - prefix.len()]);
        }
    }
    assert(kept =~= prefix + id);
}

/// A call and its result are items of their own, each with an identifier made from that
/// of the call.
pub proof fn law_calls_and_results_are_told_apart(
    call: ToolCall,
    result: ToolResultMessage,
    names: Seq<ToolNames>,
)
    requires
        call.id.0@ == result.call_id.0@,
        is_clean_id(call.id.0@),
        0 < call.id.0@.len() <= 54,
    ensures
        call_item(call, names).get_str("id"@) == Some("fc_"@ + call.id.0@),
        output_item(result).get_str("id"@) == Some("fc_output_"@ + call.id.0@),
{
    reveal_strlit("type");
    reveal_strlit("id");
    assert("type"@.len() == 4);
    assert("id"@.len() == 2);
    lemma_member(call_item(call, names), 1, "id"@);
    lemma_member(output_item(result), 1, "id"@);
    reveal_strlit("fc_");
    reveal_strlit("fc_output_");
    assert("fc_"@.len() == 3);
    assert("fc_output_"@.len() == 10);
    assert(is_clean_id("fc_"@));
    assert(is_clean_id("fc_output_"@));
    lemma_prefixed_id("fc_"@, call.id.0@, "fc"@);
    lemma_prefixed_id("fc_output_"@, call.id.0@, "fc_output"@);
}

/// An item is refused where its identifier has more than sixty-four bytes; the first such
/// item is named by its place and the length of its identifier.
pub proof fn law_overlong_items_are_named(items: Seq<JsonView>, item: JsonView)
    ensures
        item.get_str("id"@) is None ==> !is_overlong(item),
        item.get_str("id"@) is Some ==> (is_overlong(item) <==> byte_length(item.get_str("id"@)->0)
            >= 65),
        first_overlong(Seq::empty()) is None,
        first_overlong(items) is Some ==> first_overlong(items.push(item)) == first_overlong(items),
        first_overlong(items) is None && is_overlong(item) ==> first_overlong(items.push(item))
            == Some(items.len()),
        first_overlong(items) is None && !is_overlong(item) ==> first_overlong(items.push(item))
            is None,
        is_overlong(item) ==> overlong_message(items.push(item), items.len())
            == "failed to encode openai responses request: input["@ + decimal(items.len())
            + "].id length "@ + decimal(byte_length(item.get_str("id"@)->0)) + " exceeds "@
            + decimal(64),
{
    assert(items.push(item).drop_last() =~= items);
}

/// A call without an identifier, and its result, are named by the hash of nothing.
pub proof fn law_nameless_calls_are_named_by_a_hash(
    call: ToolCall,
    result: ToolResultMessage,
    names: Seq<ToolNames>,
)
    requires
        call.id.0@.len() == 0,
        result.call_id.0@.len() == 0,
        is_short_hash(short_hash_text(Seq::empty())),
    ensures
        call_item(call, names).get_str("id"@) == Some(
            "fc_"@ + "fc"@ + "_"@ + short_hash_text(Seq::empty()),
        ),
        output_item(result).get_str("id"@) == Some(
            "fc_output_"@ + "fc_output"@ + "_"@ + short_hash_text(Seq::empty()),
        ),
{
    reveal_strlit("type");
    reveal_strlit("id");
    assert("type"@.len() == 4);
    assert("id"@.len() == 2);
    lemma_member(call_item(call, names), 1, "id"@);
    lemma_member(output_item(result), 1, "id"@);
    reveal_strlit("fc_");
    reveal_strlit("fc");
    reveal_strlit("fc_output_");
    reveal_strlit("fc_output");
    assert("fc_"@.len() == 3 && "fc"@.len() == 2);
    assert("fc_output_"@.len() == 10 && "fc_output"@.len() == 9);
    assert(is_clean_id("fc_"@) && is_clean_id("fc"@));
    assert(is_clean_id("fc_output_"@) && is_clean_id("fc_output"@));
    assert(call.id.0@ =~= Seq::empty());
    assert(result.call_id.0@ =~= Seq::empty());
    law_empty_id_is_named_by_its_hash("fc_"@, 64, "fc"@);
    law_empty_id_is_named_by_its_hash("fc_output_"@, 64, "fc_output"@);
}

} // verus!
