//! What holds of every request to compact a conversation through the Messages API,
//! and of the parts of a prompt.

use vstd::prelude::*;

use crate::anthropic_codec::{
    api_kind_number, compaction_sections, compaction_text, compaction_value, is_adaptive_model,
    names_model, prefix_item_text, prefix_texts, rendered_assistant_part, rendered_message,
    rendered_messages, rendered_prefix, rendered_segments, rendered_user_part, segment_texts,
    system_tail, tail_sections, unsupported_api_kind,
};
use crate::codec_common::{result_text, system_texts};
use crate::json::{items_view, json_text, lemma_member, JsonNumber, JsonView, NumberView};
use crate::protocol::{
    ApiKind, AssistantPart, Message, ProviderCompactionRequest, ProviderRequest, UserPart,
};
use crate::text::{contains_text, hyphenated, joined, lower_ascii, trim_end_spec, trimmed};

verus! {

/// Of the segments of a prompt those that say anything are taken in order, without the
/// white space behind them.
pub proof fn law_segments_are_taken_in_order(segments: Seq<String>, segment: String)
    ensures
        segment_texts(Seq::empty()) == Seq::<Seq<char>>::empty(),
        trim_end_spec(segment@).len() > 0 ==> segment_texts(segments.push(segment))
            == segment_texts(segments).push(trim_end_spec(segment@)),
        trim_end_spec(segment@).len() == 0 ==> segment_texts(segments.push(segment))
            == segment_texts(segments),
{
    assert(segments.push(segment).drop_last() =~= segments);
}

/// The segments are parted by an empty line; where none says anything there is no text.
pub proof fn law_segments_are_joined(segments: Seq<String>)
    ensures
        rendered_segments(segments) is Some ==> rendered_segments(segments)->0 == joined(
            segment_texts(segments),
            "\n\n"@,
        ),
        joined(segment_texts(segments), "\n\n"@).len() > 0 <==> rendered_segments(segments) is Some,
{
}

/// An earlier summary is taken by its words, any other item by its JSON text; what says
/// nothing is passed over.
pub proof fn law_earlier_items_are_taken_in_order(items: Seq<JsonView>, item: JsonView)
    ensures
        item.get_str("type"@) == Some("halter_compacted_context"@) && item.get_str("text"@) is Some
            ==> prefix_item_text(item) == item.get_str("text"@)->0,
        item.get_str("type"@) != Some("halter_compacted_context"@) || item.get_str("text"@) is None
            ==> prefix_item_text(item) == json_text(item),
        trimmed(prefix_item_text(item)).len() > 0 ==> prefix_texts(items.push(item))
            == prefix_texts(items).push(prefix_item_text(item)),
        trimmed(prefix_item_text(item)).len() == 0 ==> prefix_texts(items.push(item))
            == prefix_texts(items),
        prefix_texts(Seq::empty()) == Seq::<Seq<char>>::empty(),
{
    assert(items.push(item).drop_last() =~= items);
}

/// What was said before stands between its marks, parted by empty lines.
pub proof fn law_earlier_items_stand_between_marks(items: Seq<JsonView>)
    ensures
        ({
            let said = joined(prefix_texts(items), "\n\n"@);
            &&& trimmed(said).len() == 0 ==> rendered_prefix(items) is None
            &&& trimmed(said).len() > 0 ==> rendered_prefix(items) == Some(
                "<compacted_context>"@ + "\n"@ + said + "\n"@ + "</compacted_context>"@,
            )
        }),
{
}

/// Behind the skills come the other segments, what was said before and the system
/// messages, parted by empty lines.
pub proof fn law_tail_of_the_system(request: ProviderRequest)
    ensures
        ({
            let segments = request.prompt.ordered_segments@;
            let rest = rendered_segments(
                segments.subrange(crate::anthropic_codec::skill_end(request), segments.len() as int),
            );
            let before = rendered_prefix(items_view(request.compacted_prefix@));
            let said = system_texts(request.messages@);
            &&& rest is Some && before is Some ==> tail_sections(request) == seq![
                rest->0,
                before->0,
            ] + said
            &&& rest is Some && before is None ==> tail_sections(request) == seq![rest->0] + said
            &&& rest is None && before is Some ==> tail_sections(request) == seq![before->0] + said
            &&& rest is None && before is None ==> tail_sections(request) == said
        }),
        tail_sections(request).len() == 0 <==> system_tail(request) is None,
        tail_sections(request).len() > 0 ==> system_tail(request) == Some(
            joined(tail_sections(request), "\n\n"@),
        ),
{
    let segments = request.prompt.ordered_segments@;
    let rest = rendered_segments(
        segments.subrange(crate::anthropic_codec::skill_end(request), segments.len() as int),
    );
    let before = rendered_prefix(items_view(request.compacted_prefix@));
    let said = system_texts(request.messages@);
    if rest is Some && before is Some {
        assert(tail_sections(request) =~= seq![rest->0, before->0] + said);
    } else if rest is Some {
        assert(tail_sections(request) =~= seq![rest->0] + said);
    } else if before is Some {
        assert(tail_sections(request) =~= seq![before->0] + said);
    } else {
        assert(tail_sections(request) =~= said);
    }
}

/// A message of the conversation is told by who said it and what.
pub proof fn law_messages_are_told(message: Message)
    ensures
        match message {
            Message::System(system) => rendered_message(message) == "system:\n"@ + system.text@,
            Message::User(user) => user.parts@.len() == 1 ==> rendered_message(message)
                == "user:\n"@ + rendered_user_part(user.parts@[0]),
            Message::Assistant(assistant) => assistant.parts@.len() == 1 ==> rendered_message(
                message,
            ) == "assistant:\n"@ + rendered_assistant_part(assistant.parts@[0]),
            Message::Tool(tool) => rendered_message(message) == "tool_result "@ + tool.call_id.0@
                + ":\n"@ + result_text(tool.content, tool.error),
        },
{
}

/// The parts of a message are told on lines of their own.
pub proof fn law_parts_are_told_in_order(message: Message)
    ensures
        match message {
            Message::User(user) => rendered_message(message) == "user:\n"@ + joined(
                user.parts@.map_values(|part: UserPart| rendered_user_part(part)),
                "\n"@,
            ),
            Message::Assistant(assistant) => rendered_message(message) == "assistant:\n"@ + joined(
                assistant.parts@.map_values(|part: AssistantPart| rendered_assistant_part(part)),
                "\n"@,
            ),
            _ => true,
        },
{
}

/// A part is told by its words; media by their type, thoughts and calls under a heading.
pub proof fn law_parts_are_told(said: UserPart, answered: AssistantPart)
    ensures
        match said {
            UserPart::Text { text } => rendered_user_part(said) == text@,
            UserPart::Image { media_type, data } => rendered_user_part(said) == "[image: "@
                + media_type@ + "]"@,
            UserPart::Document { media_type, data } => rendered_user_part(said) == "[document: "@
                + media_type@ + "]"@,
        },
        match answered {
            AssistantPart::Text { text } => rendered_assistant_part(answered) == text@,
            AssistantPart::Thinking(block) => rendered_assistant_part(answered) == "[thinking]\n"@
                + block.text@,
            AssistantPart::ToolCall(call) => rendered_assistant_part(answered) == "[tool_call "@
                + call.name.0@ + "]\n"@ + json_text(call.arguments@),
        },
{
}

/// The conversation is told message by message, parted by empty lines; one without a
/// message says so.
pub proof fn law_conversation_is_told_in_order(messages: Seq<Message>, message: Message)
    ensures
        compaction_text(Seq::empty()) == "No prior messages are eligible for compaction."@,
        compaction_text(seq![message]) == rendered_message(message),
        messages.len() > 0 ==> compaction_text(messages.push(message)) == compaction_text(messages)
            + "\n\n"@ + rendered_message(message),
{
    let all = rendered_messages(messages.push(message));
    assert(all.drop_last() =~= rendered_messages(messages));
    assert(all.last() == rendered_message(message));
}

/// The instructions come first, if there are any, and then what was said before.
pub proof fn law_compaction_is_instructed(request: ProviderCompactionRequest)
    ensures
        ({
            let instructions = trimmed(request.instructions@);
            let before = rendered_prefix(items_view(request.compacted_prefix@));
            let told = compaction_sections(request);
            &&& instructions.len() > 0 && before is Some ==> told == seq![instructions, before->0]
            &&& instructions.len() > 0 && before is None ==> told == seq![instructions]
            &&& instructions.len() == 0 && before is Some ==> told == seq![before->0]
            &&& instructions.len() == 0 && before is None ==> told == Seq::<Seq<char>>::empty()
        }),
{
    let instructions = trimmed(request.instructions@);
    let before = rendered_prefix(items_view(request.compacted_prefix@));
    let told = compaction_sections(request);
    if instructions.len() > 0 && before is Some {
        assert(told =~= seq![instructions, before->0]);
    } else if instructions.len() > 0 {
        assert(told =~= seq![instructions]);
    } else if before is Some {
        assert(told =~= seq![before->0]);
    } else {
        assert(told =~= Seq::<Seq<char>>::empty());
    }
}

/// A request to compact names its model and its limit, instructs it apart, and hands it
/// the whole conversation in one text of the user.
pub proof fn law_compaction_says_what_is_asked(
    request: ProviderCompactionRequest,
    temperature: Option<JsonNumber>,
)
    ensures
        ({
            let body = compaction_value(request, temperature);
            &&& body.get("model"@) == Some(JsonView::Text(request.model.model@))
            &&& body.get("max_tokens"@) == Some(
                JsonView::Number(
                    NumberView::Unsigned(
                        if request.model.max_output_tokens is Some {
                            request.model.max_output_tokens->0 as u64
                        } else {
                            4096
                        },
                    ),
                ),
            )
            &&& body.get("temperature"@) == if temperature is Some {
                Some(JsonView::Number(temperature->0@))
            } else {
                None
            }
            &&& body.get("system"@) == Some(
                JsonView::Text(joined(compaction_sections(request), "\n\n"@)),
            )
            &&& body.get_array("messages"@) is Some
            &&& body.get_array("messages"@)->0.len() == 1
            &&& ({
                let message = body.get_array("messages"@)->0[0];
                &&& message.get_str("role"@) == Some("user"@)
                &&& message.get_array("content"@) is Some
                &&& message.get_array("content"@)->0.len() == 1
                &&& message.get_array("content"@)->0[0].get_str("type"@) == Some("text"@)
                &&& message.get_array("content"@)->0[0].get_str("text"@) == Some(
                    compaction_text(request.messages@),
                )
            })
            &&& body.get("stream"@) is None
        }),
{
    reveal_strlit("model");
    reveal_strlit("max_tokens");
    reveal_strlit("temperature");
    reveal_strlit("system");
    reveal_strlit("messages");
    reveal_strlit("role");
    reveal_strlit("content");
    reveal_strlit("type");
    reveal_strlit("text");
    reveal_strlit("stream");
    assert("model"@.len() == 5);
    assert("max_tokens"@.len() == 10);
    assert("temperature"@.len() == 11);
    assert("system"@.len() == 6);
    assert("messages"@.len() == 8);
    assert("role"@.len() == 4);
    assert("content"@.len() == 7);
    assert("type"@.len() == 4);
    assert("text"@.len() == 4);
    assert("stream"@.len() == 6);
    assert("system"@[1] != "stream"@[1]);
    assert("role"@[0] != "type"@[0]);
    assert("role"@[0] != "text"@[0]);
    assert("type"@[1] != "text"@[1]);
    let body = compaction_value(request, temperature);
    let fields = body->Object_0;
    let at: int = if temperature is Some {
        1
    } else {
        0
    };
    lemma_member(body, 0, "model"@);
    lemma_member(body, 1, "max_tokens"@);
    if temperature is Some {
        lemma_member(body, 2, "temperature"@);
    } else {
        assert(fields.len() == 4);
        crate::json::law_missing_member_is_not_read(fields, "temperature"@);
    }
    lemma_member(body, 2 + at, "system"@);
    lemma_member(body, 3 + at, "messages"@);
    crate::json::law_missing_member_is_not_read(fields, "stream"@);
    let message = body.get_array("messages"@)->0[0];
    lemma_member(message, 0, "role"@);
    lemma_member(message, 1, "content"@);
    let block = message.get_array("content"@)->0[0];
    lemma_member(block, 0, "type"@);
    lemma_member(block, 1, "text"@);
}

/// The models that think as they see fit are known by name, in any case, with hyphens
/// between its words.
pub proof fn law_models_that_think_as_they_see_fit(model: Seq<char>)
    ensures
        ({
            let small = lower_ascii(model);
            &&& names_model(model, "claude_opus_4_7"@) <==> contains_text(
                small,
                hyphenated("claude_opus_4_7"@),
            )
            &&& is_adaptive_model(model) <==> (contains_text(small, hyphenated("claude_opus_4_7"@))
                || contains_text(small, hyphenated("claude_opus_4_6"@)) || contains_text(
                small,
                hyphenated("claude_sonnet_4_6"@),
            ) || contains_text(small, hyphenated("claude_mythos"@)))
        }),
{
}

/// A request for another API is refused by the number of that API.
pub proof fn law_other_apis_are_refused()
    ensures
        unsupported_api_kind(ApiKind::OpenAiResponses)
            == "failed to encode anthropic request: unsupported api kind '"@
            + crate::text::decimal(0) + "'"@,
        unsupported_api_kind(ApiKind::OpenAiChat)
            == "failed to encode anthropic request: unsupported api kind '"@
            + crate::text::decimal(1) + "'"@,
        api_kind_number(ApiKind::AnthropicMessages) == 2,
{
}

} // verus!
