//! What holds of every whole reply, whichever API it came through.

use vstd::prelude::*;

use crate::anthropic_codec::{
    compacted, content_block_said, content_said, reply_text, reply_texts, response_said, whole_text,
    whole_thinking, whole_tool_call, Said,
};
use crate::anthropic_laws::counted;
use crate::brackets::{
    all_issued, bracket_step, bracketed, lemma_bracketed_append, lemma_bracketed_one,
    lemma_bracketed_push, lemma_fresh_is_new, lemma_fresh_was_issued, lemma_issued_grows,
    was_issued, BlockState,
};
use crate::codec_common::{canonical_name, tool_names, ToolNames};
use crate::fake::reply_events;
use crate::ids::IdsView;
use crate::json::{json_parsed, json_text, lemma_member, JsonView};
use crate::message_collector::{
    arguments_of, collected, finished, latest_partial, nothing_collected, CollectedView,
    CollectorView, PartialView,
};
use crate::openai_chat::{chat_body_said, chat_call_said, chat_calls_said, chat_said};
use crate::openai_codec::{
    arguments_text, blocks_said, content_said_text, entry_texts, first_message_id, has_call_item,
    is_message_item_id, item_reasoning_text, item_said, items_said, openai_usage,
    openrouter_summary, reply_message_id, reply_said, summary_texts, synthesized_message_id,
};
use crate::openai_laws::stopped_for;
use crate::protocol::{EventView, ProviderRequest, StopReason};
use crate::text::{joined, trimmed};

verus! {

/// All of the blocks are closed.
pub open spec fn settled(known: Map<Seq<char>, BlockState>) -> bool {
    forall|id: Seq<char>| #[trigger]
        known.contains_key(id) ==> known[id] == BlockState::Closed
}

/// Every block that the events open has an identifier of its own, and they close
/// it again.
pub open spec fn all_closed(events: Seq<EventView>) -> bool {
    let after = bracketed(Map::empty(), events);
    after is Some && settled(after->0)
}

/// Whatever blocks were opened and closed before, these events open others and
/// close them.
spec fn closes(ids: IdsView, said: Said) -> bool {
    &&& said.ids.seed == ids.seed
    &&& ids.issued <= said.ids.issued
    &&& forall|known: Map<Seq<char>, BlockState>|
        #![trigger bracketed(known, said.events)]
        settled(known) && all_issued(known, ids) ==> {
            let after = bracketed(known, said.events);
            after is Some && settled(after->0) && all_issued(after->0, said.ids)
        }
}

proof fn lemma_closes_later(ids: IdsView, said: Said, later: IdsView)
    requires
        closes(ids, said),
        later.seed == said.ids.seed,
        said.ids.issued <= later.issued,
    ensures
        closes(ids, Said { ids: later, ..said }),
{
    assert forall|known: Map<Seq<char>, BlockState>|
        #![trigger bracketed(known, said.events)]
        settled(known) && all_issued(known, ids) implies {
        let after = bracketed(known, said.events);
        after is Some && settled(after->0) && all_issued(after->0, later)
    } by {
        let after = bracketed(known, said.events)->0;
        assert forall|id: Seq<char>| #[trigger] after.contains_key(id) implies was_issued(
            later,
            id,
        ) by {
            lemma_issued_grows(said.ids, later, id);
        }
    }
}

proof fn lemma_nothing_closes(ids: IdsView, later: IdsView)
    requires
        later.seed == ids.seed,
        ids.issued <= later.issued,
    ensures
        closes(ids, Said { events: Seq::empty(), ids: later }),
{
    assert(closes(ids, Said { events: Seq::empty(), ids }));
    lemma_closes_later(ids, Said { events: Seq::empty(), ids }, later);
}

proof fn lemma_closed_append(ids: IdsView, first: Said, second: Said)
    requires
        closes(ids, first),
        closes(first.ids, second),
    ensures
        closes(ids, Said { events: first.events + second.events, ids: second.ids }),
{
    let events = first.events + second.events;
    assert forall|known: Map<Seq<char>, BlockState>|
        #![trigger bracketed(known, events)]
        settled(known) && all_issued(known, ids) implies {
        let after = bracketed(known, events);
        after is Some && settled(after->0) && all_issued(after->0, second.ids)
    } by {
        lemma_bracketed_append(known, first.events, second.events);
        let middle = bracketed(known, first.events)->0;
        assert(settled(middle) && all_issued(middle, first.ids));
        assert(bracketed(middle, second.events) is Some);
    }
}

/// A block that is opened, continued and closed under a fresh identifier.
proof fn lemma_block_closes(
    ids: IdsView,
    start: EventView,
    middle: EventView,
    end: EventView,
    sort: BlockState,
)
    requires
        forall|known: Map<Seq<char>, BlockState>|
            #![trigger known.insert(ids.fresh(), sort)]
            !known.contains_key(ids.fresh()) ==> {
                let open = known.insert(ids.fresh(), sort);
                &&& bracket_step(known, start) == Some(open)
                &&& bracket_step(open, middle) == Some(open)
                &&& bracket_step(open, end) == Some(open.insert(ids.fresh(), BlockState::Closed))
            },
    ensures
        closes(ids, Said { events: seq![start, middle, end], ids: ids.advanced() }),
{
    let events = seq![start, middle, end];
    let id = ids.fresh();
    assert forall|known: Map<Seq<char>, BlockState>|
        #![trigger bracketed(known, events)]
        settled(known) && all_issued(known, ids) implies {
        let after = bracketed(known, events);
        after is Some && settled(after->0) && all_issued(after->0, ids.advanced())
    } by {
        if known.contains_key(id) {
            lemma_fresh_is_new(ids, id);
        }
        let open = known.insert(id, sort);
        let closed = open.insert(id, BlockState::Closed);
        lemma_bracketed_one(known, start);
        assert(seq![start].push(middle) =~= seq![start, middle]);
        assert(seq![start, middle].push(end) =~= events);
        lemma_bracketed_push(known, seq![start], middle);
        lemma_bracketed_push(known, seq![start, middle], end);
        assert(bracketed(known, events) == Some(closed));
        assert forall|other: Seq<char>| #[trigger] closed.contains_key(other) implies
            closed[other] == BlockState::Closed && was_issued(ids.advanced(), other) by {
            if other == id {
                lemma_fresh_was_issued(ids);
            } else {
                assert(known.contains_key(other));
                lemma_issued_grows(ids, ids.advanced(), other);
            }
        }
    }
}

proof fn lemma_text_closes(ids: IdsView, text: Seq<char>)
    ensures
        closes(ids, Said { events: whole_text(ids.fresh(), text), ids: ids.advanced() }),
{
    let id = ids.fresh();
    lemma_block_closes(
        ids,
        EventView::TextStart { id },
        EventView::TextDelta { id, delta: text },
        EventView::TextEnd { id },
        BlockState::Text,
    );
}

proof fn lemma_thinking_closes(ids: IdsView, text: Seq<char>, signature: Option<Seq<char>>)
    ensures
        closes(
            ids,
            Said { events: whole_thinking(ids.fresh(), text, signature), ids: ids.advanced() },
        ),
{
    let id = ids.fresh();
    lemma_block_closes(
        ids,
        EventView::ThinkingStart { id },
        EventView::ThinkingDelta { id, delta: text },
        EventView::ThinkingEnd { id, signature },
        BlockState::Thinking,
    );
}

/// A whole tool call, whether or not it takes a second identifier.
proof fn lemma_call_closes(
    ids: IdsView,
    tool_call_id: Seq<char>,
    name: Seq<char>,
    arguments: Seq<char>,
)
    ensures
        ({
            let events = whole_tool_call(ids.fresh(), tool_call_id, name, arguments);
            &&& closes(ids, Said { events, ids: ids.advanced() })
            &&& closes(ids, Said { events, ids: ids.advanced().advanced() })
        }),
{
    let id = ids.fresh();
    lemma_block_closes(
        ids,
        EventView::ToolCallStart { id, tool_call_id, name },
        EventView::ToolArgsDelta { id, delta: arguments },
        EventView::ToolCallEnd { id },
        BlockState::Tool,
    );
    let events = whole_tool_call(id, tool_call_id, name, arguments);
    lemma_closes_later(
        ids,
        Said { events, ids: ids.advanced() },
        ids.advanced().advanced(),
    );
}

/// The start of a message, blocks that are all closed, and two events that are
/// no part of a block.
proof fn lemma_message_closes(ids: IdsView, blocks: Said, whole: Seq<EventView>)
    requires
        closes(ids, blocks),
        whole.len() == blocks.events.len() + 3,
        whole[0] is MessageStart,
        whole.subrange(1, whole.len() - 2) == blocks.events,
        whole[whole.len() - 2] is UsageUpdate,
        whole[whole.len() - 1] is MessageEnd,
    ensures
        all_closed(whole),
{
    let none = Map::<Seq<char>, BlockState>::empty();
    let start = whole[0];
    let usage = whole[whole.len() - 2];
    let end = whole[whole.len() - 1];
    assert(settled(none) && all_issued(none, ids));
    assert(whole =~= (seq![start] + blocks.events).push(usage).push(end));
    lemma_bracketed_one(none, start);
    lemma_bracketed_append(none, seq![start], blocks.events);
    assert(bracketed(none, blocks.events) is Some);
    lemma_bracketed_push(none, seq![start] + blocks.events, usage);
    lemma_bracketed_push(none, (seq![start] + blocks.events).push(usage), end);
}

proof fn lemma_content_closes(blocks: Seq<JsonView>, names: Seq<ToolNames>, ids: IdsView)
    ensures
        closes(ids, content_said(blocks, names, ids)),
    decreases blocks.len(),
{
    lemma_nothing_closes(ids, ids);
    if blocks.len() > 0 {
        let before = content_said(blocks.drop_last(), names, ids);
        lemma_content_closes(blocks.drop_last(), names, ids);
        let now = before.ids;
        let said = content_block_said(blocks.last(), names, now);
        lemma_nothing_closes(now, now);
        if said.events.len() > 0 {
            match said.events[0] {
                EventView::TextStart { .. } => {
                    lemma_text_closes(now, said.events[1]->TextDelta_delta);
                },
                EventView::ThinkingStart { .. } => {
                    lemma_thinking_closes(
                        now,
                        said.events[1]->ThinkingDelta_delta,
                        said.events[2]->signature,
                    );
                },
                EventView::ToolCallStart { tool_call_id, name, .. } => {
                    lemma_call_closes(now, tool_call_id, name, said.events[1]->ToolArgsDelta_delta);
                },
                _ => {},
            }
        } else {
            assert(said.events =~= Seq::empty());
        }
        lemma_closed_append(ids, before, said);
    }
}

/// A whole Anthropic reply closes every block that it opens, and opens none twice.
pub proof fn law_anthropic_reply_is_closed(
    request: ProviderRequest,
    response: JsonView,
    ids: IdsView,
)
    ensures
        all_closed(response_said(request, response, ids).events),
{
    let names = tool_names(request.tools@, request.model.provider_kind);
    let blocks = match response.get_array("content"@) {
        Some(blocks) => blocks,
        None => Seq::empty(),
    };
    let start = if response.get_str("id"@) is Some {
        ids
    } else {
        ids.advanced()
    };
    lemma_content_closes(blocks, names, start);
    let said = response_said(request, response, ids).events;
    let content = content_said(blocks, names, start);
    assert(said.subrange(1, said.len() - 2) =~= content.events);
    lemma_message_closes(start, content, said);
}

proof fn lemma_blocks_close(blocks: Seq<JsonView>, ids: IdsView)
    ensures
        closes(ids, blocks_said(blocks, ids)),
    decreases blocks.len(),
{
    lemma_nothing_closes(ids, ids);
    if blocks.len() > 0 {
        lemma_blocks_close(blocks.drop_last(), ids);
        let before = blocks_said(blocks.drop_last(), ids);
        if let Some(text) = content_said_text(blocks.last()) {
            lemma_text_closes(before.ids, text);
            lemma_closed_append(
                ids,
                before,
                Said {
                    events: whole_text(before.ids.fresh(), text),
                    ids: before.ids.advanced(),
                },
            );
        }
    }
}

proof fn lemma_item_closes(item: JsonView, names: Seq<ToolNames>, ids: IdsView)
    ensures
        closes(ids, item_said(item, names, ids)),
{
    lemma_nothing_closes(ids, ids);
    if let Some(blocks) = item.get_array("content"@) {
        lemma_blocks_close(blocks, ids);
    }
    lemma_thinking_closes(
        ids,
        crate::openai_codec::item_reasoning_text(item),
        item.get_str("encrypted_content"@),
    );
    let name = crate::anthropic_stream::given_tool_name(item.get_str("name"@), names);
    let arguments = crate::openai_codec::arguments_text(item.get("arguments"@));
    lemma_call_closes(ids, ids.advanced().fresh(), name, arguments);
    if let Some(call_id) = crate::anthropic_codec::first_text(
        item.get_str("call_id"@),
        item.get_str("id"@),
    ) {
        lemma_call_closes(ids, call_id, name, arguments);
    }
}

proof fn lemma_items_close(items: Seq<JsonView>, names: Seq<ToolNames>, ids: IdsView)
    ensures
        closes(ids, items_said(items, names, ids)),
    decreases items.len(),
{
    lemma_nothing_closes(ids, ids);
    if items.len() > 0 {
        lemma_items_close(items.drop_last(), names, ids);
        let before = items_said(items.drop_last(), names, ids);
        lemma_item_closes(items.last(), names, before.ids);
        lemma_closed_append(ids, before, item_said(items.last(), names, before.ids));
    }
}

/// A whole Responses reply closes every block that it opens, and opens none twice.
pub proof fn law_responses_reply_is_closed(
    request: ProviderRequest,
    response: JsonView,
    ids: IdsView,
)
    ensures
        all_closed(reply_said(request, response, ids).events),
{
    let names = tool_names(request.tools@, request.model.provider_kind);
    let start = if crate::openai_codec::reply_message_id(response) is Some {
        ids
    } else {
        ids.advanced()
    };
    let items = crate::openai_codec::reply_items(response);
    lemma_items_close(items, names, start);
    let said = reply_said(request, response, ids).events;
    let content = items_said(items, names, start);
    assert(said.subrange(1, said.len() - 2) =~= content.events);
    lemma_message_closes(start, content, said);
}

proof fn lemma_chat_calls_close(calls: Seq<JsonView>, names: Seq<ToolNames>, ids: IdsView)
    ensures
        closes(ids, chat_calls_said(calls, names, ids)),
    decreases calls.len(),
{
    lemma_nothing_closes(ids, ids);
    if calls.len() > 0 {
        lemma_chat_calls_close(calls.drop_last(), names, ids);
        let before = chat_calls_said(calls.drop_last(), names, ids);
        let said = chat_call_said(calls.last(), names, before.ids);
        lemma_call_closes(
            before.ids,
            said.events[0]->tool_call_id,
            said.events[0]->name,
            said.events[1]->ToolArgsDelta_delta,
        );
        lemma_closed_append(ids, before, said);
    }
}

/// A whole chat reply that can be read closes every block that it opens, and opens
/// none twice.
pub proof fn law_chat_reply_is_closed(request: ProviderRequest, response: JsonView, ids: IdsView)
    ensures
        match chat_said(request, response, ids) {
            Ok(said) => all_closed(said.events),
            Err(_) => true,
        },
{
    if let Ok(reply) = chat_said(request, response, ids) {
        let names = tool_names(request.tools@, request.model.provider_kind);
        let start = if response.get_str("id"@) is Some {
            ids
        } else {
            ids.advanced()
        };
        let choice = crate::openai_chat::first_choice(response)->0;
        let message = choice.get("message"@)->0;
        let calls = match message.get_array("tool_calls"@) {
            Some(calls) => calls,
            None => Seq::empty(),
        };
        lemma_chat_calls_close(calls, names, start);
        lemma_chat_calls_close(calls, names, start.advanced());
        if let Some(text) = crate::openai_chat::chat_content(message.get("content"@)) {
            lemma_text_closes(start, text);
            lemma_closed_append(
                start,
                Said { events: whole_text(start.fresh(), text), ids: start.advanced() },
                chat_calls_said(calls, names, start.advanced()),
            );
        }
        let said = reply.events;
        let content = chat_body_said(message, names, start);
        assert(said.subrange(1, said.len() - 2) =~= content.events);
        lemma_message_closes(start, content, said);
    }
}

/// What is gathered from a run of events, or the error that ended it.
pub open spec fn collected_all(collector: CollectorView, events: Seq<EventView>) -> Result<
    CollectorView,
    crate::protocol::ErrorView,
>
    decreases events.len(),
{
    if events.len() == 0 {
        Ok(collector)
    } else {
        match collected_all(collector, events.drop_last()) {
            Ok(before) => collected(before, events.last()),
            Err(error) => Err(error),
        }
    }
}

/// Whoever gathers the echoing provider's stream has the echo, and no tool call.
pub proof fn law_echo_is_collected(ids: IdsView, reply: Seq<char>, messages: nat)
    ensures
        match collected_all(nothing_collected(), reply_events(ids, reply, messages)) {
            Ok(gathered) => finished(gathered) == (CollectedView {
                text: reply,
                tool_calls: Seq::empty(),
            }),
            Err(_) => false,
        },
{
    let events = reply_events(ids, reply, messages);
    reveal_with_fuel(collected_all, 8);
    assert(events.len() == 6);
    let e5 = events.drop_last();
    let e4 = e5.drop_last();
    let e3 = e4.drop_last();
    let e2 = e3.drop_last();
    let e1 = e2.drop_last();
    assert(e1.drop_last() =~= Seq::empty());
    let gathered = collected_all(nothing_collected(), events)->Ok_0;
    assert(gathered.text =~= reply);
    assert(finished(gathered).tool_calls =~= Seq::empty());
}

// ---------------------------------------------------------------------------
// What whole replies are told as

/// A block of a whole Anthropic reply is told as what it is: a text as a text,
/// thinking with its signature, a tool call under the identifier that its result has
/// to answer, with its tool's name and its arguments as JSON text.
pub proof fn law_anthropic_block_is_told(
    block: JsonView,
    names: Seq<ToolNames>,
    ids: IdsView,
    text: Seq<char>,
    call_id: Seq<char>,
    name: Seq<char>,
    input: JsonView,
)
    ensures
        ({
            let kind = block.get_str("type"@);
            let said = content_block_said(block, names, ids).events;
            let id = ids.fresh();
            &&& kind == Some("text"@) && block.get_str("text"@) == Some(text) ==> said == seq![
                EventView::TextStart { id },
                EventView::TextDelta { id, delta: text },
                EventView::TextEnd { id },
            ]
            &&& kind == Some("thinking"@) && block.get_str("thinking"@) == Some(text) ==> said
                == seq![
                EventView::ThinkingStart { id },
                EventView::ThinkingDelta { id, delta: text },
                EventView::ThinkingEnd { id, signature: block.get_str("signature"@) },
            ]
            &&& kind == Some("tool_use"@) && block.get_str("id"@) == Some(call_id)
                && block.get_str("name"@) == Some(name) && block.get("input"@) == Some(input)
                ==> said == seq![
                EventView::ToolCallStart {
                    id,
                    tool_call_id: call_id,
                    name: canonical_name(name, names),
                },
                EventView::ToolArgsDelta { id, delta: json_text(input) },
                EventView::ToolCallEnd { id },
            ]
            &&& kind != Some("text"@) && kind != Some("thinking"@) && kind != Some("tool_use"@)
                ==> said.len() == 0
        }),
{
    reveal_strlit("text");
    reveal_strlit("thinking");
    reveal_strlit("tool_use");
    assert("text"@.len() == 4);
    assert("thinking"@.len() == 8);
    assert("tool_use"@.len() == 8);
    assert("thinking"@[1] != "tool_use"@[1]);
}

/// Blocks of a whole Anthropic reply are told one after another.
pub proof fn law_anthropic_blocks_are_told_in_order(
    blocks: Seq<JsonView>,
    block: JsonView,
    names: Seq<ToolNames>,
    ids: IdsView,
)
    ensures
        content_said(Seq::empty(), names, ids).events.len() == 0,
        ({
            let before = content_said(blocks, names, ids);
            content_said(blocks.push(block), names, ids).events == before.events
                + content_block_said(block, names, before.ids).events
        }),
{
    assert(blocks.push(block).drop_last() =~= blocks);
}

/// A whole Anthropic reply is told as its message: opened under the reply's
/// identifier, its blocks, its token counts, and why it stopped.
pub proof fn law_anthropic_reply_is_told(
    request: ProviderRequest,
    response: JsonView,
    ids: IdsView,
    id: Seq<char>,
    blocks: Seq<JsonView>,
)
    requires
        response.get_str("id"@) == Some(id),
        response.get_array("content"@) == Some(blocks),
    ensures
        ({
            let names = tool_names(request.tools@, request.model.provider_kind);
            let told = content_said(blocks, names, ids).events;
            let events = response_said(request, response, ids).events;
            let last = events.len() - 1;
            let usage = response.get("usage"@);
            let reason = response.get_str("stop_reason"@);
            &&& events.len() == told.len() + 3
            &&& events[0] == (EventView::MessageStart { id })
            &&& events.subrange(1, last - 1) == told
            &&& events[last - 1] is UsageUpdate
            &&& events[last - 1]->usage.input_tokens == counted(usage, "input_tokens"@)
            &&& events[last - 1]->usage.output_tokens == counted(usage, "output_tokens"@)
            &&& events[last - 1]->usage.cache_creation_input_tokens == counted(
                usage,
                "cache_creation_input_tokens"@,
            )
            &&& events[last - 1]->usage.cache_read_input_tokens == counted(
                usage,
                "cache_read_input_tokens"@,
            )
            &&& events[last] is MessageEnd
            &&& events[last]->MessageEnd_id == id
            &&& events[last]->response_id is None
            &&& reason == Some("max_tokens"@) ==> events[last]->stop_reason
                == StopReason::MaxTokens
            &&& reason == Some("tool_use"@) ==> events[last]->stop_reason == StopReason::ToolUse
            &&& reason == Some("pause_turn"@) ==> events[last]->stop_reason
                == StopReason::Interrupted
            &&& reason == Some("refusal"@) ==> events[last]->stop_reason == StopReason::Error
            &&& (reason is None || reason == Some("end_turn"@)) ==> events[last]->stop_reason
                == StopReason::EndTurn
        }),
{
    reveal_strlit("max_tokens");
    reveal_strlit("tool_use");
    reveal_strlit("pause_turn");
    reveal_strlit("refusal");
    reveal_strlit("end_turn");
    assert("max_tokens"@.len() == 10);
    assert("tool_use"@.len() == 8);
    assert("pause_turn"@.len() == 10);
    assert("refusal"@.len() == 7);
    assert("end_turn"@.len() == 8);
    assert("max_tokens"@[0] != "pause_turn"@[0]);
    assert("tool_use"@[0] != "end_turn"@[0]);
    let names = tool_names(request.tools@, request.model.provider_kind);
    let told = content_said(blocks, names, ids).events;
    let events = response_said(request, response, ids).events;
    assert(events.subrange(1, events.len() - 2) =~= told);
}

/// A reply to a request for a summary is kept as one item with its texts, line by
/// line, and its token counts; a reply without any text leaves nothing.
pub proof fn law_anthropic_summary_is_kept(response: JsonView, blocks: Seq<JsonView>)
    requires
        response.get_array("content"@) == Some(blocks),
    ensures
        ({
            let text = joined(reply_texts(blocks), "\n"@);
            let kept = compacted(response);
            let usage = response.get("usage"@);
            &&& trimmed(text).len() == 0 ==> kept.output.len() == 0
            &&& trimmed(text).len() > 0 ==> kept.output.len() == 1 && kept.output[0].get_str(
                "type"@,
            ) == Some("halter_compacted_context"@) && kept.output[0].get_str("text"@) == Some(text)
            &&& kept.usage.input_tokens == counted(usage, "input_tokens"@)
            &&& kept.usage.output_tokens == counted(usage, "output_tokens"@)
        }),
{
    reveal_strlit("type");
    reveal_strlit("text");
    assert("type"@.len() == 4);
    assert("text"@.len() == 4);
    assert("type"@[1] != "text"@[1]);
    let text = joined(reply_texts(blocks), "\n"@);
    assert(reply_text(response) == text);
    if trimmed(text).len() > 0 {
        lemma_member(compacted(response).output[0], 0, "type"@);
        lemma_member(compacted(response).output[0], 1, "text"@);
    }
}

/// Of a reply to a request for a summary, all texts count in their order, and nothing
/// else.
pub proof fn law_summary_has_every_text(blocks: Seq<JsonView>, block: JsonView)
    ensures
        reply_texts(Seq::empty()).len() == 0,
        reply_texts(blocks.push(block)) == if block.get_str("type"@) == Some("text"@)
            && block.get_str("text"@) is Some {
            reply_texts(blocks).push(block.get_str("text"@)->0)
        } else {
            reply_texts(blocks)
        },
{
    assert(blocks.push(block).drop_last() =~= blocks);
}

/// An item of a whole Responses reply is told as what it is: the texts of a message,
/// reasoning with what it is signed with, a call under the identifier that its result
/// has to answer, with its tool's name and its arguments.
pub proof fn law_responses_item_is_told(
    item: JsonView,
    names: Seq<ToolNames>,
    ids: IdsView,
    call_id: Seq<char>,
    name: Seq<char>,
    arguments: Seq<char>,
    blocks: Seq<JsonView>,
)
    ensures
        ({
            let kind = item.get_str("type"@);
            let said = item_said(item, names, ids).events;
            let id = ids.fresh();
            let thought = item_reasoning_text(item);
            &&& kind == Some("message"@) && item.get_array("content"@) == Some(blocks) ==> said
                == blocks_said(blocks, ids).events
            &&& kind == Some("reasoning"@) && thought.len() > 0 ==> said == seq![
                EventView::ThinkingStart { id },
                EventView::ThinkingDelta { id, delta: thought },
                EventView::ThinkingEnd { id, signature: item.get_str("encrypted_content"@) },
            ]
            &&& kind == Some("reasoning"@) && thought.len() == 0 ==> said.len() == 0
            &&& kind == Some("function_call"@) && item.get_str("call_id"@) == Some(call_id)
                && item.get_str("name"@) == Some(name) && item.get_str("arguments"@) == Some(
                arguments,
            ) ==> said == seq![
                EventView::ToolCallStart {
                    id,
                    tool_call_id: call_id,
                    name: canonical_name(name, names),
                },
                EventView::ToolArgsDelta { id, delta: arguments },
                EventView::ToolCallEnd { id },
            ]
            &&& kind != Some("message"@) && kind != Some("reasoning"@) && kind != Some(
                "function_call"@,
            ) ==> said.len() == 0
        }),
{
    reveal_strlit("message");
    reveal_strlit("reasoning");
    reveal_strlit("function_call");
    assert("message"@.len() == 7);
    assert("reasoning"@.len() == 9);
    assert("function_call"@.len() == 13);
}

/// Texts of a message and items of a reply are told one after another.
pub proof fn law_responses_items_are_told_in_order(
    items: Seq<JsonView>,
    item: JsonView,
    names: Seq<ToolNames>,
    ids: IdsView,
    text: Seq<char>,
)
    ensures
        items_said(Seq::empty(), names, ids).events.len() == 0,
        ({
            let before = items_said(items, names, ids);
            items_said(items.push(item), names, ids).events == before.events + item_said(
                item,
                names,
                before.ids,
            ).events
        }),
        blocks_said(Seq::empty(), ids).events.len() == 0,
        item.get_str("text"@) == Some(text) ==> {
            let before = blocks_said(items, ids);
            let id = before.ids.fresh();
            blocks_said(items.push(item), ids).events == before.events + seq![
                EventView::TextStart { id },
                EventView::TextDelta { id, delta: text },
                EventView::TextEnd { id },
            ]
        },
{
    assert(items.push(item).drop_last() =~= items);
}

/// A whole Responses reply is told as its message: opened, its items, its token
/// counts, and why it stopped, under the response's identifier.
pub proof fn law_responses_reply_is_told(
    request: ProviderRequest,
    response: JsonView,
    ids: IdsView,
    id: Seq<char>,
    items: Seq<JsonView>,
)
    requires
        reply_message_id(response) == Some(id),
        response.get_array("output"@) == Some(items),
    ensures
        ({
            let names = tool_names(request.tools@, request.model.provider_kind);
            let told = items_said(items, names, ids).events;
            let events = reply_said(request, response, ids).events;
            let last = events.len() - 1;
            let usage = response.get("usage"@);
            let called = exists|i: int|
                0 <= i < items.len() && (#[trigger] items[i]).get_str("type"@) == Some(
                    "function_call"@,
                );
            let given = response.get_str("id"@);
            &&& events.len() == told.len() + 3
            &&& events[0] == (EventView::MessageStart { id })
            &&& events.subrange(1, last - 1) == told
            &&& events[last - 1] is UsageUpdate
            &&& events[last - 1]->usage.input_tokens == counted(usage, "input_tokens"@)
            &&& events[last - 1]->usage.output_tokens == counted(usage, "output_tokens"@)
            &&& events[last] is MessageEnd
            &&& events[last]->MessageEnd_id == id
            &&& events[last]->stop_reason == stopped_for(
                called,
                response.get_in_str("incomplete_details"@, "reason"@),
            )
            &&& given is Some && given->0.len() > 0 ==> events[last]->response_id == given
            &&& given is None ==> events[last]->response_id is None
        }),
{
    let names = tool_names(request.tools@, request.model.provider_kind);
    let told = items_said(items, names, ids).events;
    let events = reply_said(request, response, ids).events;
    assert(events.subrange(1, events.len() - 2) =~= told);
    assert(has_call_item(items) == exists|i: int|
        0 <= i < items.len() && (#[trigger] items[i]).get_str("type"@) == Some("function_call"@));
}

/// Token counts of a Responses reply are read from its `usage`: those of the cache
/// from the details of the input.
pub proof fn law_responses_counts_are_read(response: JsonView, usage: JsonView, details: JsonView)
    requires
        response.get("usage"@) == Some(usage),
        usage.get("input_tokens_details"@) == Some(details),
    ensures
        openai_usage(response).input_tokens == counted(Some(usage), "input_tokens"@),
        openai_usage(response).output_tokens == counted(Some(usage), "output_tokens"@),
        openai_usage(response).cache_read_input_tokens == counted(Some(details), "cached_tokens"@),
        openai_usage(response).cache_creation_input_tokens == counted(
            Some(details),
            "cache_creation_tokens"@,
        ),
{
}

/// A reply's message goes by the identifier of the first message item that has one;
/// only without such an item is one made from the response's own.
pub proof fn law_responses_message_is_named(items: Seq<JsonView>, item: JsonView)
    ensures
        ({
            let before = crate::openai_codec::first_message_id(items);
            let after = crate::openai_codec::first_message_id(items.push(item));
            let id = item.get_str("id"@);
            &&& crate::openai_codec::first_message_id(Seq::empty()) is None
            &&& before is Some ==> after == before
            &&& before is None && item.get_str("type"@) == Some("message"@) && id is Some
                && is_message_item_id(id->0) ==> after == id
            &&& before is None && item.get_str("type"@) != Some("message"@) ==> after is None
        }),
{
    assert(items.push(item).drop_last() =~= items);
}

/// What OpenRouter's models sum up is kept as one message of the developer that holds
/// their texts between tags; without texts nothing is kept.
pub proof fn law_openrouter_summary_is_kept(output: Seq<JsonView>)
    ensures
        ({
            let text = joined(summary_texts(output), "\n\n"@);
            let kept = openrouter_summary(output);
            let content = kept[0].get_array("content"@);
            &&& text.len() == 0 ==> kept.len() == 0
            &&& text.len() > 0 ==> {
                &&& kept.len() == 1
                &&& kept[0].get_str("type"@) == Some("message"@)
                &&& kept[0].get_str("role"@) == Some("developer"@)
                &&& content is Some && content->0.len() == 1
                &&& content->0[0].get_str("type"@) == Some("input_text"@)
                &&& content->0[0].get_str("text"@) == Some(
                    "<compaction>\n"@ + text + "\n</compaction>"@,
                )
            }
        }),
{
    reveal_strlit("type");
    reveal_strlit("role");
    reveal_strlit("content");
    reveal_strlit("text");
    assert("type"@.len() == 4);
    assert("role"@.len() == 4);
    assert("content"@.len() == 7);
    assert("text"@.len() == 4);
    assert("type"@[0] != "role"@[0]);
    assert("type"@[1] != "text"@[1]);
    assert("role"@[0] != "text"@[0]);
    if joined(summary_texts(output), "\n\n"@).len() > 0 {
        let item = openrouter_summary(output)[0];
        lemma_member(item, 0, "type"@);
        lemma_member(item, 1, "role"@);
        lemma_member(item, 2, "content"@);
        let block = item.get_array("content"@)->0[0];
        lemma_member(block, 0, "type"@);
        lemma_member(block, 1, "text"@);
    }
}

/// Of what OpenRouter's models sum up, the texts of all messages count in their order.
pub proof fn law_openrouter_summary_has_every_message(output: Seq<JsonView>, item: JsonView)
    ensures
        summary_texts(Seq::empty()).len() == 0,
        item.get_str("type"@) != Some("message"@) ==> summary_texts(output.push(item))
            == summary_texts(output),
        item.get_str("type"@) == Some("message"@) && (item.get_array("content"@) matches Some(
            contents,
        ) && contents.len() == 1 && (contents[0].get_str("text"@) matches Some(text) && text.len()
            > 0)) ==> summary_texts(output.push(item)) == summary_texts(output).push(
            item.get_array("content"@)->0[0].get_str("text"@)->0,
        ),
{
    assert(output.push(item).drop_last() =~= output);
    if let Some(contents) = item.get_array("content"@) {
        if contents.len() == 1 {
            assert(contents.drop_last() =~= Seq::empty());
            assert(crate::openai_codec::contents_text(contents.drop_last()) =~= Seq::empty());
            if let Some(text) = contents[0].get_str("text"@) {
                assert(crate::openai_codec::contents_text(contents) =~= text);
            }
        }
    }
}

// ---------------------------------------------------------------------------
// Collecting a reply

proof fn lemma_latest_partial(partials: Seq<PartialView>, block: Seq<char>)
    ensures
        latest_partial(partials, block) matches Some(at) ==> 0 <= at < partials.len()
            && partials[at].block == block,
    decreases partials.len(),
{
    if partials.len() > 0 && partials.last().block != block {
        lemma_latest_partial(partials.drop_last(), block);
    }
}

/// Text is collected as it comes; a call with its identifier, name and arguments; an
/// error ends the collecting; nothing else counts.
pub proof fn law_reply_is_collected(collector: CollectorView, event: EventView)
    ensures
        ({
            let after = collected(collector, event);
            match event {
                EventView::TextDelta { id, delta } => after is Ok && after->Ok_0.text
                    == collector.text + delta && after->Ok_0.partials == collector.partials,
                EventView::ToolCallStart { id, tool_call_id, name } => {
                    &&& after is Ok && after->Ok_0.text == collector.text
                    &&& after->Ok_0.partials.len() == collector.partials.len() + 1
                    &&& after->Ok_0.partials.drop_last() == collector.partials
                    &&& after->Ok_0.partials.last().block == id
                    &&& after->Ok_0.partials.last().id == tool_call_id
                    &&& after->Ok_0.partials.last().name == name
                    &&& after->Ok_0.partials.last().arguments.len() == 0
                },
                EventView::ToolArgsDelta { id, delta } => {
                    &&& after is Ok && after->Ok_0.text == collector.text
                    &&& after->Ok_0.partials.len() == collector.partials.len()
                    &&& collector.partials.len() > 0 && collector.partials.last().block == id
                        ==> after->Ok_0.partials.last().arguments
                        == collector.partials.last().arguments + delta
                        && after->Ok_0.partials.last().id == collector.partials.last().id
                        && after->Ok_0.partials.last().name == collector.partials.last().name
                        && after->Ok_0.partials.drop_last() == collector.partials.drop_last()
                },
                EventView::Error { error } => after == Err::<
                    CollectorView,
                    crate::protocol::ErrorView,
                >(error),
                _ => after == Ok::<CollectorView, crate::protocol::ErrorView>(collector),
            }
        }),
{
    match event {
        EventView::ToolCallStart { id, tool_call_id, name } => {
            let after = collected(collector, event)->Ok_0;
            let begun = PartialView { block: id, id: tool_call_id, name, arguments: Seq::empty() };
            assert(after.partials == collector.partials.push(begun));
            assert(after.partials.drop_last() =~= collector.partials);
            assert(after.partials.last() == begun);
        },
        EventView::ToolArgsDelta { id, delta } => {
            lemma_latest_partial(collector.partials, id);
            if collector.partials.len() > 0 && collector.partials.last().block == id {
                assert(latest_partial(collector.partials, id) == Some(
                    collector.partials.len() - 1,
                ));
                assert(collected(collector, event)->Ok_0.partials.drop_last()
                    =~= collector.partials.drop_last());
            }
        },
        _ => {},
    }
}

/// What was collected is given back: all text, and all calls in their order, with
/// their arguments read as JSON. Arguments that say nothing are an empty object, and
/// those that are no JSON are kept as they are.
pub proof fn law_collected_reply_is_given_back(collector: CollectorView, at: int)
    requires
        0 <= at < collector.partials.len(),
    ensures
        ({
            let whole = finished(collector);
            let partial = collector.partials[at];
            let raw = partial.arguments;
            let read = json_parsed(trimmed(raw));
            let arguments = whole.tool_calls[at].arguments;
            &&& whole.text == collector.text
            &&& whole.tool_calls.len() == collector.partials.len()
            &&& whole.tool_calls[at].id == partial.id
            &&& whole.tool_calls[at].name == partial.name
            &&& trimmed(raw).len() == 0 ==> arguments == JsonView::Object(Seq::empty())
            &&& trimmed(raw).len() > 0 && read is Some ==> arguments == read->0
            &&& trimmed(raw).len() > 0 && read is None ==> arguments.get_str("_raw"@) == Some(raw)
        }),
        nothing_collected().text.len() == 0,
        nothing_collected().partials.len() == 0,
{
    let raw = collector.partials[at].arguments;
    if trimmed(raw).len() > 0 && json_parsed(trimmed(raw)) is None {
        lemma_member(arguments_of(raw), 0, "_raw"@);
    }
}

/// The thoughts of an item are those of its summary, one to a line; where that says
/// nothing, those of its content.
pub proof fn law_reasoning_text_is_read(item: JsonView)
    ensures
        ({
            let summary = item.get_array("summary"@);
            let content = item.get_array("content"@);
            let short = if summary is Some {
                joined(entry_texts(summary->0, true), "\n"@)
            } else {
                Seq::empty()
            };
            let long = if content is Some {
                joined(entry_texts(content->0, false), "\n"@)
            } else {
                Seq::empty()
            };
            &&& short.len() > 0 ==> item_reasoning_text(item) == short
            &&& short.len() == 0 ==> item_reasoning_text(item) == long
        }),
{
}

/// Entries are read by their text; where bare texts are allowed, those are read too.
pub proof fn law_entries_are_read_in_order(entries: Seq<JsonView>, entry: JsonView, bare: bool)
    ensures
        ({
            let before = entry_texts(entries, bare);
            let after = entry_texts(entries.push(entry), bare);
            let text = entry.get_str("text"@);
            &&& entry_texts(Seq::empty(), bare).len() == 0
            &&& text is Some ==> after == before.push(text->0)
            &&& text is None && bare && entry is Text ==> after == before.push(entry->Text_0)
            &&& text is None && !(bare && entry is Text) ==> after == before
        }),
{
    assert(entries.push(entry).drop_last() =~= entries);
}

/// Every part of a message that has words is told as a text of its own.
pub proof fn law_message_parts_are_told_in_order(
    blocks: Seq<JsonView>,
    block: JsonView,
    ids: IdsView,
)
    ensures
        ({
            let before = blocks_said(blocks, ids);
            let after = blocks_said(blocks.push(block), ids);
            let text = block.get_str("text"@);
            let other = block.get_str("output_text"@);
            let id = before.ids.fresh();
            &&& blocks_said(Seq::empty(), ids).events.len() == 0
            &&& text is Some ==> after.events == before.events + seq![
                EventView::TextStart { id },
                EventView::TextDelta { id, delta: text->0 },
                EventView::TextEnd { id },
            ] && after.ids == before.ids.advanced()
            &&& text is None && other is Some ==> after.events == before.events + seq![
                EventView::TextStart { id },
                EventView::TextDelta { id, delta: other->0 },
                EventView::TextEnd { id },
            ] && after.ids == before.ids.advanced()
            &&& text is None && other is None ==> after == before
        }),
{
    assert(blocks.push(block).drop_last() =~= blocks);
}

/// A reply without a message of its own is named after the response; one without a name
/// of any kind gets a new one.
pub proof fn law_reply_is_named_after_its_response(
    request: ProviderRequest,
    response: JsonView,
    ids: IdsView,
)
    ensures
        ({
            let items = response.get_array("output"@);
            let given = response.get_str("id"@);
            let unnamed = items is None || first_message_id(items->0) is None;
            &&& items is Some && first_message_id(items->0) is Some ==> reply_message_id(response)
                == first_message_id(items->0)
            &&& unnamed && given is Some && given->0.len() > 0 ==> reply_message_id(response)
                == Some(synthesized_message_id(given->0))
            &&& unnamed && (given is None || given->0.len() == 0) ==> {
                &&& reply_message_id(response) is None
                &&& reply_said(request, response, ids).events[0] == (EventView::MessageStart {
                    id: ids.fresh(),
                })
            }
        }),
{
}

/// The name that a call goes by: that of the tool it was made under, and `tool` where
/// none is given.
pub open spec fn goes_by(name: Option<Seq<char>>, names: Seq<ToolNames>) -> Seq<char> {
    if name is Some {
        canonical_name(name->0, names)
    } else {
        "tool"@
    }
}

/// A call is told in three events: its start, under the identifier and the name, its
/// arguments and its end.
pub open spec fn tells_call(
    events: Seq<EventView>,
    id: Seq<char>,
    call_id: Seq<char>,
    name: Seq<char>,
    arguments: Seq<char>,
) -> bool {
    &&& events.len() == 3
    &&& events[0] == (EventView::ToolCallStart { id, tool_call_id: call_id, name })
    &&& events[1] == (EventView::ToolArgsDelta { id, delta: arguments })
    &&& events[2] == (EventView::ToolCallEnd { id })
}

/// A call of the Messages API without an identifier gets a new one, one without a name is
/// called `tool`, and one without an input has an empty object for it.
pub proof fn law_anthropic_call_is_filled_in(block: JsonView, names: Seq<ToolNames>, ids: IdsView)
    requires
        block.get_str("type"@) == Some("tool_use"@),
    ensures
        ({
            let said = content_block_said(block, names, ids);
            let given = block.get_str("id"@);
            let input = if block.get("input"@) is Some {
                block.get("input"@)->0
            } else {
                JsonView::Object(Seq::empty())
            };
            let name = goes_by(block.get_str("name"@), names);
            &&& given is Some ==> tells_call(
                said.events,
                ids.fresh(),
                given->0,
                name,
                json_text(input),
            ) && said.ids == ids.advanced()
            &&& given is None ==> tells_call(
                said.events,
                ids.fresh(),
                ids.advanced().fresh(),
                name,
                json_text(input),
            ) && said.ids == ids.advanced().advanced()
        }),
{
    reveal_strlit("text");
    reveal_strlit("thinking");
    reveal_strlit("tool_use");
    assert("text"@.len() == 4);
    assert("thinking"@.len() == 8);
    assert("tool_use"@.len() == 8);
    assert("thinking"@[1] != "tool_use"@[1]);
}

/// Thoughts of the Messages API that come as a plain text are told all the same.
pub proof fn law_plain_thoughts_are_told(
    block: JsonView,
    names: Seq<ToolNames>,
    ids: IdsView,
    text: Seq<char>,
)
    requires
        block.get_str("type"@) == Some("thinking"@),
        block.get_str("thinking"@) is None,
    ensures
        ({
            let said = content_block_said(block, names, ids).events;
            let id = ids.fresh();
            &&& block.get_str("text"@) == Some(text) ==> said == seq![
                EventView::ThinkingStart { id },
                EventView::ThinkingDelta { id, delta: text },
                EventView::ThinkingEnd { id, signature: block.get_str("signature"@) },
            ]
            &&& block.get_str("text"@) is None ==> said.len() == 0
        }),
{
    reveal_strlit("text");
    reveal_strlit("thinking");
    reveal_strlit("tool_use");
    assert("text"@.len() == 4);
    assert("thinking"@.len() == 8);
    assert("tool_use"@.len() == 8);
    assert("thinking"@[1] != "tool_use"@[1]);
}

/// The arguments of a call are a text as it is, the JSON text of any other value, or the
/// text of an empty object where there are none.
pub proof fn law_arguments_are_made_a_text(value: JsonView)
    ensures
        value is Text ==> arguments_text(Some(value)) == value->Text_0,
        !(value is Text) ==> arguments_text(Some(value)) == json_text(value),
        arguments_text(None) == "{}"@,
{
}

/// A call of the Responses API goes by its call identifier, or else by that of its item,
/// or else by a new one; one without a name is called `tool`.
pub proof fn law_responses_call_is_filled_in(item: JsonView, names: Seq<ToolNames>, ids: IdsView)
    requires
        item.get_str("type"@) == Some("function_call"@),
    ensures
        ({
            let said = item_said(item, names, ids);
            let name = goes_by(item.get_str("name"@), names);
            let arguments = arguments_text(item.get("arguments"@));
            let own = item.get_str("call_id"@);
            let other = item.get_str("id"@);
            &&& own is Some ==> tells_call(said.events, ids.fresh(), own->0, name, arguments)
            &&& own is None && other is Some ==> tells_call(
                said.events,
                ids.fresh(),
                other->0,
                name,
                arguments,
            )
            &&& own is None && other is None ==> tells_call(
                said.events,
                ids.fresh(),
                ids.advanced().fresh(),
                name,
                arguments,
            ) && said.ids == ids.advanced().advanced()
        }),
{
    reveal_strlit("message");
    reveal_strlit("reasoning");
    reveal_strlit("function_call");
    assert("message"@.len() == 7);
    assert("reasoning"@.len() == 9);
    assert("function_call"@.len() == 13);
}

/// A call of the chat API is read from its function, or from itself where it has none;
/// without an identifier it gets a new one, and without a name it is called `tool`.
pub proof fn law_chat_call_is_filled_in(call: JsonView, names: Seq<ToolNames>, ids: IdsView)
    ensures
        ({
            let said = chat_call_said(call, names, ids);
            let function = if call.get("function"@) is Some {
                call.get("function"@)->0
            } else {
                call
            };
            let name = goes_by(function.get_str("name"@), names);
            let arguments = arguments_text(function.get("arguments"@));
            let given = call.get_str("id"@);
            &&& given is Some ==> tells_call(said.events, ids.fresh(), given->0, name, arguments)
                && said.ids == ids.advanced()
            &&& given is None ==> tells_call(
                said.events,
                ids.fresh(),
                ids.advanced().fresh(),
                name,
                arguments,
            ) && said.ids == ids.advanced().advanced()
        }),
{
}

/// A chat reply tells its words first, in a text of their own, and then its calls; one
/// without words tells its calls alone.
pub proof fn law_chat_words_come_before_calls(
    message: JsonView,
    names: Seq<ToolNames>,
    ids: IdsView,
    calls: Seq<JsonView>,
    text: Seq<char>,
)
    requires
        message.get_array("tool_calls"@) == Some(calls),
    ensures
        ({
            let said = chat_body_said(message, names, ids);
            let id = ids.fresh();
            let words = seq![
                EventView::TextStart { id },
                EventView::TextDelta { id, delta: text },
                EventView::TextEnd { id },
            ];
            &&& message.get_str("content"@) == Some(text) && text.len() > 0 ==> said.events == words
                + chat_calls_said(calls, names, ids.advanced()).events && said.ids
                == chat_calls_said(calls, names, ids.advanced()).ids
            &&& message.get("content"@) is None ==> said == chat_calls_said(calls, names, ids)
            &&& message.get_str("content"@) == Some(text) && text.len() == 0 ==> said
                == chat_calls_said(calls, names, ids)
        }),
{
}

} // verus!
