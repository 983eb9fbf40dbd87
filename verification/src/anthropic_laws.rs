//! Laws of the Anthropic stream decoder: what each event is told as, and what holds
//! over whole replies.

use vstd::prelude::*;

use crate::anthropic_stream::{
    block_continued, block_started, block_stopped, decoded, BlockView, Decoded, DecoderView,
};
use crate::brackets::{
    all_issued, bracketed, in_order, law_bracketed_is_in_order, lemma_bracketed_append,
    lemma_bracketed_one, lemma_bracketed_push, lemma_fresh_is_new, lemma_fresh_was_issued,
    lemma_issued_grows, was_issued, BlockState,
};
use crate::codec_common::canonical_name;
use crate::ids::IdsView;
use crate::json::{json_text, JsonView};
use crate::protocol::{EventView, StopReason};

verus! {

pub open spec fn block_id(block: BlockView) -> Seq<char> {
    match block {
        BlockView::Text { id } => id,
        BlockView::Thinking { id, .. } => id,
        BlockView::ToolUse { id } => id,
    }
}

pub open spec fn block_state(block: BlockView) -> BlockState {
    match block {
        BlockView::Text { .. } => BlockState::Text,
        BlockView::Thinking { .. } => BlockState::Thinking,
        BlockView::ToolUse { .. } => BlockState::Tool,
    }
}

/// The blocks that the decoder holds are open in the stream, each under an
/// identifier of its own.
pub open spec fn tracks(state: DecoderView, known: Map<Seq<char>, BlockState>) -> bool {
    &&& forall|i: u64| #[trigger]
        state.blocks.contains_key(i) ==> known.contains_pair(
            block_id(state.blocks[i]),
            block_state(state.blocks[i]),
        )
    &&& forall|i: u64, j: u64|
        #![trigger state.blocks[i], state.blocks[j]]
        state.blocks.contains_key(i) && state.blocks.contains_key(j) && i != j ==> block_id(
            state.blocks[i],
        ) != block_id(state.blocks[j])
}

/// The stream events that a whole reply turns into. An event that cannot be
/// read contributes none.
pub open spec fn reply_events(
    state: DecoderView,
    ids: IdsView,
    events: Seq<JsonView>,
) -> Seq<EventView>
    decreases events.len(),
{
    if events.len() == 0 {
        Seq::empty()
    } else {
        let step = decoded(state, ids, events[0]);
        let said = match step.events {
            Ok(said) => said,
            Err(_) => Seq::empty(),
        };
        said + reply_events(step.state, step.ids, events.drop_first())
    }
}

proof fn lemma_open_one(
    state: DecoderView,
    ids: IdsView,
    known: Map<Seq<char>, BlockState>,
    index: u64,
    block: BlockView,
    after: IdsView,
)
    requires
        tracks(state, known),
        all_issued(known, ids),
        block_id(block) == ids.fresh(),
        after.seed == ids.seed,
        after.issued >= ids.advanced().issued,
    ensures
        !known.contains_key(ids.fresh()),
        tracks(
            DecoderView { blocks: state.blocks.insert(index, block), ..state },
            known.insert(ids.fresh(), block_state(block)),
        ),
        all_issued(known.insert(ids.fresh(), block_state(block)), after),
{
    let fresh = ids.fresh();
    if known.contains_key(fresh) {
        lemma_fresh_is_new(ids, fresh);
    }
    let next = DecoderView { blocks: state.blocks.insert(index, block), ..state };
    let more = known.insert(fresh, block_state(block));
    assert forall|i: u64| #[trigger] next.blocks.contains_key(i) implies more.contains_pair(
        block_id(next.blocks[i]),
        block_state(next.blocks[i]),
    ) by {
        if i != index {
            assert(state.blocks.contains_key(i));
        }
    }
    assert forall|i: u64, j: u64|
        #![trigger next.blocks[i], next.blocks[j]]
        next.blocks.contains_key(i) && next.blocks.contains_key(j) && i != j implies block_id(
        next.blocks[i],
    ) != block_id(next.blocks[j]) by {
        if i != index {
            assert(state.blocks.contains_key(i));
        }
        if j != index {
            assert(state.blocks.contains_key(j));
        }
    }
    assert forall|id: Seq<char>| #[trigger] more.contains_key(id) implies was_issued(after, id) by {
        if id == fresh {
            lemma_fresh_was_issued(ids);
            lemma_issued_grows(ids.advanced(), after, fresh);
        } else {
            assert(known.contains_key(id));
            lemma_issued_grows(ids, after, id);
        }
    }
}

/// What one event said.
pub open spec fn said_by(step: Decoded) -> Seq<EventView> {
    match step.events {
        Ok(said) => said,
        Err(_) => Seq::empty(),
    }
}

/// The stream stays well bracketed over one step, and the decoder keeps track
/// of it.
pub open spec fn keeps_brackets(
    ids: IdsView,
    known: Map<Seq<char>, BlockState>,
    step: Decoded,
) -> bool {
    let after = bracketed(known, said_by(step));
    &&& after is Some
    &&& tracks(step.state, after->0)
    &&& all_issued(after->0, step.ids)
    &&& step.ids.seed == ids.seed
    &&& ids.issued <= step.ids.issued
}

proof fn lemma_nothing_said(
    state: DecoderView,
    ids: IdsView,
    known: Map<Seq<char>, BlockState>,
    step: Decoded,
)
    requires
        tracks(state, known),
        all_issued(known, ids),
        step.state.blocks == state.blocks,
        step.ids.seed == ids.seed,
        ids.issued <= step.ids.issued,
        said_by(step).len() <= 1,
        said_by(step).len() == 1 ==> {
            let event = said_by(step)[0];
            event is MessageStart || event is UsageUpdate || event is MessageEnd || event is Error
        },
    ensures
        keeps_brackets(ids, known, step),
{
    assert forall|id: Seq<char>| #[trigger] known.contains_key(id) implies was_issued(
        step.ids,
        id,
    ) by {
        lemma_issued_grows(ids, step.ids, id);
    }
    if said_by(step).len() == 0 {
        assert(bracketed(known, said_by(step)) == Some(known));
    } else {
        assert(said_by(step) =~= seq![said_by(step)[0]]);
        lemma_bracketed_one(known, said_by(step)[0]);
    }
    assert forall|i: u64, j: u64|
        #![trigger step.state.blocks[i], step.state.blocks[j]]
        step.state.blocks.contains_key(i) && step.state.blocks.contains_key(j) && i
            != j implies block_id(step.state.blocks[i]) != block_id(step.state.blocks[j]) by {
        assert(block_id(state.blocks[i]) != block_id(state.blocks[j]));
    }
}

proof fn lemma_start_keeps(
    state: DecoderView,
    ids: IdsView,
    known: Map<Seq<char>, BlockState>,
    event: JsonView,
)
    requires
        tracks(state, known),
        all_issued(known, ids),
    ensures
        keeps_brackets(ids, known, block_started(state, ids, event)),
{
    let step = block_started(state, ids, event);
    let said = said_by(step);
    match event.get_u64("index"@) {
        None => {
            lemma_nothing_said(state, ids, known, step);
        },
        Some(index) => {
            if said.len() == 0 {
                lemma_nothing_said(state, ids, known, step);
            } else {
                let block = step.state.blocks[index];
                lemma_open_one(state, ids, known, index, block, step.ids);
                lemma_bracketed_one(known, said[0]);
                if said.len() == 1 {
                    assert(said =~= seq![said[0]]);
                } else {
                    assert(said =~= seq![said[0]].push(said[1]));
                    lemma_bracketed_push(known, seq![said[0]], said[1]);
                }
            }
        },
    }
}

proof fn lemma_delta_keeps(
    state: DecoderView,
    ids: IdsView,
    known: Map<Seq<char>, BlockState>,
    event: JsonView,
)
    requires
        tracks(state, known),
        all_issued(known, ids),
    ensures
        keeps_brackets(ids, known, block_continued(state, ids, event)),
{
    let step = block_continued(state, ids, event);
    let said = said_by(step);
    match event.get_u64("index"@) {
        Some(index) if state.blocks.contains_key(index) => {
            let block = state.blocks[index];
            assert(block_id(step.state.blocks[index]) == block_id(block));
            assert(block_state(step.state.blocks[index]) == block_state(block));
            assert forall|i: u64| #[trigger]
                step.state.blocks.contains_key(i) implies known.contains_pair(
                block_id(step.state.blocks[i]),
                block_state(step.state.blocks[i]),
            ) by {
                assert(state.blocks.contains_key(i));
            }
            assert forall|i: u64, j: u64|
                #![trigger step.state.blocks[i], step.state.blocks[j]]
                step.state.blocks.contains_key(i) && step.state.blocks.contains_key(j) && i
                    != j implies block_id(step.state.blocks[i]) != block_id(
                step.state.blocks[j],
            ) by {
                assert(block_id(state.blocks[i]) != block_id(state.blocks[j]));
            }
            if said.len() == 0 {
                assert(bracketed(known, said) == Some(known));
            } else {
                assert(said =~= seq![said[0]]);
                lemma_bracketed_one(known, said[0]);
            }
        },
        _ => {
            lemma_nothing_said(state, ids, known, step);
        },
    }
}

proof fn lemma_stop_keeps(
    state: DecoderView,
    ids: IdsView,
    known: Map<Seq<char>, BlockState>,
    event: JsonView,
)
    requires
        tracks(state, known),
        all_issued(known, ids),
    ensures
        keeps_brackets(ids, known, block_stopped(state, ids, event)),
{
    let step = block_stopped(state, ids, event);
    let said = said_by(step);
    match event.get_u64("index"@) {
        Some(index) if state.blocks.contains_key(index) => {
            let block = state.blocks[index];
            assert(said =~= seq![said[0]]);
            lemma_bracketed_one(known, said[0]);
            let after = known.insert(block_id(block), BlockState::Closed);
            assert(bracketed(known, said) == Some(after));
            assert forall|i: u64| #[trigger]
                step.state.blocks.contains_key(i) implies after.contains_pair(
                block_id(step.state.blocks[i]),
                block_state(step.state.blocks[i]),
            ) by {
                assert(state.blocks.contains_key(i));
                assert(block_id(state.blocks[i]) != block_id(state.blocks[index]));
            }
            assert forall|i: u64, j: u64|
                #![trigger step.state.blocks[i], step.state.blocks[j]]
                step.state.blocks.contains_key(i) && step.state.blocks.contains_key(j) && i
                    != j implies block_id(step.state.blocks[i]) != block_id(
                step.state.blocks[j],
            ) by {
                assert(block_id(state.blocks[i]) != block_id(state.blocks[j]));
            }
        },
        _ => {
            lemma_nothing_said(state, ids, known, step);
        },
    }
}

/// One event keeps the stream well bracketed: a block is opened under a new
/// identifier, and continued or closed only while it is open; none is opened again.
pub proof fn law_event_is_bracketed(
    state: DecoderView,
    ids: IdsView,
    known: Map<Seq<char>, BlockState>,
    event: JsonView,
)
    requires
        tracks(state, known),
        all_issued(known, ids),
    ensures
        keeps_brackets(ids, known, decoded(state, ids, event)),
{
    let step = decoded(state, ids, event);
    lemma_start_keeps(state, ids, known, event);
    lemma_delta_keeps(state, ids, known, event);
    lemma_stop_keeps(state, ids, known, event);
    if step == block_started(state, ids, event) {
    } else if step == block_continued(state, ids, event) {
    } else if step == block_stopped(state, ids, event) {
    } else {
        lemma_nothing_said(state, ids, known, step);
    }
}

/// A whole reply is well bracketed.
pub proof fn law_reply_is_bracketed(
    state: DecoderView,
    ids: IdsView,
    known: Map<Seq<char>, BlockState>,
    events: Seq<JsonView>,
)
    requires
        tracks(state, known),
        all_issued(known, ids),
    ensures
        bracketed(known, reply_events(state, ids, events)) is Some,
    decreases events.len(),
{
    if events.len() > 0 {
        let step = decoded(state, ids, events[0]);
        law_event_is_bracketed(state, ids, known, events[0]);
        let after = bracketed(known, said_by(step))->0;
        law_reply_is_bracketed(step.state, step.ids, after, events.drop_first());
        lemma_bracketed_append(
            known,
            said_by(step),
            reply_events(step.state, step.ids, events.drop_first()),
        );
    }
}

/// Of everything that a decoder ever tells of one reply: each block is opened once
/// under an identifier of its own, added to and closed only while it is open, and
/// closed once at most.
pub proof fn law_reply_is_in_order(state: DecoderView, ids: IdsView, events: Seq<JsonView>)
    requires
        state.blocks == Map::<u64, BlockView>::empty(),
    ensures
        in_order(reply_events(state, ids, events)),
{
    law_reply_is_bracketed(state, ids, Map::empty(), events);
    law_bracketed_is_in_order(reply_events(state, ids, events));
}

/// A fresh decoder holds no block, so its reply starts with none open.
pub proof fn law_fresh_decoder_tracks_nothing(state: DecoderView, ids: IdsView)
    requires
        state.blocks == Map::<u64, BlockView>::empty(),
    ensures
        tracks(state, Map::empty()),
        all_issued(Map::empty(), ids),
{
}

// ---------------------------------------------------------------------------
// What events are told as

/// The event's type is that.
pub open spec fn is_a(event: JsonView, name: Seq<char>) -> bool {
    event.get_str("type"@) == Some(name)
}

proof fn lemma_event_types_differ()
    ensures
        "message_start"@.len() == 13,
        "content_block_start"@.len() == 19,
        "content_block_delta"@.len() == 19,
        "content_block_stop"@.len() == 18,
        "message_delta"@.len() == 13,
        "message_stop"@.len() == 12,
        "error"@.len() == 5,
        "message_start"@ != "message_delta"@,
        "content_block_start"@ != "content_block_delta"@,
{
    reveal_strlit("message_start");
    reveal_strlit("content_block_start");
    reveal_strlit("content_block_delta");
    reveal_strlit("content_block_stop");
    reveal_strlit("message_delta");
    reveal_strlit("message_stop");
    reveal_strlit("error");
    assert("message_start"@.len() == 13);
    assert("content_block_start"@.len() == 19);
    assert("content_block_delta"@.len() == 19);
    assert("content_block_stop"@.len() == 18);
    assert("message_delta"@.len() == 13);
    assert("message_stop"@.len() == 12);
    assert("error"@.len() == 5);
    assert("message_start"@[8] != "message_delta"@[8]);
    assert("content_block_start"@[14] != "content_block_delta"@[14]);
}

/// What a decoder knows after some events.
pub open spec fn state_after(state: DecoderView, ids: IdsView, events: Seq<JsonView>) -> (
    DecoderView,
    IdsView,
)
    decreases events.len(),
{
    if events.len() == 0 {
        (state, ids)
    } else {
        let step = decoded(state, ids, events[0]);
        state_after(step.state, step.ids, events.drop_first())
    }
}

proof fn lemma_reason_stays(state: DecoderView, ids: IdsView, events: Seq<JsonView>)
    requires
        forall|i: int| 0 <= i < events.len() ==> !is_a(#[trigger] events[i], "message_delta"@),
    ensures
        state_after(state, ids, events).0.stop_reason == state.stop_reason,
    decreases events.len(),
{
    if events.len() > 0 {
        assert(!is_a(events[0], "message_delta"@));
        let step = decoded(state, ids, events[0]);
        let rest = events.drop_first();
        assert forall|i: int| 0 <= i < rest.len() implies !is_a(
            #[trigger] rest[i],
            "message_delta"@,
        ) by {
            assert(!is_a(events[i + 1], "message_delta"@));
        }
        lemma_reason_stays(step.state, step.ids, rest);
    }
}

/// A reply ends for the reason that it was last told: `end_turn` and whatever else is
/// not known is the end of the turn, `max_tokens` is want of tokens, `tool_use` is a
/// tool call, `pause_turn` is an interruption and `refusal` is an error.
pub proof fn law_reply_ends_for_its_reason(
    state: DecoderView,
    ids: IdsView,
    delta: JsonView,
    between: Seq<JsonView>,
    stop: JsonView,
    reason: Seq<char>,
)
    requires
        is_a(delta, "message_delta"@),
        delta.get_in_str("delta"@, "stop_reason"@) == Some(reason),
        forall|i: int| 0 <= i < between.len() ==> !is_a(#[trigger] between[i], "message_delta"@),
        is_a(stop, "message_stop"@),
    ensures
        ({
            let first = decoded(state, ids, delta);
            let (later, left) = state_after(first.state, first.ids, between);
            let told = decoded(later, left, stop).events;
            &&& told is Ok && told->Ok_0.len() == 1
            &&& told->Ok_0[0] is MessageEnd
            &&& told->Ok_0[0]->response_id is None
            &&& later.message_id is Some ==> told->Ok_0[0]->MessageEnd_id == later.message_id->0
            &&& reason == "end_turn"@ ==> told->Ok_0[0]->stop_reason == StopReason::EndTurn
            &&& reason == "max_tokens"@ ==> told->Ok_0[0]->stop_reason == StopReason::MaxTokens
            &&& reason == "tool_use"@ ==> told->Ok_0[0]->stop_reason == StopReason::ToolUse
            &&& reason == "pause_turn"@ ==> told->Ok_0[0]->stop_reason == StopReason::Interrupted
            &&& reason == "refusal"@ ==> told->Ok_0[0]->stop_reason == StopReason::Error
            &&& reason != "max_tokens"@ && reason != "tool_use"@ && reason != "pause_turn"@
                && reason != "refusal"@ ==> told->Ok_0[0]->stop_reason == StopReason::EndTurn
        }),
{
    lemma_event_types_differ();
    reveal_strlit("end_turn");
    reveal_strlit("max_tokens");
    reveal_strlit("tool_use");
    reveal_strlit("pause_turn");
    reveal_strlit("refusal");
    assert("end_turn"@.len() == 8);
    assert("max_tokens"@.len() == 10);
    assert("tool_use"@.len() == 8);
    assert("pause_turn"@.len() == 10);
    assert("refusal"@.len() == 7);
    assert("end_turn"@[0] != "tool_use"@[0]);
    assert("max_tokens"@[0] != "pause_turn"@[0]);
    let first = decoded(state, ids, delta);
    lemma_reason_stays(first.state, first.ids, between);
}

/// A reply that was told no reason ends as its turn's end, where its decoder is fresh.
pub proof fn law_reply_without_a_reason_ends_its_turn(
    state: DecoderView,
    ids: IdsView,
    events: Seq<JsonView>,
    stop: JsonView,
)
    requires
        state.stop_reason == StopReason::EndTurn,
        forall|i: int| 0 <= i < events.len() ==> !is_a(#[trigger] events[i], "message_delta"@),
        is_a(stop, "message_stop"@),
    ensures
        ({
            let (later, left) = state_after(state, ids, events);
            let told = decoded(later, left, stop).events;
            told is Ok && told->Ok_0.len() == 1 && told->Ok_0[0] is MessageEnd
                && told->Ok_0[0]->stop_reason == StopReason::EndTurn
        }),
{
    lemma_event_types_differ();
    lemma_reason_stays(state, ids, events);
}

/// A count that an object has under that name, or none.
pub open spec fn counted(object: Option<JsonView>, key: Seq<char>) -> u64 {
    if object is Some && object->0.get_u64(key) is Some {
        object->0.get_u64(key)->0
    } else {
        0
    }
}

/// A message begins under the identifier that the API gave it, and its token counts
/// are the ones it begins with.
pub proof fn law_message_begins_as_given(
    state: DecoderView,
    ids: IdsView,
    event: JsonView,
    message: JsonView,
    id: Seq<char>,
)
    requires
        is_a(event, "message_start"@),
        event.get("message"@) == Some(message),
        message.get_str("id"@) == Some(id),
    ensures
        ({
            let step = decoded(state, ids, event);
            let usage = message.get("usage"@);
            &&& step.events == Ok::<Seq<EventView>, Seq<char>>(seq![EventView::MessageStart { id }])
            &&& step.ids == ids
            &&& step.state.message_id == Some(id)
            &&& step.state.usage.input_tokens == counted(usage, "input_tokens"@)
            &&& step.state.usage.output_tokens == counted(usage, "output_tokens"@)
            &&& step.state.usage.cache_creation_input_tokens == counted(
                usage,
                "cache_creation_input_tokens"@,
            )
            &&& step.state.usage.cache_read_input_tokens == counted(
                usage,
                "cache_read_input_tokens"@,
            )
            &&& step.state.blocks == state.blocks
        }),
{
    lemma_event_types_differ();
}

/// A change of the message is told as token counts: the output tokens that it names,
/// and all other counts as they were.
pub proof fn law_counts_are_told_as_they_grow(state: DecoderView, ids: IdsView, event: JsonView)
    requires
        is_a(event, "message_delta"@),
    ensures
        ({
            let step = decoded(state, ids, event);
            let named = event.get_in("usage"@, "output_tokens"@);
            &&& step.events == Ok::<Seq<EventView>, Seq<char>>(
                seq![EventView::UsageUpdate { usage: step.state.usage }],
            )
            &&& step.state.usage.input_tokens == state.usage.input_tokens
            &&& step.state.usage.cache_creation_input_tokens
                == state.usage.cache_creation_input_tokens
            &&& step.state.usage.cache_read_input_tokens == state.usage.cache_read_input_tokens
            &&& step.state.usage.output_tokens == if named is Some && named->0.as_u64() is Some {
                named->0.as_u64()->0
            } else {
                state.usage.output_tokens
            }
            &&& step.state.message_id == state.message_id
            &&& step.state.blocks == state.blocks
        }),
{
    lemma_event_types_differ();
}

/// A text block begins with the text that came with it.
pub proof fn law_text_block_begins(
    state: DecoderView,
    ids: IdsView,
    event: JsonView,
    index: u64,
    block: JsonView,
)
    requires
        is_a(event, "content_block_start"@),
        event.get_u64("index"@) == Some(index),
        event.get("content_block"@) == Some(block),
        is_a(block, "text"@),
    ensures
        ({
            let step = decoded(state, ids, event);
            let id = ids.fresh();
            let text = block.get_str("text"@);
            &&& step.events == Ok::<Seq<EventView>, Seq<char>>(
                if text is Some && text->0.len() > 0 {
                    seq![
                        EventView::TextStart { id },
                        EventView::TextDelta { id, delta: text->0 },
                    ]
                } else {
                    seq![EventView::TextStart { id }]
                },
            )
            &&& step.state.blocks == state.blocks.insert(index, BlockView::Text { id })
        }),
{
    lemma_event_types_differ();
}

/// A thinking block begins with the thinking that came with it, and keeps the
/// signature that came with it.
pub proof fn law_thinking_block_begins(
    state: DecoderView,
    ids: IdsView,
    event: JsonView,
    index: u64,
    block: JsonView,
)
    requires
        is_a(event, "content_block_start"@),
        event.get_u64("index"@) == Some(index),
        event.get("content_block"@) == Some(block),
        is_a(block, "thinking"@),
    ensures
        ({
            let step = decoded(state, ids, event);
            let id = ids.fresh();
            let text = block.get_str("thinking"@);
            let given = block.get_str("signature"@);
            let signature = if given is Some && given->0.len() > 0 {
                given
            } else {
                None
            };
            &&& step.events == Ok::<Seq<EventView>, Seq<char>>(
                if text is Some && text->0.len() > 0 {
                    seq![
                        EventView::ThinkingStart { id },
                        EventView::ThinkingDelta { id, delta: text->0 },
                    ]
                } else {
                    seq![EventView::ThinkingStart { id }]
                },
            )
            &&& step.state.blocks == state.blocks.insert(
                index,
                BlockView::Thinking { id, signature },
            )
        }),
{
    lemma_event_types_differ();
    reveal_strlit("text");
    reveal_strlit("thinking");
    reveal_strlit("tool_use");
    assert("text"@.len() == 4);
    assert("thinking"@.len() == 8);
    assert("tool_use"@.len() == 8);
    assert("thinking"@[1] != "tool_use"@[1]);
}

/// A tool call begins under the identifier that its result has to answer, with its
/// tool's name. Arguments that come with it follow, unless there are none.
pub proof fn law_tool_block_begins(
    state: DecoderView,
    ids: IdsView,
    event: JsonView,
    index: u64,
    block: JsonView,
    call_id: Seq<char>,
    name: Seq<char>,
)
    requires
        is_a(event, "content_block_start"@),
        event.get_u64("index"@) == Some(index),
        event.get("content_block"@) == Some(block),
        is_a(block, "tool_use"@),
        block.get_str("id"@) == Some(call_id),
        block.get_str("name"@) == Some(name),
    ensures
        ({
            let step = decoded(state, ids, event);
            let id = ids.fresh();
            let start = EventView::ToolCallStart {
                id,
                tool_call_id: call_id,
                name: canonical_name(name, state.names),
            };
            let input = block.get("input"@);
            &&& step.events == Ok::<Seq<EventView>, Seq<char>>(
                if input is Some && input->0 is Object && input->0->Object_0.len() > 0 {
                    seq![start, EventView::ToolArgsDelta { id, delta: json_text(input->0) }]
                } else {
                    seq![start]
                },
            )
            &&& step.state.blocks == state.blocks.insert(index, BlockView::ToolUse { id })
        }),
{
    lemma_event_types_differ();
    reveal_strlit("text");
    reveal_strlit("thinking");
    reveal_strlit("tool_use");
    assert("text"@.len() == 4);
    assert("thinking"@.len() == 8);
    assert("tool_use"@.len() == 8);
    assert("thinking"@[1] != "tool_use"@[1]);
}

/// What continues a block is told in that block as it is; an empty piece is not told.
pub proof fn law_block_goes_on(
    state: DecoderView,
    ids: IdsView,
    event: JsonView,
    index: u64,
    delta: JsonView,
)
    requires
        is_a(event, "content_block_delta"@),
        event.get_u64("index"@) == Some(index),
        event.get("delta"@) == Some(delta),
        state.blocks.contains_key(index),
    ensures
        ({
            let step = decoded(state, ids, event);
            let block = state.blocks[index];
            let text = delta.get_str("text"@);
            let thinking = delta.get_str("thinking"@);
            let arguments = delta.get_str("partial_json"@);
            &&& step.events is Ok
            &&& (block is Text && is_a(delta, "text_delta"@) && text is Some && text->0.len() > 0)
                ==> step.events->Ok_0 == seq![
                EventView::TextDelta { id: block->Text_id, delta: text->0 },
            ] && step.state.blocks[index] == block
            &&& (block is Thinking && is_a(delta, "thinking_delta"@) && thinking is Some
                && thinking->0.len() > 0) ==> step.events->Ok_0 == seq![
                EventView::ThinkingDelta { id: block->Thinking_id, delta: thinking->0 },
            ] && step.state.blocks[index] == block
            &&& (block is ToolUse && is_a(delta, "input_json_delta"@) && arguments is Some
                && arguments->0.len() > 0) ==> step.events->Ok_0 == seq![
                EventView::ToolArgsDelta { id: block->ToolUse_id, delta: arguments->0 },
            ] && step.state.blocks[index] == block
            &&& (block is Thinking && is_a(delta, "signature_delta"@))
                ==> step.events->Ok_0.len() == 0 && step.state.blocks[index]
                == (BlockView::Thinking {
                id: block->Thinking_id,
                signature: delta.get_str("signature"@),
            })
            &&& forall|other: u64| other != index ==> (#[trigger] step.state.blocks.contains_key(
                other,
            ) == state.blocks.contains_key(other))
            &&& step.state.stop_reason == state.stop_reason
            &&& step.state.usage == state.usage
        }),
{
    lemma_event_types_differ();
    reveal_strlit("text_delta");
    reveal_strlit("thinking_delta");
    reveal_strlit("signature_delta");
    reveal_strlit("input_json_delta");
    assert("text_delta"@.len() == 10);
    assert("thinking_delta"@.len() == 14);
    assert("signature_delta"@.len() == 15);
    assert("input_json_delta"@.len() == 16);
}

/// A block that stops is closed as what it is, thinking with its signature; it is no
/// longer open, and every other block is.
pub proof fn law_block_stops(
    state: DecoderView,
    ids: IdsView,
    event: JsonView,
    index: u64,
)
    requires
        is_a(event, "content_block_stop"@),
        event.get_u64("index"@) == Some(index),
    ensures
        ({
            let step = decoded(state, ids, event);
            &&& step.events is Ok
            &&& !state.blocks.contains_key(index) ==> step.events->Ok_0.len() == 0 && step.state
                == state
            &&& state.blocks.contains_key(index) ==> {
                &&& step.state.blocks == state.blocks.remove(index)
                &&& step.events->Ok_0.len() == 1
                &&& match state.blocks[index] {
                    BlockView::Text { id } => step.events->Ok_0[0] == (EventView::TextEnd { id }),
                    BlockView::Thinking { id, signature } => step.events->Ok_0[0]
                        == (EventView::ThinkingEnd { id, signature }),
                    BlockView::ToolUse { id } => step.events->Ok_0[0] == (EventView::ToolCallEnd {
                        id,
                    }),
                }
            }
        }),
{
    lemma_event_types_differ();
}

/// An event about a block that names none is an error, and changes nothing.
pub proof fn law_block_event_has_to_name_its_block(
    state: DecoderView,
    ids: IdsView,
    event: JsonView,
)
    requires
        is_a(event, "content_block_start"@) || is_a(event, "content_block_delta"@) || is_a(
            event,
            "content_block_stop"@,
        ),
        event.get_u64("index"@) is None,
    ensures
        decoded(state, ids, event).events == Err::<Seq<EventView>, Seq<char>>(
            "failed to decode anthropic stream event: missing index"@,
        ),
        decoded(state, ids, event).state == state,
{
    lemma_event_types_differ();
}

/// An error in the stream is told as one, with the words that it came with; an event
/// of no known type tells nothing and changes nothing.
pub proof fn law_stream_error_is_told(
    state: DecoderView,
    ids: IdsView,
    event: JsonView,
    words: Seq<char>,
)
    ensures
        is_a(event, "error"@) && event.get_in_str("error"@, "message"@) == Some(words) ==> {
            let step = decoded(state, ids, event);
            &&& step.state == state
            &&& step.events is Ok && step.events->Ok_0.len() == 1
            &&& step.events->Ok_0[0] is Error
            &&& step.events->Ok_0[0]->error.message == "failed to execute provider request: "@
                + words
        },
        !is_a(event, "message_start"@) && !is_a(event, "content_block_start"@) && !is_a(
            event,
            "content_block_delta"@,
        ) && !is_a(event, "content_block_stop"@) && !is_a(event, "message_delta"@) && !is_a(
            event,
            "message_stop"@,
        ) && !is_a(event, "error"@) ==> {
            let step = decoded(state, ids, event);
            step.state == state && step.events == Ok::<Seq<EventView>, Seq<char>>(Seq::empty())
        },
{
    lemma_event_types_differ();
}

/// A tool block without an identifier gets a new one, and one without a name is called
/// `tool`.
pub proof fn law_nameless_tool_block_begins(
    state: DecoderView,
    ids: IdsView,
    event: JsonView,
    index: u64,
    block: JsonView,
)
    requires
        is_a(event, "content_block_start"@),
        event.get_u64("index"@) == Some(index),
        event.get("content_block"@) == Some(block),
        is_a(block, "tool_use"@),
        block.get("input"@) is None,
    ensures
        ({
            let step = decoded(state, ids, event);
            let given = block.get_str("id"@);
            let name = block.get_str("name"@);
            let start = EventView::ToolCallStart {
                id: ids.fresh(),
                tool_call_id: if given is Some {
                    given->0
                } else {
                    ids.advanced().fresh()
                },
                name: if name is Some {
                    canonical_name(name->0, state.names)
                } else {
                    "tool"@
                },
            };
            &&& step.events == Ok::<Seq<EventView>, Seq<char>>(seq![start])
            &&& step.ids == if given is Some {
                ids.advanced()
            } else {
                ids.advanced().advanced()
            }
        }),
{
    lemma_event_types_differ();
    reveal_strlit("text");
    reveal_strlit("thinking");
    reveal_strlit("tool_use");
    assert("text"@.len() == 4);
    assert("thinking"@.len() == 8);
    assert("tool_use"@.len() == 8);
    assert("thinking"@[1] != "tool_use"@[1]);
}

/// A message without an identifier gets a new one.
pub proof fn law_nameless_message_begins(state: DecoderView, ids: IdsView, event: JsonView)
    requires
        is_a(event, "message_start"@),
        event.get_in_str("message"@, "id"@) is None,
    ensures
        ({
            let step = decoded(state, ids, event);
            &&& step.events == Ok::<Seq<EventView>, Seq<char>>(
                seq![EventView::MessageStart { id: ids.fresh() }],
            )
            &&& step.state.message_id == Some(ids.fresh())
            &&& step.ids == ids.advanced()
        }),
{
    lemma_event_types_differ();
}

/// A change that gives no reason leaves the one that is known, and one that gives no
/// count leaves the counts.
pub proof fn law_silent_change_leaves_what_is_known(
    state: DecoderView,
    ids: IdsView,
    event: JsonView,
)
    requires
        is_a(event, "message_delta"@),
    ensures
        ({
            let step = decoded(state, ids, event);
            let counts = event.get("usage"@);
            &&& event.get_in_str("delta"@, "stop_reason"@) is None ==> step.state.stop_reason
                == state.stop_reason
            &&& counts is None || counts->0.get_u64("output_tokens"@) is None ==> step.state.usage
                == state.usage && step.events == Ok::<Seq<EventView>, Seq<char>>(
                seq![EventView::UsageUpdate { usage: state.usage }],
            )
            &&& step.state.blocks == state.blocks && step.state.message_id == state.message_id
            &&& step.ids == ids
        }),
{
    lemma_event_types_differ();
}

} // verus!
