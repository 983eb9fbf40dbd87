//! Laws of the Responses stream decoder: what each event is told as, and what holds
//! over whole replies.

use vstd::prelude::*;

use crate::brackets::{
    all_issued, bracket_step, bracketed, in_order, law_bracketed_is_in_order,
    lemma_bracketed_append, lemma_bracketed_push, lemma_fresh_is_new, lemma_fresh_was_issued,
    lemma_issued_grows, was_issued, BlockState,
};
use crate::codec_common::canonical_name;
use crate::ids::IdsView;
use crate::openai_codec::is_message_item_id;
use crate::openai_stream::{
    call_at, close_call, close_reasoning, close_text, coherent, decoded, extend_call,
    extend_reasoning, extend_text, finish_call, finish_fragment, finish_reasoning,
    finish_response_spec, finish_text, item_added, item_done, item_key_spec, lemma_call_at,
    message_text, nonempty_texts, open_reasoning, open_text, push_reasoning, push_text,
    reasoning_text_spec, remember_response, run_of, start_call, start_message, start_summary_part,
    stripped, whole_call, CallView, ContentView, FunctionCallView, ItemView, OutputMessageView,
    ReasoningItemView, ReasoningStreamMode, ReplyView, ResponseView, ResponsesState, Run,
};
use crate::protocol::{EventView, StopReason};
use crate::text::{decimal, joined};

verus! {

/// The blocks that the decoder holds are open in the stream.
pub open spec fn tracks(state: ResponsesState, known: Map<Seq<char>, BlockState>) -> bool {
    &&& match state.text {
        Some(block) => known.contains_pair(block.id, BlockState::Text),
        None => true,
    }
    &&& match state.reasoning {
        Some(block) => known.contains_pair(block.id, BlockState::Thinking),
        None => true,
    }
    &&& forall|i: int|
        0 <= i < state.active.len() ==> known.contains_pair(
            (#[trigger] state.active[i]).id,
            BlockState::Tool,
        )
    &&& forall|i: int, j: int|
        #![trigger state.active[i], state.active[j]]
        0 <= i < j < state.active.len() ==> state.active[i].id != state.active[j].id
}

/// The events so far are well bracketed from `known` on, the decoder keeps track
/// of what they left open, and their identifiers were issued by the source that
/// was at `start`.
pub open spec fn sound(known: Map<Seq<char>, BlockState>, start: IdsView, run: Run) -> bool {
    let after = bracketed(known, run.events);
    &&& after is Some
    &&& tracks(run.state, after->0)
    &&& all_issued(after->0, run.ids)
    &&& run.ids.seed == start.seed
    &&& start.issued <= run.ids.issued
}

proof fn lemma_say_other(
    known: Map<Seq<char>, BlockState>,
    start: IdsView,
    run: Run,
    event: EventView,
)
    requires
        sound(known, start, run),
        event is MessageStart || event is UsageUpdate || event is MessageEnd,
    ensures
        sound(known, start, run.say(event)),
{
    lemma_bracketed_push(known, run.events, event);
}

/// Opening a block under a fresh identifier.
proof fn lemma_opens(
    known: Map<Seq<char>, BlockState>,
    start: IdsView,
    run: Run,
    after: Run,
    event: EventView,
    kind: BlockState,
)
    requires
        sound(known, start, run),
        after.ids == run.ids.advanced(),
        after.events == run.events.push(event),
        forall|now: Map<Seq<char>, BlockState>|
            #![trigger bracket_step(now, event)]
            !now.contains_key(run.ids.fresh()) ==> bracket_step(now, event) == Some(
                now.insert(run.ids.fresh(), kind),
            ),
        forall|now: Map<Seq<char>, BlockState>|
            #![trigger now.insert(run.ids.fresh(), kind)]
            tracks(run.state, now) && !now.contains_key(run.ids.fresh()) ==> tracks(
                after.state,
                now.insert(run.ids.fresh(), kind),
            ),
    ensures
        sound(known, start, after),
{
    let now = bracketed(known, run.events)->0;
    let fresh = run.ids.fresh();
    if now.contains_key(fresh) {
        lemma_fresh_is_new(run.ids, fresh);
    }
    lemma_bracketed_push(known, run.events, event);
    let more = now.insert(fresh, kind);
    assert(bracket_step(now, event) == Some(more));
    assert forall|id: Seq<char>| #[trigger] more.contains_key(id) implies was_issued(
        after.ids,
        id,
    ) by {
        if id == fresh {
            lemma_fresh_was_issued(run.ids);
        } else {
            assert(now.contains_key(id));
            lemma_issued_grows(run.ids, after.ids, id);
        }
    }
}

proof fn lemma_close_text(known: Map<Seq<char>, BlockState>, start: IdsView, run: Run)
    requires
        sound(known, start, run),
    ensures
        sound(known, start, close_text(run)),
{
    if let Some(block) = run.state.text {
        lemma_bracketed_push(known, run.events, EventView::TextEnd { id: block.id });
        let now = bracketed(known, run.events)->0;
        let less = now.insert(block.id, BlockState::Closed);
        assert forall|i: int| 0 <= i < run.state.active.len() implies less.contains_pair(
            (#[trigger] run.state.active[i]).id,
            BlockState::Tool,
        ) by {
            assert(now.contains_pair(run.state.active[i].id, BlockState::Tool));
        }
    }
}

proof fn lemma_close_reasoning(
    known: Map<Seq<char>, BlockState>,
    start: IdsView,
    run: Run,
    signature: Option<Seq<char>>,
)
    requires
        sound(known, start, run),
    ensures
        sound(known, start, close_reasoning(run, signature)),
{
    if let Some(block) = run.state.reasoning {
        lemma_bracketed_push(known, run.events, EventView::ThinkingEnd { id: block.id, signature });
        let now = bracketed(known, run.events)->0;
        let less = now.insert(block.id, BlockState::Closed);
        assert forall|i: int| 0 <= i < run.state.active.len() implies less.contains_pair(
            (#[trigger] run.state.active[i]).id,
            BlockState::Tool,
        ) by {
            assert(now.contains_pair(run.state.active[i].id, BlockState::Tool));
        }
    }
}

proof fn lemma_open_text(known: Map<Seq<char>, BlockState>, start: IdsView, run: Run)
    requires
        sound(known, start, run),
    ensures
        sound(known, start, open_text(run)),
{
    lemma_close_text(known, start, run);
    let closed = close_text(run);
    lemma_opens(
        known,
        start,
        closed,
        open_text(run),
        EventView::TextStart { id: closed.ids.fresh() },
        BlockState::Text,
    );
}

proof fn lemma_open_reasoning(known: Map<Seq<char>, BlockState>, start: IdsView, run: Run)
    requires
        sound(known, start, run),
    ensures
        sound(known, start, open_reasoning(run)),
{
    lemma_close_reasoning(known, start, run, None);
    let closed = close_reasoning(run, None);
    lemma_opens(
        known,
        start,
        closed,
        open_reasoning(run),
        EventView::ThinkingStart { id: closed.ids.fresh() },
        BlockState::Thinking,
    );
}

proof fn lemma_extend_text(
    known: Map<Seq<char>, BlockState>,
    start: IdsView,
    run: Run,
    delta: Seq<char>,
)
    requires
        sound(known, start, run),
    ensures
        sound(known, start, extend_text(run, delta)),
{
    if let Some(block) = run.state.text {
        lemma_bracketed_push(known, run.events, EventView::TextDelta { id: block.id, delta });
    }
}

proof fn lemma_extend_reasoning(
    known: Map<Seq<char>, BlockState>,
    start: IdsView,
    run: Run,
    delta: Seq<char>,
    mode: ReasoningStreamMode,
)
    requires
        sound(known, start, run),
    ensures
        sound(known, start, extend_reasoning(run, delta, mode)),
{
    if let Some(block) = run.state.reasoning {
        lemma_bracketed_push(known, run.events, EventView::ThinkingDelta { id: block.id, delta });
    }
}

proof fn lemma_push_text(
    known: Map<Seq<char>, BlockState>,
    start: IdsView,
    run: Run,
    delta: Seq<char>,
)
    requires
        sound(known, start, run),
    ensures
        sound(known, start, push_text(run, delta)),
{
    if delta.len() > 0 {
        if run.state.text is None {
            lemma_open_text(known, start, run);
            lemma_extend_text(known, start, open_text(run), delta);
        } else {
            lemma_extend_text(known, start, run, delta);
        }
    }
}

proof fn lemma_push_reasoning(
    known: Map<Seq<char>, BlockState>,
    start: IdsView,
    run: Run,
    delta: Seq<char>,
    mode: ReasoningStreamMode,
)
    requires
        sound(known, start, run),
    ensures
        sound(known, start, push_reasoning(run, delta, mode)),
{
    if delta.len() > 0 {
        if run.state.reasoning is None {
            lemma_open_reasoning(known, start, run);
            lemma_extend_reasoning(known, start, open_reasoning(run), delta, mode);
        } else {
            lemma_extend_reasoning(known, start, run, delta, mode);
        }
    }
}

proof fn lemma_finish_text(
    known: Map<Seq<char>, BlockState>,
    start: IdsView,
    run: Run,
    full: Seq<char>,
)
    requires
        sound(known, start, run),
    ensures
        sound(known, start, finish_text(run, full)),
{
    if let Some(block) = run.state.text {
        match stripped(full, block.text) {
            Some(delta) => {
                lemma_extend_text(known, start, run, delta);
                lemma_close_text(known, start, extend_text(run, delta));
            },
            None => {
                lemma_close_text(known, start, run);
            },
        }
    }
}

proof fn lemma_finish_fragment(
    known: Map<Seq<char>, BlockState>,
    start: IdsView,
    run: Run,
    full: Seq<char>,
    mode: ReasoningStreamMode,
)
    requires
        sound(known, start, run),
    ensures
        sound(known, start, finish_fragment(run, full, mode)),
{
    if let Some(block) = run.state.reasoning {
        if let Some(delta) = stripped(full, block.text) {
            lemma_extend_reasoning(known, start, run, delta, mode);
        }
    }
}

proof fn lemma_finish_reasoning(
    known: Map<Seq<char>, BlockState>,
    start: IdsView,
    run: Run,
    full: Seq<char>,
    signature: Option<Seq<char>>,
)
    requires
        sound(known, start, run),
    ensures
        sound(known, start, finish_reasoning(run, full, signature)),
{
    if let Some(block) = run.state.reasoning {
        let mode = match block.mode {
            Some(mode) => mode,
            None => ReasoningStreamMode::Summary,
        };
        lemma_finish_fragment(known, start, run, full, mode);
        lemma_close_reasoning(known, start, finish_fragment(run, full, mode), signature);
    }
}

proof fn lemma_summary_part(known: Map<Seq<char>, BlockState>, start: IdsView, run: Run)
    requires
        sound(known, start, run),
    ensures
        sound(known, start, start_summary_part(run)),
{
    let opened = if run.state.reasoning is None {
        lemma_open_reasoning(known, start, run);
        open_reasoning(run)
    } else {
        run
    };
    lemma_extend_reasoning(known, start, opened, "\n\n"@, ReasoningStreamMode::Summary);
}

proof fn lemma_extend_call(
    known: Map<Seq<char>, BlockState>,
    start: IdsView,
    run: Run,
    item_key: Seq<char>,
    delta: Seq<char>,
)
    requires
        sound(known, start, run),
    ensures
        sound(known, start, extend_call(run, item_key, delta)),
        extend_call(run, item_key, delta).state.active.len() == run.state.active.len(),
{
    lemma_call_at(run.state.active, item_key);
    if let Some(at) = call_at(run.state.active, item_key) {
        if delta.len() > 0 {
            let call = run.state.active[at];
            let now = bracketed(known, run.events)->0;
            lemma_bracketed_push(known, run.events, EventView::ToolArgsDelta { id: call.id, delta });
            let after = extend_call(run, item_key, delta).state;
            assert(now.contains_pair(call.id, BlockState::Tool));
            assert forall|i: int| 0 <= i < after.active.len() implies now.contains_pair(
                (#[trigger] after.active[i]).id,
                BlockState::Tool,
            ) by {
                assert(now.contains_pair(run.state.active[i].id, BlockState::Tool));
            }
            assert forall|i: int, j: int|
                #![trigger after.active[i], after.active[j]]
                0 <= i < j < after.active.len() implies after.active[i].id != after.active[j].id by {
                assert(run.state.active[i].id != run.state.active[j].id);
            }
        }
    }
}

proof fn lemma_start_call(
    known: Map<Seq<char>, BlockState>,
    start: IdsView,
    run: Run,
    item_key: Seq<char>,
    call_id: Seq<char>,
    name: Seq<char>,
    arguments: Seq<char>,
)
    requires
        sound(known, start, run),
    ensures
        sound(known, start, start_call(run, item_key, call_id, name, arguments)),
{
    if !(call_at(run.state.active, item_key) is Some || run.state.completed.contains(item_key)) {
        let id = run.ids.fresh();
        let event = EventView::ToolCallStart {
            id,
            tool_call_id: call_id,
            name: crate::codec_common::canonical_name(name, run.state.names),
        };
        let opened = Run {
            state: ResponsesState {
                active: run.state.active.push(CallView { item_key, id, arguments: Seq::empty() }),
                saw_tool_call: true,
                ..run.state
            },
            ids: run.ids.advanced(),
            events: run.events.push(event),
        };
        assert forall|now: Map<Seq<char>, BlockState>|
            #![trigger now.insert(id, BlockState::Tool)]
            tracks(run.state, now) && !now.contains_key(id) implies tracks(
            opened.state,
            now.insert(id, BlockState::Tool),
        ) by {
            let more = now.insert(id, BlockState::Tool);
            assert forall|i: int| 0 <= i < opened.state.active.len() implies more.contains_pair(
                (#[trigger] opened.state.active[i]).id,
                BlockState::Tool,
            ) by {
                if i < run.state.active.len() {
                    assert(now.contains_pair(run.state.active[i].id, BlockState::Tool));
                }
            }
            assert forall|i: int, j: int|
                #![trigger opened.state.active[i], opened.state.active[j]]
                0 <= i < j < opened.state.active.len() implies opened.state.active[i].id
                != opened.state.active[j].id by {
                assert(now.contains_pair(run.state.active[i].id, BlockState::Tool));
                if j < run.state.active.len() {
                    assert(run.state.active[i].id != run.state.active[j].id);
                }
            }
        }
        lemma_opens(known, start, run, opened, event, BlockState::Tool);
        lemma_extend_call(known, start, opened, item_key, arguments);
    }
}

proof fn lemma_close_call(
    known: Map<Seq<char>, BlockState>,
    start: IdsView,
    run: Run,
    item_key: Seq<char>,
    full: Seq<char>,
)
    requires
        sound(known, start, run),
        call_at(run.state.active, item_key) is Some,
    ensures
        sound(known, start, close_call(run, item_key, full)),
{
    lemma_call_at(run.state.active, item_key);
    let at = call_at(run.state.active, item_key)->0;
    let grown = match stripped(full, run.state.active[at].arguments) {
        Some(delta) => {
            lemma_extend_call(known, start, run, item_key, delta);
            extend_call(run, item_key, delta)
        },
        None => run,
    };
    let now = bracketed(known, grown.events)->0;
    let id = grown.state.active[at].id;
    assert(now.contains_pair(id, BlockState::Tool));
    lemma_bracketed_push(known, grown.events, EventView::ToolCallEnd { id });
    let less = now.insert(id, BlockState::Closed);
    let after = close_call(run, item_key, full).state;
    assert forall|i: int| 0 <= i < after.active.len() implies less.contains_pair(
        (#[trigger] after.active[i]).id,
        BlockState::Tool,
    ) by {
        let a = if i < at {
            i
        } else {
            i + 1
        };
        assert(after.active[i] == grown.state.active[a]);
        assert(grown.state.active[a].id != grown.state.active[at].id);
        assert(now.contains_pair(grown.state.active[a].id, BlockState::Tool));
    }
    assert forall|i: int, j: int|
        #![trigger after.active[i], after.active[j]]
        0 <= i < j < after.active.len() implies after.active[i].id != after.active[j].id by {
        let a = if i < at {
            i
        } else {
            i + 1
        };
        let b = if j < at {
            j
        } else {
            j + 1
        };
        assert(grown.state.active[a].id != grown.state.active[b].id);
    }
}

proof fn lemma_whole_call(
    known: Map<Seq<char>, BlockState>,
    start: IdsView,
    run: Run,
    item_key: Seq<char>,
    full: Seq<char>,
    call_id: Seq<char>,
    name: Seq<char>,
)
    requires
        sound(known, start, run),
    ensures
        sound(known, start, whole_call(run, item_key, full, call_id, name)),
{
    let now = bracketed(known, run.events)->0;
    let id = run.ids.fresh();
    if now.contains_key(id) {
        lemma_fresh_is_new(run.ids, id);
    }
    let first = EventView::ToolCallStart {
        id,
        tool_call_id: call_id,
        name: crate::codec_common::canonical_name(name, run.state.names),
    };
    let last = EventView::ToolCallEnd { id };
    let after = whole_call(run, item_key, full, call_id, name);
    lemma_bracketed_push(known, run.events, first);
    let head = run.events.push(first);
    if full.len() > 0 {
        let middle = EventView::ToolArgsDelta { id, delta: full };
        lemma_bracketed_push(known, head, middle);
        lemma_bracketed_push(known, head.push(middle), last);
        assert(after.events =~= head.push(middle).push(last));
    } else {
        lemma_bracketed_push(known, head, last);
        assert(after.events =~= head.push(last));
    }
    let more = now.insert(id, BlockState::Tool).insert(id, BlockState::Closed);
    assert forall|other: Seq<char>| #[trigger] more.contains_key(other) implies was_issued(
        after.ids,
        other,
    ) by {
        if other == id {
            lemma_fresh_was_issued(run.ids);
        } else {
            assert(now.contains_key(other));
            lemma_issued_grows(run.ids, after.ids, other);
        }
    }
}

proof fn lemma_finish_call(
    known: Map<Seq<char>, BlockState>,
    start: IdsView,
    run: Run,
    item_key: Seq<char>,
    full: Seq<char>,
    call: Option<(Seq<char>, Seq<char>)>,
)
    requires
        sound(known, start, run),
    ensures
        sound(known, start, finish_call(run, item_key, full, call)),
{
    if call_at(run.state.active, item_key) is Some {
        lemma_close_call(known, start, run, item_key, full);
    } else if !run.state.completed.contains(item_key) {
        if let Some((call_id, name)) = call {
            lemma_whole_call(known, start, run, item_key, full, call_id, name);
        }
    }
}

proof fn lemma_start_message(
    known: Map<Seq<char>, BlockState>,
    start: IdsView,
    run: Run,
    given: Option<Seq<char>>,
)
    requires
        sound(known, start, run),
    ensures
        sound(known, start, start_message(run, given)),
        start_message(run, given).state.text == run.state.text,
        start_message(run, given).state.reasoning == run.state.reasoning,
{
    let after = start_message(run, given);
    if !run.state.started {
        let event = after.events.last();
        lemma_bracketed_push(known, run.events, event);
        let now = bracketed(known, run.events)->0;
        assert forall|id: Seq<char>| #[trigger] now.contains_key(id) implies was_issued(
            after.ids,
            id,
        ) by {
            lemma_issued_grows(run.ids, after.ids, id);
        }
    }
}

proof fn lemma_item_added(
    known: Map<Seq<char>, BlockState>,
    start: IdsView,
    run: Run,
    output_index: u32,
    item: ItemView,
)
    requires
        sound(known, start, run),
    ensures
        sound(known, start, item_added(run, output_index, item)),
{
    match item {
        ItemView::Message(message) => {
            let started = start_message(run, Some(message.id));
            lemma_start_message(known, start, run, Some(message.id));
            lemma_open_text(known, start, started);
            lemma_push_text(known, start, open_text(started), message_text(message.content));
        },
        ItemView::Reasoning(reasoning) => {
            let started = start_message(run, None);
            lemma_start_message(known, start, run, None);
            lemma_open_reasoning(known, start, started);
            lemma_push_reasoning(
                known,
                start,
                open_reasoning(started),
                reasoning_text_spec(reasoning),
                if reasoning.summary.len() == 0 {
                    ReasoningStreamMode::Text
                } else {
                    ReasoningStreamMode::Summary
                },
            );
        },
        ItemView::FunctionCall(call) => {
            lemma_start_message(known, start, run, None);
            lemma_start_call(
                known,
                start,
                start_message(run, None),
                item_key_spec(call.id, output_index),
                call.call_id,
                call.name,
                call.arguments,
            );
        },
        ItemView::Other => {},
    }
}

proof fn lemma_item_done(
    known: Map<Seq<char>, BlockState>,
    start: IdsView,
    run: Run,
    output_index: u32,
    item: ItemView,
)
    requires
        sound(known, start, run),
    ensures
        sound(known, start, item_done(run, output_index, item)),
{
    match item {
        ItemView::Message(message) => {
            lemma_finish_text(known, start, run, message_text(message.content));
        },
        ItemView::Reasoning(reasoning) => {
            lemma_finish_reasoning(
                known,
                start,
                run,
                reasoning_text_spec(reasoning),
                reasoning.encrypted_content,
            );
        },
        ItemView::FunctionCall(call) => {
            lemma_finish_call(
                known,
                start,
                run,
                item_key_spec(call.id, output_index),
                call.arguments,
                Some((call.call_id, call.name)),
            );
        },
        ItemView::Other => {},
    }
}

proof fn lemma_finish_response(
    known: Map<Seq<char>, BlockState>,
    start: IdsView,
    run: Run,
    response: ResponseView,
)
    requires
        sound(known, start, run),
    ensures
        sound(known, start, finish_response_spec(run, response)),
{
    let informed = remember_response(run, response.id);
    assert(sound(known, start, informed));
    let started = start_message(informed, None);
    lemma_start_message(known, start, informed, None);
    let told = match response.usage {
        Some(usage) => {
            let event = EventView::UsageUpdate { usage: crate::openai_stream::usage_spec(usage) };
            lemma_say_other(known, start, started, event);
            started.say(event)
        },
        None => started,
    };
    let after = finish_response_spec(run, response);
    lemma_say_other(known, start, told, after.events.last());
    assert(after == told.say(after.events.last()));
}

/// One event keeps the stream well bracketed: a block is opened under a new
/// identifier, and continued or closed only while it is open; none is opened again.
pub proof fn law_event_is_bracketed(known: Map<Seq<char>, BlockState>, run: Run, event: ReplyView)
    requires
        run.events == Seq::<EventView>::empty(),
        tracks(run.state, known),
        all_issued(known, run.ids),
    ensures
        match decoded(run, event) {
            Ok(after) => sound(known, run.ids, after),
            Err(_) => true,
        },
{
    let start = run.ids;
    assert(bracketed(known, Seq::empty()) == Some(known));
    assert(sound(known, start, run));
    match event {
        ReplyView::ResponseOutputItemAdded { output_index, item } => {
            lemma_item_added(known, start, run, output_index, item);
        },
        ReplyView::ResponseOutputTextDelta { delta } => {
            lemma_push_text(known, start, run, delta);
        },
        ReplyView::ResponseOutputTextDone { text } => {
            lemma_finish_text(known, start, run, text);
        },
        ReplyView::ResponseRefusalDelta { delta } => {
            lemma_push_text(known, start, run, delta);
        },
        ReplyView::ResponseRefusalDone { refusal } => {
            lemma_finish_text(known, start, run, refusal);
        },
        ReplyView::ResponseReasoningSummaryPartAdded => {
            lemma_summary_part(known, start, run);
        },
        ReplyView::ResponseReasoningSummaryTextDelta { delta } => {
            lemma_push_reasoning(known, start, run, delta, ReasoningStreamMode::Summary);
        },
        ReplyView::ResponseReasoningSummaryTextDone { text } => {
            lemma_finish_fragment(known, start, run, text, ReasoningStreamMode::Summary);
        },
        ReplyView::ResponseReasoningTextDelta { delta } => {
            lemma_push_reasoning(known, start, run, delta, ReasoningStreamMode::Text);
        },
        ReplyView::ResponseReasoningTextDone { text } => {
            lemma_finish_fragment(known, start, run, text, ReasoningStreamMode::Text);
        },
        ReplyView::ResponseFunctionCallArgumentsDelta { item_id, delta } => {
            lemma_extend_call(known, start, run, item_id, delta);
        },
        ReplyView::ResponseFunctionCallArgumentsDone { item_id, arguments } => {
            lemma_finish_call(known, start, run, item_id, arguments, None);
        },
        ReplyView::ResponseOutputItemDone { output_index, item } => {
            lemma_item_done(known, start, run, output_index, item);
        },
        ReplyView::ResponseCompleted { response } => {
            lemma_finish_response(known, start, run, response);
        },
        ReplyView::ResponseIncomplete { response } => {
            lemma_finish_response(known, start, run, response);
        },
        _ => {},
    }
}

/// The stream events that a whole reply turns into. An event that cannot be
/// read contributes none.
pub open spec fn reply_events(
    state: ResponsesState,
    ids: IdsView,
    events: Seq<ReplyView>,
) -> Seq<EventView>
    decreases events.len(),
{
    if events.len() == 0 {
        Seq::empty()
    } else {
        match decoded(run_of(state, ids, Seq::empty()), events[0]) {
            Ok(after) => after.events + reply_events(after.state, after.ids, events.drop_first()),
            Err(_) => reply_events(state, ids, events.drop_first()),
        }
    }
}

/// A whole reply is well bracketed.
pub proof fn law_reply_is_bracketed(
    known: Map<Seq<char>, BlockState>,
    state: ResponsesState,
    ids: IdsView,
    events: Seq<ReplyView>,
)
    requires
        tracks(state, known),
        all_issued(known, ids),
    ensures
        bracketed(known, reply_events(state, ids, events)) is Some,
    decreases events.len(),
{
    if events.len() > 0 {
        let run = run_of(state, ids, Seq::empty());
        law_event_is_bracketed(known, run, events[0]);
        match decoded(run, events[0]) {
            Ok(after) => {
                let now = bracketed(known, after.events)->0;
                law_reply_is_bracketed(now, after.state, after.ids, events.drop_first());
                lemma_bracketed_append(
                    known,
                    after.events,
                    reply_events(after.state, after.ids, events.drop_first()),
                );
            },
            Err(_) => {
                law_reply_is_bracketed(known, state, ids, events.drop_first());
            },
        }
    }
}

/// A decoder that has not begun.
pub open spec fn is_fresh(state: ResponsesState) -> bool {
    &&& state.text is None
    &&& state.reasoning is None
    &&& state.active.len() == 0
    &&& !state.started
    &&& state.message_id is None
}

/// Of everything that a decoder ever tells of one reply: each block is opened once
/// under an identifier of its own, added to and closed only while it is open, and
/// closed once at most.
pub proof fn law_reply_is_in_order(state: ResponsesState, ids: IdsView, events: Seq<ReplyView>)
    requires
        is_fresh(state),
    ensures
        in_order(reply_events(state, ids, events)),
{
    law_reply_is_bracketed(Map::empty(), state, ids, events);
    law_bracketed_is_in_order(reply_events(state, ids, events));
}

/// A tool call that was completed is told of no further, whether its item is
/// added or completed again.
pub proof fn law_completed_call_is_not_repeated(
    run: Run,
    item_key: Seq<char>,
    full: Seq<char>,
    call_id: Seq<char>,
    name: Seq<char>,
)
    requires
        coherent(run.state),
        run.state.completed.contains(item_key),
    ensures
        start_call(run, item_key, call_id, name, full) == run,
        finish_call(run, item_key, full, Some((call_id, name))) == run,
        finish_call(run, item_key, full, None) == run,
{
    lemma_call_at(run.state.active, item_key);
    if let Some(at) = call_at(run.state.active, item_key) {
        assert(!run.state.completed.contains(run.state.active[at].item_key));
    }
}

/// A text block that is finished with a text which extends what it has said so
/// far has then said exactly that text.
pub proof fn law_finished_text_is_complete(run: Run, full: Seq<char>)
    requires
        run.state.text is Some,
        crate::text::has_prefix(full, run.state.text->0.text),
    ensures
        ({
            let block = run.state.text->0;
            let rest = full.subrange(block.text.len() as int, full.len() as int);
            &&& block.text + rest == full
            &&& finish_text(run, full).events == run.events + if rest.len() > 0 {
                seq![
                    EventView::TextDelta { id: block.id, delta: rest },
                    EventView::TextEnd { id: block.id },
                ]
            } else {
                seq![EventView::TextEnd { id: block.id }]
            }
        }),
{
    let block = run.state.text->0;
    let rest = full.subrange(block.text.len() as int, full.len() as int);
    assert(block.text + rest =~= full);
    assert(finish_text(run, full).events =~= run.events + if rest.len() > 0 {
        seq![
            EventView::TextDelta { id: block.id, delta: rest },
            EventView::TextEnd { id: block.id },
        ]
    } else {
        seq![EventView::TextEnd { id: block.id }]
    });
}

// ---------------------------------------------------------------------------
// What events are told as

/// What a decoder makes of one event.
pub open spec fn told(state: ResponsesState, ids: IdsView, event: ReplyView) -> Result<
    Run,
    Seq<char>,
> {
    decoded(run_of(state, ids, Seq::empty()), event)
}

/// No call is open or completed under that key.
pub open spec fn unseen(state: ResponsesState, key: Seq<char>) -> bool {
    &&& forall|i: int| 0 <= i < state.active.len() ==> (#[trigger] state.active[i]).item_key != key
    &&& !state.completed.contains(key)
}

/// That call and no other is open under that key.
pub open spec fn open_at(state: ResponsesState, key: Seq<char>, at: int) -> bool {
    &&& 0 <= at < state.active.len()
    &&& state.active[at].item_key == key
    &&& forall|i: int|
        0 <= i < state.active.len() && i != at ==> (#[trigger] state.active[i]).item_key != key
}

/// A call begins under the identifier that its result has to answer, whatever its
/// item is called, with its tool's name; arguments that come with it follow.
pub proof fn law_call_starts_under_its_call_id(
    state: ResponsesState,
    ids: IdsView,
    output_index: u32,
    call: FunctionCallView,
)
    requires
        call.id is Some,
        unseen(state, call.id->0),
    ensures
        told(
            state,
            ids,
            ReplyView::ResponseOutputItemAdded { output_index, item: ItemView::FunctionCall(call) },
        ) matches Ok(after) && {
            let skipped: int = if state.started {
                0
            } else {
                1
            };
            let count: int = if call.arguments.len() == 0 {
                1
            } else {
                2
            };
            &&& after.events.len() == skipped + count
            &&& !state.started ==> after.events[0] is MessageStart
            &&& after.events[skipped] is ToolCallStart
            &&& after.events[skipped]->ToolCallStart_tool_call_id == call.call_id
            &&& after.events[skipped]->ToolCallStart_name == canonical_name(call.name, state.names)
            &&& count == 2 ==> after.events[skipped + 1] == (EventView::ToolArgsDelta {
                id: after.events[skipped]->ToolCallStart_id,
                delta: call.arguments,
            })
            &&& after.state.saw_tool_call
            &&& open_at(after.state, call.id->0, state.active.len() as int)
            &&& after.state.active.last().id == after.events[skipped]->ToolCallStart_id
            &&& after.state.active.last().arguments == call.arguments
        },
{
    let run = run_of(state, ids, Seq::empty());
    let started = start_message(run, None);
    let key = call.id->0;
    lemma_call_at(started.state.active, key);
    let fresh = started.ids.fresh();
    let opened = started.state.active.push(
        CallView { item_key: key, id: fresh, arguments: Seq::empty() },
    );
    assert(opened.drop_last() =~= started.state.active);
    assert(call_at(opened, key) == Some(opened.len() - 1));
    assert(Seq::<char>::empty() + call.arguments =~= call.arguments);
    assert(call.arguments.len() == 0 ==> call.arguments =~= Seq::<char>::empty());
}

/// Arguments go to the call that they belong to, as they are, and to no other; for
/// a call that is not open there are none to take.
pub proof fn law_arguments_go_to_their_call(
    state: ResponsesState,
    ids: IdsView,
    item_id: Seq<char>,
    delta: Seq<char>,
    at: int,
)
    requires
        delta.len() > 0,
    ensures
        open_at(state, item_id, at) ==> (told(
            state,
            ids,
            ReplyView::ResponseFunctionCallArgumentsDelta { item_id, delta },
        ) matches Ok(after) && {
            &&& after.events == seq![EventView::ToolArgsDelta { id: state.active[at].id, delta }]
            &&& after.state.active.len() == state.active.len()
            &&& after.state.active[at].arguments == state.active[at].arguments + delta
            &&& forall|i: int|
                0 <= i < state.active.len() && i != at ==> (#[trigger] after.state.active[i])
                    == state.active[i]
        }),
        unseen(state, item_id) ==> told(
            state,
            ids,
            ReplyView::ResponseFunctionCallArgumentsDelta { item_id, delta },
        ) == Err::<Run, Seq<char>>(
            "failed to decode openai responses stream: missing tool call '"@ + item_id + "'"@,
        ),
{
    lemma_call_at(state.active, item_id);
    if open_at(state, item_id, at) {
        assert(call_at(state.active, item_id) == Some(at));
        let after = told(
            state,
            ids,
            ReplyView::ResponseFunctionCallArgumentsDelta { item_id, delta },
        )->Ok_0;
        assert(after.events =~= seq![EventView::ToolArgsDelta { id: state.active[at].id, delta }]);
    }
}

/// A call that is completed is closed. What its full arguments have beyond those
/// told so far is told first, so that all of them are told.
pub proof fn law_completed_call_has_all_its_arguments(
    state: ResponsesState,
    ids: IdsView,
    item_id: Seq<char>,
    rest: Seq<char>,
    at: int,
)
    requires
        open_at(state, item_id, at),
    ensures
        told(
            state,
            ids,
            ReplyView::ResponseFunctionCallArgumentsDone {
                item_id,
                arguments: state.active[at].arguments + rest,
            },
        ) matches Ok(after) && {
            let id = state.active[at].id;
            &&& after.events == if rest.len() > 0 {
                seq![
                    EventView::ToolArgsDelta { id, delta: rest },
                    EventView::ToolCallEnd { id },
                ]
            } else {
                seq![EventView::ToolCallEnd { id }]
            }
            &&& after.state.active == state.active.remove(at)
            &&& after.state.completed == state.completed.push(item_id)
        },
{
    lemma_call_at(state.active, item_id);
    assert(call_at(state.active, item_id) == Some(at));
    let full = state.active[at].arguments + rest;
    assert(full.subrange(0, state.active[at].arguments.len() as int)
        =~= state.active[at].arguments);
    assert(full.subrange(state.active[at].arguments.len() as int, full.len() as int) =~= rest);
    assert(stripped(full, state.active[at].arguments) == Some(rest));
    let event = ReplyView::ResponseFunctionCallArgumentsDone { item_id, arguments: full };
    let after = told(state, ids, event)->Ok_0;
    let id = state.active[at].id;
    if rest.len() > 0 {
        assert(after.events =~= seq![
            EventView::ToolArgsDelta { id, delta: rest },
            EventView::ToolCallEnd { id },
        ]);
        let extended = extend_call(run_of(state, ids, Seq::empty()), item_id, rest);
        assert(extended.state.active.remove(at) =~= state.active.remove(at));
    } else {
        assert(after.events =~= seq![EventView::ToolCallEnd { id }]);
    }
}

/// A call that is told of only when it is complete is told of as a whole: it begins
/// under the identifier that its result has to answer, has all its arguments and
/// ends.
pub proof fn law_late_call_is_told_as_a_whole(
    state: ResponsesState,
    ids: IdsView,
    output_index: u32,
    call: FunctionCallView,
)
    requires
        call.id is Some,
        unseen(state, call.id->0),
    ensures
        told(
            state,
            ids,
            ReplyView::ResponseOutputItemDone { output_index, item: ItemView::FunctionCall(call) },
        ) matches Ok(after) && {
            let id = ids.fresh();
            let start = EventView::ToolCallStart {
                id,
                tool_call_id: call.call_id,
                name: canonical_name(call.name, state.names),
            };
            &&& after.events == if call.arguments.len() > 0 {
                seq![
                    start,
                    EventView::ToolArgsDelta { id, delta: call.arguments },
                    EventView::ToolCallEnd { id },
                ]
            } else {
                seq![start, EventView::ToolCallEnd { id }]
            }
            &&& after.state.completed == state.completed.push(call.id->0)
        },
{
    lemma_call_at(state.active, call.id->0);
    let event = ReplyView::ResponseOutputItemDone {
        output_index,
        item: ItemView::FunctionCall(call),
    };
    let after = told(state, ids, event)->Ok_0;
    let id = ids.fresh();
    let start = EventView::ToolCallStart {
        id,
        tool_call_id: call.call_id,
        name: canonical_name(call.name, state.names),
    };
    if call.arguments.len() > 0 {
        assert(after.events =~= seq![
            start,
            EventView::ToolArgsDelta { id, delta: call.arguments },
            EventView::ToolCallEnd { id },
        ]);
    } else {
        assert(after.events =~= seq![start, EventView::ToolCallEnd { id }]);
    }
}

/// Text is told as it comes, and so is a refusal: in the open block, or in a new one
/// where none is open.
pub proof fn law_text_is_told_as_it_comes(state: ResponsesState, ids: IdsView, delta: Seq<char>)
    ensures
        told(state, ids, ReplyView::ResponseOutputTextDelta { delta }) == told(
            state,
            ids,
            ReplyView::ResponseRefusalDelta { delta },
        ),
        told(state, ids, ReplyView::ResponseOutputTextDelta { delta }) matches Ok(after) && {
            if delta.len() == 0 {
                after.events.len() == 0 && after.state == state
            } else if state.text is Some {
                &&& after.events == seq![EventView::TextDelta { id: state.text->0.id, delta }]
                &&& after.state.text is Some
                &&& after.state.text->0.id == state.text->0.id
                &&& after.state.text->0.text == state.text->0.text + delta
            } else {
                let id = ids.fresh();
                &&& after.events == seq![
                    EventView::TextStart { id },
                    EventView::TextDelta { id, delta },
                ]
                &&& after.state.text is Some
                &&& after.state.text->0.id == id
                &&& after.state.text->0.text == delta
            }
        },
{
    let after = told(state, ids, ReplyView::ResponseOutputTextDelta { delta })->Ok_0;
    if delta.len() > 0 {
        if state.text is Some {
            assert(after.events =~= seq![EventView::TextDelta { id: state.text->0.id, delta }]);
        } else {
            let id = ids.fresh();
            assert(after.events =~= seq![
                EventView::TextStart { id },
                EventView::TextDelta { id, delta },
            ]);
            assert(Seq::<char>::empty() + delta =~= delta);
        }
    }
}

/// A text that is complete closes its block. What it has beyond the text told so far
/// is told first.
pub proof fn law_complete_text_closes_its_block(
    state: ResponsesState,
    ids: IdsView,
    rest: Seq<char>,
)
    requires
        state.text is Some,
    ensures
        ({
            let full = state.text->0.text + rest;
            told(state, ids, ReplyView::ResponseOutputTextDone { text: full }) == told(
                state,
                ids,
                ReplyView::ResponseRefusalDone { refusal: full },
            )
        }),
        told(
            state,
            ids,
            ReplyView::ResponseOutputTextDone { text: state.text->0.text + rest },
        ) matches Ok(after) && {
            let id = state.text->0.id;
            &&& after.events == if rest.len() > 0 {
                seq![EventView::TextDelta { id, delta: rest }, EventView::TextEnd { id }]
            } else {
                seq![EventView::TextEnd { id }]
            }
            &&& after.state.text is None
        },
{
    let full = state.text->0.text + rest;
    let id = state.text->0.id;
    assert(full.subrange(0, state.text->0.text.len() as int) =~= state.text->0.text);
    assert(full.subrange(state.text->0.text.len() as int, full.len() as int) =~= rest);
    assert(stripped(full, state.text->0.text) == Some(rest));
    let after = told(state, ids, ReplyView::ResponseOutputTextDone { text: full })->Ok_0;
    if rest.len() > 0 {
        assert(after.events =~= seq![
            EventView::TextDelta { id, delta: rest },
            EventView::TextEnd { id },
        ]);
    } else {
        assert(after.events =~= seq![EventView::TextEnd { id }]);
    }
}

/// Reasoning is told as it comes: in the open block, or in a new one where none is
/// open. A block that streams its summary takes none of the full text, and the
/// other way round.
pub proof fn law_reasoning_is_told_as_it_comes(
    state: ResponsesState,
    ids: IdsView,
    delta: Seq<char>,
)
    requires
        delta.len() > 0,
    ensures
        ({
            let summary = told(
                state,
                ids,
                ReplyView::ResponseReasoningSummaryTextDelta { delta },
            );
            let text = told(state, ids, ReplyView::ResponseReasoningTextDelta { delta });
            &&& summary is Ok && text is Ok
            &&& state.reasoning is None ==> {
                let id = ids.fresh();
                let said = seq![
                    EventView::ThinkingStart { id },
                    EventView::ThinkingDelta { id, delta },
                ];
                &&& summary->Ok_0.events == said
                &&& text->Ok_0.events == said
                &&& summary->Ok_0.state.reasoning->0.mode == Some(ReasoningStreamMode::Summary)
                &&& text->Ok_0.state.reasoning->0.mode == Some(ReasoningStreamMode::Text)
            }
            &&& state.reasoning matches Some(block) ==> {
                let said = seq![EventView::ThinkingDelta { id: block.id, delta }];
                &&& summary->Ok_0.events == if block.mode == Some(ReasoningStreamMode::Text) {
                    Seq::empty()
                } else {
                    said
                }
                &&& text->Ok_0.events == if block.mode == Some(ReasoningStreamMode::Summary) {
                    Seq::empty()
                } else {
                    said
                }
            }
        }),
{
    let summary = told(state, ids, ReplyView::ResponseReasoningSummaryTextDelta { delta })->Ok_0;
    let text = told(state, ids, ReplyView::ResponseReasoningTextDelta { delta })->Ok_0;
    match state.reasoning {
        None => {
            let id = ids.fresh();
            let said = seq![
                EventView::ThinkingStart { id },
                EventView::ThinkingDelta { id, delta },
            ];
            assert(summary.events =~= said);
            assert(text.events =~= said);
        },
        Some(block) => {
            let said = seq![EventView::ThinkingDelta { id: block.id, delta }];
            assert(summary.events =~= said || summary.events =~= Seq::empty());
            assert(text.events =~= said || text.events =~= Seq::empty());
            if block.mode != Some(ReasoningStreamMode::Text) {
                assert(summary.events =~= said);
            }
            if block.mode != Some(ReasoningStreamMode::Summary) {
                assert(text.events =~= said);
            }
        },
    }
}

/// Parts of a summary stand apart by a blank line: the first begins without one.
pub proof fn law_summary_parts_stand_apart(state: ResponsesState, ids: IdsView)
    ensures
        told(state, ids, ReplyView::ResponseReasoningSummaryPartAdded) matches Ok(after) && {
            &&& after.state.reasoning is Some
            &&& state.reasoning is None ==> {
                &&& after.events == seq![EventView::ThinkingStart { id: ids.fresh() }]
                &&& after.state.reasoning->0.summary_started
            }
            &&& state.reasoning matches Some(block) ==> {
                &&& block.mode == Some(ReasoningStreamMode::Text) ==> after.events.len() == 0
                    && after.state == state
                &&& block.mode != Some(ReasoningStreamMode::Text) && !block.summary_started
                    ==> after.events.len() == 0 && after.state.reasoning->0.summary_started
                &&& block.mode != Some(ReasoningStreamMode::Text) && block.summary_started
                    ==> after.events == seq![
                    EventView::ThinkingDelta { id: block.id, delta: "\n\n"@ },
                ]
            }
        },
{
    reveal_strlit("\n\n");
    assert("\n\n"@.len() == 2);
    let after = told(state, ids, ReplyView::ResponseReasoningSummaryPartAdded)->Ok_0;
    match state.reasoning {
        None => {
            assert(after.events =~= seq![EventView::ThinkingStart { id: ids.fresh() }]);
        },
        Some(block) => {
            if block.mode != Some(ReasoningStreamMode::Text) && block.summary_started {
                assert(after.events =~= seq![
                    EventView::ThinkingDelta { id: block.id, delta: "\n\n"@ },
                ]);
            }
        },
    }
}

/// Reasoning that is complete closes its block with the signature that the item has,
/// so that it can be sent back.
pub proof fn law_reasoning_ends_with_its_signature(
    state: ResponsesState,
    ids: IdsView,
    output_index: u32,
    item: ReasoningItemView,
)
    ensures
        told(
            state,
            ids,
            ReplyView::ResponseOutputItemDone { output_index, item: ItemView::Reasoning(item) },
        ) matches Ok(after) && {
            &&& state.reasoning is None ==> after.events.len() == 0
            &&& state.reasoning matches Some(block) ==> {
                &&& after.events.len() > 0
                &&& after.events.last() == (EventView::ThinkingEnd {
                    id: block.id,
                    signature: item.encrypted_content,
                })
                &&& after.events.len() <= 2
                &&& after.events.len() == 2 ==> after.events[0] is ThinkingDelta
                    && after.events[0]->ThinkingDelta_id == block.id && block.text
                    + after.events[0]->ThinkingDelta_delta == reasoning_text_spec(item)
                &&& after.state.reasoning is None
            }
        },
{
    if let Some(block) = state.reasoning {
        let full = reasoning_text_spec(item);
        if let Some(delta) = stripped(full, block.text) {
            assert(block.text + delta =~= full);
        }
    }
}

/// A message item opens the message under the identifier that the API gave it, and a
/// text block of its own, with the text that came with it.
pub proof fn law_message_item_opens_a_text(
    state: ResponsesState,
    ids: IdsView,
    output_index: u32,
    message: OutputMessageView,
)
    requires
        !state.started,
        state.message_id is None,
        state.text is None,
        is_message_item_id(message.id),
    ensures
        told(
            state,
            ids,
            ReplyView::ResponseOutputItemAdded { output_index, item: ItemView::Message(message) },
        ) matches Ok(after) && {
            let id = ids.fresh();
            let text = message_text(message.content);
            &&& after.events == if text.len() > 0 {
                seq![
                    EventView::MessageStart { id: message.id },
                    EventView::TextStart { id },
                    EventView::TextDelta { id, delta: text },
                ]
            } else {
                seq![EventView::MessageStart { id: message.id }, EventView::TextStart { id }]
            }
        },
{
    let event = ReplyView::ResponseOutputItemAdded {
        output_index,
        item: ItemView::Message(message),
    };
    let after = told(state, ids, event)->Ok_0;
    let id = ids.fresh();
    let text = message_text(message.content);
    if text.len() > 0 {
        assert(after.events =~= seq![
            EventView::MessageStart { id: message.id },
            EventView::TextStart { id },
            EventView::TextDelta { id, delta: text },
        ]);
    } else {
        assert(after.events =~= seq![
            EventView::MessageStart { id: message.id },
            EventView::TextStart { id },
        ]);
    }
}

/// A message's text is its pieces one after another, refusals among them.
pub proof fn law_message_text_has_every_piece(content: Seq<ContentView>, piece: Seq<char>)
    ensures
        message_text(Seq::empty()) == Seq::<char>::empty(),
        message_text(content.push(ContentView::OutputText(piece))) == message_text(content)
            + piece,
        message_text(content.push(ContentView::Refusal(piece))) == message_text(content) + piece,
{
    assert(content.push(ContentView::OutputText(piece)).drop_last() =~= content);
    assert(content.push(ContentView::Refusal(piece)).drop_last() =~= content);
}

/// Why a reply stopped: for its tool calls where it made any, for want of tokens
/// where the API says so, and otherwise because it was over.
pub open spec fn stopped_for(saw_tool_call: bool, reason: Option<Seq<char>>) -> StopReason {
    if saw_tool_call {
        StopReason::ToolUse
    } else if reason is Some && (reason->0 == "max_output_tokens"@ || reason->0
        == "max_completion_tokens"@) {
        StopReason::MaxTokens
    } else {
        StopReason::EndTurn
    }
}

/// A reply that is over is told its token counts and ends its message: with the
/// reason that it stopped for, and with the response's identifier where that is to be
/// remembered.
pub proof fn law_reply_ends_with_counts_and_reason(
    state: ResponsesState,
    ids: IdsView,
    response: ResponseView,
)
    requires
        state.started,
        state.message_id is Some,
    ensures
        told(state, ids, ReplyView::ResponseCompleted { response }) == told(
            state,
            ids,
            ReplyView::ResponseIncomplete { response },
        ),
        told(state, ids, ReplyView::ResponseCompleted { response }) matches Ok(after) && {
            let count: int = if response.usage is Some {
                2
            } else {
                1
            };
            &&& after.events.len() == count
            &&& response.usage matches Some(usage) ==> {
                &&& after.events[0] is UsageUpdate
                &&& after.events[0]->usage.input_tokens == usage.input_tokens
                &&& after.events[0]->usage.output_tokens == usage.output_tokens
                &&& after.events[0]->usage.cache_read_input_tokens == usage.cached_tokens
                &&& after.events[0]->usage.cache_creation_input_tokens == 0
            }
            &&& after.events.last() is MessageEnd
            &&& after.events.last()->MessageEnd_id == state.message_id->0
            &&& after.events.last()->stop_reason == stopped_for(
                state.saw_tool_call,
                response.incomplete_reason,
            )
            &&& state.track_response_id && response.id.len() > 0
                ==> after.events.last()->response_id == Some(response.id)
            &&& !state.track_response_id ==> after.events.last()->response_id == state.response_id
        },
{
}

/// A response's identifier is remembered exactly where that is asked for; hearing of
/// it tells nothing.
pub proof fn law_response_id_is_remembered(
    state: ResponsesState,
    ids: IdsView,
    response: ResponseView,
)
    ensures
        told(state, ids, ReplyView::ResponseCreated { response }) matches Ok(after) && {
            &&& after.events.len() == 0
            &&& after.ids == ids
            &&& after.state == if state.track_response_id && response.id.len() > 0 {
                ResponsesState { response_id: Some(response.id), ..state }
            } else {
                state
            }
        },
{
}

/// A reply that failed is an error that says what failed; an event of another kind
/// says nothing and changes nothing.
pub proof fn law_failed_reply_is_an_error(
    state: ResponsesState,
    ids: IdsView,
    response: ResponseView,
    message: Seq<char>,
)
    ensures
        told(state, ids, ReplyView::ResponseError { message }) == Err::<Run, Seq<char>>(
            "failed to execute provider request: "@ + message,
        ),
        told(state, ids, ReplyView::ResponseFailed { response }) == Err::<Run, Seq<char>>(
            if response.error_message is Some {
                "failed to execute provider request: "@ + response.error_message->0
            } else if response.incomplete_reason is Some {
                "failed to execute provider request: incomplete: "@ + response.incomplete_reason->0
            } else {
                "failed to execute provider request: openai response failed"@
            },
        ),
        told(state, ids, ReplyView::Other) == Ok::<Run, Seq<char>>(
            Run { state, ids, events: Seq::empty() },
        ),
{
}

/// A finished item completes its call as its finished arguments would, and its text as
/// its finished text would.
pub proof fn law_finished_item_completes_what_is_open(
    state: ResponsesState,
    ids: IdsView,
    output_index: u32,
    call: FunctionCallView,
    at: int,
    message: OutputMessageView,
)
    requires
        call.id is Some,
        open_at(state, call.id->0, at),
    ensures
        told(
            state,
            ids,
            ReplyView::ResponseOutputItemDone { output_index, item: ItemView::FunctionCall(call) },
        ) == told(
            state,
            ids,
            ReplyView::ResponseFunctionCallArgumentsDone {
                item_id: call.id->0,
                arguments: call.arguments,
            },
        ),
        told(
            state,
            ids,
            ReplyView::ResponseOutputItemDone { output_index, item: ItemView::Message(message) },
        ) == told(
            state,
            ids,
            ReplyView::ResponseOutputTextDone { text: message_text(message.content) },
        ),
{
    lemma_call_at(state.active, call.id->0);
}

/// Finished arguments that do not go on from those that came are not told; the call is
/// closed all the same.
pub proof fn law_other_arguments_are_not_added(
    state: ResponsesState,
    ids: IdsView,
    item_id: Seq<char>,
    arguments: Seq<char>,
    at: int,
)
    requires
        open_at(state, item_id, at),
        !crate::text::has_prefix(arguments, state.active[at].arguments),
    ensures
        told(
            state,
            ids,
            ReplyView::ResponseFunctionCallArgumentsDone { item_id, arguments },
        ) matches Ok(after) && after.events == seq![
            EventView::ToolCallEnd { id: state.active[at].id },
        ] && after.state.completed == state.completed.push(item_id),
{
    lemma_call_at(state.active, item_id);
    assert(call_at(state.active, item_id) == Some(at));
    let event = ReplyView::ResponseFunctionCallArgumentsDone { item_id, arguments };
    let after = told(state, ids, event)->Ok_0;
    assert(after.events =~= seq![EventView::ToolCallEnd { id: state.active[at].id }]);
}

/// Finished thoughts bring what is still missing, before their block ends with its
/// signature.
pub proof fn law_reasoning_is_completed(
    state: ResponsesState,
    ids: IdsView,
    output_index: u32,
    item: ReasoningItemView,
    rest: Seq<char>,
)
    requires
        state.reasoning is Some,
        reasoning_text_spec(item) == state.reasoning->0.text + rest,
    ensures
        told(
            state,
            ids,
            ReplyView::ResponseOutputItemDone { output_index, item: ItemView::Reasoning(item) },
        ) matches Ok(after) && {
            let id = state.reasoning->0.id;
            let end = EventView::ThinkingEnd { id, signature: item.encrypted_content };
            after.events == if rest.len() > 0 {
                seq![EventView::ThinkingDelta { id, delta: rest }, end]
            } else {
                seq![end]
            }
        },
{
    let block = state.reasoning->0;
    let full = block.text + rest;
    assert(full.subrange(0, block.text.len() as int) =~= block.text);
    assert(full.subrange(block.text.len() as int, full.len() as int) =~= rest);
    assert(stripped(full, block.text) == Some(rest));
    let after = told(
        state,
        ids,
        ReplyView::ResponseOutputItemDone { output_index, item: ItemView::Reasoning(item) },
    )->Ok_0;
    let end = EventView::ThinkingEnd { id: block.id, signature: item.encrypted_content };
    if rest.len() > 0 {
        assert(after.events =~= seq![EventView::ThinkingDelta { id: block.id, delta: rest }, end]);
    } else {
        assert(after.events =~= seq![end]);
    }
}

/// A finished fragment of thoughts brings what is still missing of it, in the block that
/// is open for its kind.
pub proof fn law_reasoning_fragments_are_completed(
    state: ResponsesState,
    ids: IdsView,
    rest: Seq<char>,
)
    requires
        state.reasoning is Some,
    ensures
        ({
            let block = state.reasoning->0;
            let full = block.text + rest;
            let more = seq![EventView::ThinkingDelta { id: block.id, delta: rest }];
            let summary = told(
                state,
                ids,
                ReplyView::ResponseReasoningSummaryTextDone { text: full },
            );
            let text = told(state, ids, ReplyView::ResponseReasoningTextDone { text: full });
            &&& summary is Ok && text is Ok
            &&& rest.len() == 0 ==> summary->Ok_0.events.len() == 0 && text->Ok_0.events.len() == 0
            &&& rest.len() > 0 && block.mode != Some(ReasoningStreamMode::Text)
                ==> summary->Ok_0.events == more
            &&& rest.len() > 0 && block.mode == Some(ReasoningStreamMode::Text)
                ==> summary->Ok_0.events.len() == 0
            &&& rest.len() > 0 && block.mode != Some(ReasoningStreamMode::Summary)
                ==> text->Ok_0.events == more
            &&& rest.len() > 0 && block.mode == Some(ReasoningStreamMode::Summary)
                ==> text->Ok_0.events.len() == 0
        }),
{
    let block = state.reasoning->0;
    let full = block.text + rest;
    assert(full.subrange(0, block.text.len() as int) =~= block.text);
    assert(full.subrange(block.text.len() as int, full.len() as int) =~= rest);
    assert(stripped(full, block.text) == Some(rest));
    let more = seq![EventView::ThinkingDelta { id: block.id, delta: rest }];
    let summary = told(state, ids, ReplyView::ResponseReasoningSummaryTextDone { text: full });
    let text = told(state, ids, ReplyView::ResponseReasoningTextDone { text: full });
    if rest.len() > 0 && block.mode != Some(ReasoningStreamMode::Text) {
        assert(summary->Ok_0.events =~= more);
    }
    if rest.len() > 0 && block.mode != Some(ReasoningStreamMode::Summary) {
        assert(text->Ok_0.events =~= more);
    }
}

/// An item of thoughts opens a block and tells what it has already.
pub proof fn law_reasoning_item_opens_a_block(
    state: ResponsesState,
    ids: IdsView,
    output_index: u32,
    item: ReasoningItemView,
)
    requires
        state.started,
        state.reasoning is None,
    ensures
        told(
            state,
            ids,
            ReplyView::ResponseOutputItemAdded { output_index, item: ItemView::Reasoning(item) },
        ) matches Ok(after) && {
            let id = ids.fresh();
            let text = reasoning_text_spec(item);
            &&& after.events == if text.len() > 0 {
                seq![EventView::ThinkingStart { id }, EventView::ThinkingDelta { id, delta: text }]
            } else {
                seq![EventView::ThinkingStart { id }]
            }
            &&& after.state.reasoning is Some && after.state.reasoning->0.id == id
            &&& text.len() > 0 ==> after.state.reasoning->0.mode == if item.summary.len() == 0 {
                Some(ReasoningStreamMode::Text)
            } else {
                Some(ReasoningStreamMode::Summary)
            }
        },
{
    let id = ids.fresh();
    let text = reasoning_text_spec(item);
    let after = told(
        state,
        ids,
        ReplyView::ResponseOutputItemAdded { output_index, item: ItemView::Reasoning(item) },
    )->Ok_0;
    if text.len() > 0 {
        assert(after.events =~= seq![
            EventView::ThinkingStart { id },
            EventView::ThinkingDelta { id, delta: text },
        ]);
    } else {
        assert(after.events =~= seq![EventView::ThinkingStart { id }]);
    }
}

/// The thoughts of an item are those of its summary, parted by empty lines; where that
/// says nothing, those of its content, one to a line.
pub proof fn law_reasoning_item_has_its_text(
    item: ReasoningItemView,
    texts: Seq<Seq<char>>,
    text: Seq<char>,
)
    ensures
        ({
            let summary = joined(nonempty_texts(item.summary), "\n\n"@);
            &&& summary.len() > 0 ==> reasoning_text_spec(item) == summary
            &&& summary.len() == 0 && item.content is Some ==> reasoning_text_spec(item) == joined(
                nonempty_texts(item.content->0),
                "\n"@,
            )
            &&& summary.len() == 0 && item.content is None ==> reasoning_text_spec(item).len() == 0
        }),
        nonempty_texts(Seq::empty()).len() == 0,
        text.len() > 0 ==> nonempty_texts(texts.push(text)) == nonempty_texts(texts).push(text),
        text.len() == 0 ==> nonempty_texts(texts.push(text)) == nonempty_texts(texts),
{
    assert(texts.push(text).drop_last() =~= texts);
}

/// An item without an identifier is known by its place.
pub proof fn law_nameless_item_is_known_by_its_place(id: Seq<char>, output_index: u32)
    ensures
        item_key_spec(Some(id), output_index) == id,
        item_key_spec(None, output_index) == "__halter_synth__:output_index:"@ + decimal(
            output_index as nat,
        ),
{
}

/// The message is opened once, under the identifier it was given; without one it goes by
/// that of the response, or by a new one.
pub proof fn law_message_is_named(run: Run, given: Option<Seq<char>>)
    ensures
        run.state.started ==> start_message(run, given) == run,
        !run.state.started ==> {
            let after = start_message(run, given);
            let own = run.state.message_id;
            let from = run.state.response_id;
            let named = given is Some && is_message_item_id(given->0);
            &&& after.state.started
            &&& after.events.len() == run.events.len() + 1
            &&& after.events.last() is MessageStart
            &&& after.state.message_id == Some(after.events.last()->MessageStart_id)
            &&& own is Some ==> after.events.last()->MessageStart_id == own->0
            &&& own is None && named ==> after.events.last()->MessageStart_id == given->0
            &&& own is None && !named && from is Some ==> after.events.last()->MessageStart_id
                == crate::openai_codec::synthesized_message_id(from->0)
            &&& own is None && !named && from is None ==> after.events.last()->MessageStart_id
                == run.ids.fresh() && after.ids == run.ids.advanced()
        },
{
}

} // verus!
