//! A streamed Responses reply opens its message once and ends no other one.

use vstd::prelude::*;

use crate::brackets::in_order;
use crate::ids::IdsView;
use crate::openai_laws::{is_fresh, law_reply_is_in_order, reply_events};
use crate::openai_stream::{
    close_call, close_reasoning, close_text, decoded, extend_call, extend_reasoning, extend_text,
    finish_call, finish_fragment, finish_reasoning, finish_response_spec, finish_text, item_added,
    item_done, open_reasoning, open_text, push_reasoning, push_text, run_of, start_call,
    start_message, start_summary_part, whole_call, ItemView, ReasoningStreamMode, ReplyView,
    ResponseView, ResponsesState, Run,
};
use crate::protocol::EventView;

verus! {

/// How many messages the events open.
pub open spec fn starts(events: Seq<EventView>) -> nat
    decreases events.len(),
{
    if events.len() == 0 {
        0
    } else {
        starts(events.drop_last()) + if events.last() is MessageStart {
            1nat
        } else {
            0nat
        }
    }
}

broadcast proof fn lemma_starts_push(events: Seq<EventView>, event: EventView)
    ensures
        #[trigger] starts(events.push(event)) == starts(events) + if event is MessageStart {
            1nat
        } else {
            0nat
        },
{
    assert(events.push(event).drop_last() =~= events);
}

proof fn lemma_starts_append(first: Seq<EventView>, second: Seq<EventView>)
    ensures
        starts(first + second) == starts(first) + starts(second),
    decreases second.len(),
{
    if second.len() == 0 {
        assert(first + second =~= first);
    } else {
        assert((first + second).drop_last() =~= first + second.drop_last());
        lemma_starts_append(first, second.drop_last());
    }
}

/// The message that is open after one event, if the event is allowed: a message
/// is opened where none is, and only the open one is ended.
pub open spec fn message_step(open: Option<Seq<char>>, event: EventView) -> Option<
    Option<Seq<char>>,
> {
    match event {
        EventView::MessageStart { id } => if open is None {
            Some(Some(id))
        } else {
            None
        },
        EventView::MessageEnd { id, .. } => if open == Some(id) {
            Some(open)
        } else {
            None
        },
        _ => Some(open),
    }
}

/// The message that is open after a run of events, if every event was allowed.
pub open spec fn message_after(open: Option<Seq<char>>, events: Seq<EventView>) -> Option<
    Option<Seq<char>>,
>
    decreases events.len(),
{
    if events.len() == 0 {
        Some(open)
    } else {
        match message_after(open, events.drop_last()) {
            Some(before) => message_step(before, events.last()),
            None => None,
        }
    }
}

broadcast proof fn lemma_message_push(
    open: Option<Seq<char>>,
    events: Seq<EventView>,
    event: EventView,
)
    ensures
        #[trigger] message_after(open, events.push(event)) == match message_after(open, events) {
            Some(before) => message_step(before, event),
            None => None,
        },
{
    assert(events.push(event).drop_last() =~= events);
}

proof fn lemma_message_append(
    open: Option<Seq<char>>,
    first: Seq<EventView>,
    second: Seq<EventView>,
)
    ensures
        message_after(open, first + second) == match message_after(open, first) {
            Some(middle) => message_after(middle, second),
            None => None,
        },
    decreases second.len(),
{
    if second.len() == 0 {
        assert(first + second =~= first);
    } else {
        assert((first + second).drop_last() =~= first + second.drop_last());
        lemma_message_append(open, first, second.drop_last());
    }
}

/// The message that a decoder has opened.
pub open spec fn opened_message(state: ResponsesState) -> Option<Seq<char>> {
    if state.started {
        state.message_id
    } else {
        None
    }
}

/// A decoder that has opened its message knows it by name.
pub open spec fn knows_its_message(state: ResponsesState) -> bool {
    state.started ==> state.message_id is Some
}

/// No message was opened or ended on the way.
spec fn quiet(before: Run, after: Run) -> bool {
    &&& after.state.started == before.state.started
    &&& after.state.message_id == before.state.message_id
    &&& starts(after.events) == starts(before.events)
    &&& forall|open: Option<Seq<char>>| #[trigger]
        message_after(open, after.events) == message_after(open, before.events)
}

/// The message was opened on the way if and only if it was not open before and
/// is open now, and no other one was ended.
spec fn told(before: Run, after: Run) -> bool {
    &&& knows_its_message(before.state) ==> knows_its_message(after.state)
    &&& forall|open: Option<Seq<char>>|
        knows_its_message(before.state) && message_after(open, before.events) == Some(
            opened_message(before.state),
        ) ==> #[trigger] message_after(open, after.events) == Some(opened_message(after.state))
    &&& before.state.started ==> after.state.started
    &&& starts(after.events) == starts(before.events) + if after.state.started
        && !before.state.started {
        1nat
    } else {
        0nat
    }
}

proof fn lemma_text_is_quiet(run: Run, text: Seq<char>)
    ensures
        quiet(run, close_text(run)),
        quiet(run, open_text(run)),
        quiet(run, extend_text(run, text)),
        quiet(run, push_text(run, text)),
        quiet(run, finish_text(run, text)),
{
    broadcast use {lemma_starts_push, lemma_message_push};

    if let Some(block) = run.state.text {
        if let Some(delta) = crate::openai_stream::stripped(text, block.text) {
            assert(quiet(run, extend_text(run, delta)));
            assert(quiet(extend_text(run, delta), close_text(extend_text(run, delta))));
        }
    }
    assert(quiet(open_text(run), extend_text(open_text(run), text)));
}

proof fn lemma_reasoning_is_quiet(
    run: Run,
    text: Seq<char>,
    mode: ReasoningStreamMode,
    signature: Option<Seq<char>>,
)
    ensures
        quiet(run, close_reasoning(run, signature)),
        quiet(run, open_reasoning(run)),
        quiet(run, extend_reasoning(run, text, mode)),
        quiet(run, push_reasoning(run, text, mode)),
        quiet(run, finish_fragment(run, text, mode)),
        quiet(run, finish_reasoning(run, text, signature)),
{
    broadcast use {lemma_starts_push, lemma_message_push};

    assert(quiet(open_reasoning(run), extend_reasoning(open_reasoning(run), text, mode)));
    if let Some(block) = run.state.reasoning {
        let mode = match block.mode {
            Some(mode) => mode,
            None => ReasoningStreamMode::Summary,
        };
        let after = finish_fragment(run, text, mode);
        assert(quiet(run, after));
        assert(quiet(after, close_reasoning(after, signature)));
    }
}

proof fn lemma_summary_part_is_quiet(run: Run)
    ensures
        quiet(run, start_summary_part(run)),
{
    let open = if run.state.reasoning is None {
        open_reasoning(run)
    } else {
        run
    };
    lemma_reasoning_is_quiet(run, "\n\n"@, ReasoningStreamMode::Summary, None);
    lemma_reasoning_is_quiet(open, "\n\n"@, ReasoningStreamMode::Summary, None);
}

proof fn lemma_call_is_quiet(
    run: Run,
    item_key: Seq<char>,
    call_id: Seq<char>,
    name: Seq<char>,
    arguments: Seq<char>,
    call: Option<(Seq<char>, Seq<char>)>,
)
    ensures
        quiet(run, extend_call(run, item_key, arguments)),
        quiet(run, start_call(run, item_key, call_id, name, arguments)),
        quiet(run, finish_call(run, item_key, arguments, call)),
{
    broadcast use {lemma_starts_push, lemma_message_push};

    let started = start_call(run, item_key, call_id, name, Seq::empty());
    assert(quiet(run, started));
    assert(quiet(started, extend_call(started, item_key, arguments)));
    if let Some((call_id, name)) = call {
        let id = run.ids.fresh();
        let whole = whole_call(run, item_key, arguments, call_id, name);
        let start = whole.events[run.events.len() as int];
        let end = EventView::ToolCallEnd { id };
        let short = run.events.push(start).push(end);
        let long = run.events.push(start).push(
            EventView::ToolArgsDelta { id, delta: arguments },
        ).push(end);
        assert(whole.events =~= if arguments.len() > 0 {
            long
        } else {
            short
        });
    }
    if let Some(at) = crate::openai_stream::call_at(run.state.active, item_key) {
        if let Some(delta) = crate::openai_stream::stripped(
            arguments,
            run.state.active[at].arguments,
        ) {
            assert(quiet(run, extend_call(run, item_key, delta)));
        }
        assert(quiet(run, close_call(run, item_key, arguments)));
    }
}

proof fn lemma_start_is_told(run: Run, given: Option<Seq<char>>)
    ensures
        told(run, start_message(run, given)),
{
    broadcast use {lemma_starts_push, lemma_message_push};

}

proof fn lemma_item_added_is_told(run: Run, output_index: u32, item: ItemView)
    ensures
        told(run, item_added(run, output_index, item)),
{
    match item {
        ItemView::Message(message) => {
            let started = start_message(run, Some(message.id));
            lemma_start_is_told(run, Some(message.id));
            lemma_text_is_quiet(started, Seq::empty());
            lemma_text_is_quiet(
                open_text(started),
                crate::openai_stream::message_text(message.content),
            );
        },
        ItemView::Reasoning(reasoning) => {
            let started = start_message(run, None);
            let mode = if reasoning.summary.len() == 0 {
                ReasoningStreamMode::Text
            } else {
                ReasoningStreamMode::Summary
            };
            lemma_start_is_told(run, None);
            lemma_reasoning_is_quiet(started, Seq::empty(), mode, None);
            lemma_reasoning_is_quiet(
                open_reasoning(started),
                crate::openai_stream::reasoning_text_spec(reasoning),
                mode,
                None,
            );
        },
        ItemView::FunctionCall(call) => {
            lemma_start_is_told(run, None);
            lemma_call_is_quiet(
                start_message(run, None),
                crate::openai_stream::item_key_spec(call.id, output_index),
                call.call_id,
                call.name,
                call.arguments,
                None,
            );
        },
        ItemView::Other => {},
    }
}

proof fn lemma_item_done_is_told(run: Run, output_index: u32, item: ItemView)
    ensures
        told(run, item_done(run, output_index, item)),
{
    match item {
        ItemView::Message(message) => {
            lemma_text_is_quiet(run, crate::openai_stream::message_text(message.content));
        },
        ItemView::Reasoning(reasoning) => {
            lemma_reasoning_is_quiet(
                run,
                crate::openai_stream::reasoning_text_spec(reasoning),
                ReasoningStreamMode::Summary,
                reasoning.encrypted_content,
            );
        },
        ItemView::FunctionCall(call) => {
            lemma_call_is_quiet(
                run,
                crate::openai_stream::item_key_spec(call.id, output_index),
                call.call_id,
                call.name,
                call.arguments,
                Some((call.call_id, call.name)),
            );
        },
        ItemView::Other => {},
    }
}

proof fn lemma_finish_is_told(run: Run, response: ResponseView)
    ensures
        told(run, finish_response_spec(run, response)),
{
    broadcast use {lemma_starts_push, lemma_message_push};

    let known = crate::openai_stream::remember_response(run, response.id);
    lemma_start_is_told(known, None);
}

/// One event opens the message if and only if it was not open before the event
/// and is open after it, and then it opens it once. It ends no message but the
/// open one.
pub proof fn law_event_opens_the_message_once(state: ResponsesState, ids: IdsView, event: ReplyView)
    ensures
        match decoded(run_of(state, ids, Seq::empty()), event) {
            Ok(after) => {
                &&& state.started ==> after.state.started
                &&& starts(after.events) == if after.state.started && !state.started {
                    1nat
                } else {
                    0nat
                }
                &&& knows_its_message(state) ==> knows_its_message(after.state)
                    && message_after(opened_message(state), after.events) == Some(
                    opened_message(after.state),
                )
            },
            Err(_) => true,
        },
{
    let run = run_of(state, ids, Seq::empty());
    assert(message_after(opened_message(state), run.events) == Some(opened_message(state)));
    assert(starts(run.events) == 0);
    match event {
        ReplyView::ResponseOutputItemAdded { output_index, item } => {
            lemma_item_added_is_told(run, output_index, item);
        },
        ReplyView::ResponseOutputTextDelta { delta } => {
            lemma_text_is_quiet(run, delta);
        },
        ReplyView::ResponseOutputTextDone { text } => {
            lemma_text_is_quiet(run, text);
        },
        ReplyView::ResponseRefusalDelta { delta } => {
            lemma_text_is_quiet(run, delta);
        },
        ReplyView::ResponseRefusalDone { refusal } => {
            lemma_text_is_quiet(run, refusal);
        },
        ReplyView::ResponseReasoningSummaryPartAdded => {
            lemma_summary_part_is_quiet(run);
        },
        ReplyView::ResponseReasoningSummaryTextDelta { delta } => {
            lemma_reasoning_is_quiet(run, delta, ReasoningStreamMode::Summary, None);
        },
        ReplyView::ResponseReasoningSummaryTextDone { text } => {
            lemma_reasoning_is_quiet(run, text, ReasoningStreamMode::Summary, None);
        },
        ReplyView::ResponseReasoningTextDelta { delta } => {
            lemma_reasoning_is_quiet(run, delta, ReasoningStreamMode::Text, None);
        },
        ReplyView::ResponseReasoningTextDone { text } => {
            lemma_reasoning_is_quiet(run, text, ReasoningStreamMode::Text, None);
        },
        ReplyView::ResponseFunctionCallArgumentsDelta { item_id, delta } => {
            lemma_call_is_quiet(run, item_id, item_id, item_id, delta, None);
        },
        ReplyView::ResponseFunctionCallArgumentsDone { item_id, arguments } => {
            lemma_call_is_quiet(run, item_id, item_id, item_id, arguments, None);
        },
        ReplyView::ResponseOutputItemDone { output_index, item } => {
            lemma_item_done_is_told(run, output_index, item);
        },
        ReplyView::ResponseCompleted { response } => {
            lemma_finish_is_told(run, response);
        },
        ReplyView::ResponseIncomplete { response } => {
            lemma_finish_is_told(run, response);
        },
        _ => {},
    }
}

/// A whole reply opens its message at most once, and not at all where it was
/// open already.
pub proof fn law_message_starts_at_most_once(
    state: ResponsesState,
    ids: IdsView,
    events: Seq<ReplyView>,
)
    ensures
        starts(reply_events(state, ids, events)) <= if state.started {
            0nat
        } else {
            1nat
        },
    decreases events.len(),
{
    if events.len() > 0 {
        law_event_opens_the_message_once(state, ids, events[0]);
        match decoded(run_of(state, ids, Seq::empty()), events[0]) {
            Ok(after) => {
                law_message_starts_at_most_once(after.state, after.ids, events.drop_first());
                lemma_starts_append(
                    after.events,
                    reply_events(after.state, after.ids, events.drop_first()),
                );
            },
            Err(_) => {
                law_message_starts_at_most_once(state, ids, events.drop_first());
            },
        }
    }
}

proof fn lemma_reply_follows_its_message(
    state: ResponsesState,
    ids: IdsView,
    events: Seq<ReplyView>,
)
    requires
        knows_its_message(state),
    ensures
        message_after(opened_message(state), reply_events(state, ids, events)) is Some,
    decreases events.len(),
{
    if events.len() > 0 {
        law_event_opens_the_message_once(state, ids, events[0]);
        match decoded(run_of(state, ids, Seq::empty()), events[0]) {
            Ok(after) => {
                lemma_reply_follows_its_message(after.state, after.ids, events.drop_first());
                lemma_message_append(
                    opened_message(state),
                    after.events,
                    reply_events(after.state, after.ids, events.drop_first()),
                );
            },
            Err(_) => {
                lemma_reply_follows_its_message(state, ids, events.drop_first());
            },
        }
    }
}

/// The message was opened before an event.
pub open spec fn was_started(events: Seq<EventView>, at: int, id: Seq<char>) -> bool {
    exists|i: int| 0 <= i < at && #[trigger] events[i] == (EventView::MessageStart { id })
}

/// At most one message is opened, and every end of a message comes after its
/// opening and goes by its name.
pub open spec fn message_in_order(events: Seq<EventView>) -> bool {
    &&& forall|i: int, j: int|
        0 <= i < j < events.len() && #[trigger] events[i] is MessageStart ==> !(
        #[trigger] events[j] is MessageStart)
    &&& forall|at: int|
        0 <= at < events.len() && #[trigger] events[at] is MessageEnd ==> was_started(
            events,
            at,
            events[at]->MessageEnd_id,
        )
}

proof fn lemma_open_message(events: Seq<EventView>, at: int)
    requires
        0 <= at <= events.len(),
        message_after(None, events) is Some,
    ensures
        message_after(None, events.subrange(0, at)) is Some,
        match message_after(None, events.subrange(0, at))->0 {
            Some(id) => was_started(events, at, id),
            None => forall|i: int| 0 <= i < at ==> !(#[trigger] events[i] is MessageStart),
        },
    decreases at,
{
    let rest = events.subrange(at, events.len() as int);
    assert(events =~= events.subrange(0, at) + rest);
    lemma_message_append(None, events.subrange(0, at), rest);
    if at > 0 {
        lemma_open_message(events, at - 1);
        assert(events.subrange(0, at).drop_last() =~= events.subrange(0, at - 1));
        let before = message_after(None, events.subrange(0, at - 1))->0;
        if let Some(id) = message_after(None, events.subrange(0, at))->0 {
            if before == Some(id) {
                let i = choose|i: int|
                    0 <= i < at - 1 && #[trigger] events[i] == (EventView::MessageStart { id });
                assert(events[i] == (EventView::MessageStart { id }));
            } else {
                assert(events[at - 1] == (EventView::MessageStart { id }));
            }
        }
    }
}

/// Of everything that a decoder ever tells of one reply: it opens one message at
/// most, and ends it, under the same name, only after it was opened.
pub proof fn law_message_ends_as_it_started(
    state: ResponsesState,
    ids: IdsView,
    events: Seq<ReplyView>,
)
    requires
        is_fresh(state),
    ensures
        message_in_order(reply_events(state, ids, events)),
{
    let told = reply_events(state, ids, events);
    lemma_reply_follows_its_message(state, ids, events);
    assert forall|at: int| 0 <= at < told.len() && #[trigger] told[at] is MessageEnd implies
        was_started(told, at, told[at]->MessageEnd_id) by {
        lemma_open_message(told, at);
        lemma_open_message(told, at + 1);
        assert(told.subrange(0, at + 1).drop_last() =~= told.subrange(0, at));
    }
    assert forall|i: int, j: int|
        0 <= i < j < told.len() && #[trigger] told[i] is MessageStart implies !(
    #[trigger] told[j] is MessageStart) by {
        lemma_open_message(told, j);
        lemma_open_message(told, j + 1);
        assert(told.subrange(0, j + 1).drop_last() =~= told.subrange(0, j));
    }
}

/// Of everything that a decoder tells of one reply, whatever it is handed: one
/// message is opened at most and ended only after that, under the same name; and
/// each block is opened once, added to and closed only while it is open, and
/// closed once at most.
pub proof fn law_decoder_tells_in_order(state: ResponsesState, ids: IdsView, events: Seq<ReplyView>)
    requires
        is_fresh(state),
    ensures
        message_in_order(reply_events(state, ids, events)),
        in_order(reply_events(state, ids, events)),
{
    law_message_ends_as_it_started(state, ids, events);
    law_reply_is_in_order(state, ids, events);
}

} // verus!
