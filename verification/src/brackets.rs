//! What it means for a stream of events to be well bracketed: every block is
//! opened once under an identifier of its own, continued and closed only while it
//! is open, and never opened again.

use vstd::prelude::*;

use crate::ids::{law_fresh_ids_differ, IdsView};
use crate::protocol::EventView;

verus! {

/// What has become of a block: it is open, as a block of one sort, or closed.
pub ghost enum BlockState {
    Text,
    Thinking,
    Tool,
    Closed,
}

/// The blocks that are known after one event, if the event is allowed.
pub open spec fn bracket_step(known: Map<Seq<char>, BlockState>, event: EventView) -> Option<
    Map<Seq<char>, BlockState>,
> {
    match event {
        EventView::TextStart { id } => opened(known, id, BlockState::Text),
        EventView::TextDelta { id, .. } => continued(known, id, BlockState::Text),
        EventView::TextEnd { id } => closed(known, id, BlockState::Text),
        EventView::ThinkingStart { id } => opened(known, id, BlockState::Thinking),
        EventView::ThinkingDelta { id, .. } => continued(known, id, BlockState::Thinking),
        EventView::ThinkingEnd { id, .. } => closed(known, id, BlockState::Thinking),
        EventView::ToolCallStart { id, .. } => opened(known, id, BlockState::Tool),
        EventView::ToolArgsDelta { id, .. } => continued(known, id, BlockState::Tool),
        EventView::ToolCallEnd { id } => closed(known, id, BlockState::Tool),
        _ => Some(known),
    }
}

pub open spec fn opened(known: Map<Seq<char>, BlockState>, id: Seq<char>, kind: BlockState) -> Option<
    Map<Seq<char>, BlockState>,
> {
    if known.contains_key(id) {
        None
    } else {
        Some(known.insert(id, kind))
    }
}

pub open spec fn continued(
    known: Map<Seq<char>, BlockState>,
    id: Seq<char>,
    kind: BlockState,
) -> Option<Map<Seq<char>, BlockState>> {
    if known.contains_pair(id, kind) {
        Some(known)
    } else {
        None
    }
}

pub open spec fn closed(known: Map<Seq<char>, BlockState>, id: Seq<char>, kind: BlockState) -> Option<
    Map<Seq<char>, BlockState>,
> {
    if known.contains_pair(id, kind) {
        Some(known.insert(id, BlockState::Closed))
    } else {
        None
    }
}

/// The blocks that are known after a run of events, if every event was allowed.
pub open spec fn bracketed(known: Map<Seq<char>, BlockState>, events: Seq<EventView>) -> Option<
    Map<Seq<char>, BlockState>,
>
    decreases events.len(),
{
    if events.len() == 0 {
        Some(known)
    } else {
        match bracketed(known, events.drop_last()) {
            Some(before) => bracket_step(before, events.last()),
            None => None,
        }
    }
}

/// Every known block has an identifier that the source has issued.
pub open spec fn all_issued(known: Map<Seq<char>, BlockState>, ids: IdsView) -> bool {
    forall|id: Seq<char>| #[trigger] known.contains_key(id) ==> was_issued(ids, id)
}

pub open spec fn was_issued(ids: IdsView, id: Seq<char>) -> bool {
    exists|n: nat| n < ids.issued && id == #[trigger] (IdsView { seed: ids.seed, issued: n }).fresh()
}

pub proof fn lemma_fresh_is_new(ids: IdsView, id: Seq<char>)
    requires
        was_issued(ids, id),
    ensures
        id != ids.fresh(),
{
    let n = choose|n: nat|
        n < ids.issued && id == #[trigger] (IdsView { seed: ids.seed, issued: n }).fresh();
    law_fresh_ids_differ(ids.seed, n, ids.issued);
    assert(ids == (IdsView { seed: ids.seed, issued: ids.issued }));
}

pub proof fn lemma_issued_grows(ids: IdsView, more: IdsView, id: Seq<char>)
    requires
        was_issued(ids, id),
        more.seed == ids.seed,
        more.issued >= ids.issued,
    ensures
        was_issued(more, id),
{
    let n = choose|n: nat|
        n < ids.issued && id == #[trigger] (IdsView { seed: ids.seed, issued: n }).fresh();
    assert(id == (IdsView { seed: more.seed, issued: n }).fresh());
}

pub proof fn lemma_fresh_was_issued(ids: IdsView)
    ensures
        was_issued(ids.advanced(), ids.fresh()),
{
    assert(ids == (IdsView { seed: ids.seed, issued: ids.issued }));
    assert(ids.fresh() == (IdsView { seed: ids.advanced().seed, issued: ids.issued }).fresh());
}

pub proof fn lemma_bracketed_append(
    known: Map<Seq<char>, BlockState>,
    first: Seq<EventView>,
    second: Seq<EventView>,
)
    ensures
        bracketed(known, first + second) == match bracketed(known, first) {
            Some(middle) => bracketed(middle, second),
            None => None,
        },
    decreases second.len(),
{
    if second.len() == 0 {
        assert(first + second =~= first);
    } else {
        assert((first + second).drop_last() =~= first + second.drop_last());
        assert((first + second).last() == second.last());
        lemma_bracketed_append(known, first, second.drop_last());
    }
}

pub proof fn lemma_bracketed_one(known: Map<Seq<char>, BlockState>, event: EventView)
    ensures
        bracketed(known, seq![event]) == bracket_step(known, event),
{
    assert(seq![event].drop_last() =~= Seq::empty());
    assert(bracketed(known, Seq::empty()) == Some(known));
}

pub proof fn lemma_bracketed_push(
    known: Map<Seq<char>, BlockState>,
    events: Seq<EventView>,
    event: EventView,
)
    ensures
        bracketed(known, events.push(event)) == match bracketed(known, events) {
            Some(before) => bracket_step(before, event),
            None => None,
        },
{
    assert(events.push(event).drop_last() =~= events);
}

/// The event opens the block, as one of that sort.
pub open spec fn opens(event: EventView, id: Seq<char>, sort: BlockState) -> bool {
    match event {
        EventView::TextStart { id: given } => given == id && sort == BlockState::Text,
        EventView::ThinkingStart { id: given } => given == id && sort == BlockState::Thinking,
        EventView::ToolCallStart { id: given, .. } => given == id && sort == BlockState::Tool,
        _ => false,
    }
}

/// The event adds to the block, as to one of that sort.
pub open spec fn adds_to(event: EventView, id: Seq<char>, sort: BlockState) -> bool {
    match event {
        EventView::TextDelta { id: given, .. } => given == id && sort == BlockState::Text,
        EventView::ThinkingDelta { id: given, .. } => given == id && sort == BlockState::Thinking,
        EventView::ToolArgsDelta { id: given, .. } => given == id && sort == BlockState::Tool,
        _ => false,
    }
}

/// The event closes the block, as one of that sort.
pub open spec fn closes(event: EventView, id: Seq<char>, sort: BlockState) -> bool {
    match event {
        EventView::TextEnd { id: given } => given == id && sort == BlockState::Text,
        EventView::ThinkingEnd { id: given, .. } => given == id && sort == BlockState::Thinking,
        EventView::ToolCallEnd { id: given } => given == id && sort == BlockState::Tool,
        _ => false,
    }
}

/// A block was opened before an event, as one of that sort.
pub open spec fn was_opened(events: Seq<EventView>, at: int, id: Seq<char>, sort: BlockState) -> bool {
    exists|i: int| 0 <= i < at && opens(#[trigger] events[i], id, sort)
}

/// A block was closed before an event.
pub open spec fn was_closed(events: Seq<EventView>, at: int, id: Seq<char>) -> bool {
    exists|i: int, sort: BlockState| 0 <= i < at && #[trigger] closes(events[i], id, sort)
}

/// Every block is opened once. What adds to it or closes it does so as its sort
/// asks, after it was opened and before it was closed; so it is closed once at
/// most.
pub open spec fn in_order(events: Seq<EventView>) -> bool {
    &&& forall|at: int, id: Seq<char>, sort: BlockState, other: BlockState|
        0 <= at < events.len() && #[trigger] opens(events[at], id, sort) ==> !#[trigger] was_opened(
            events,
            at,
            id,
            other,
        )
    &&& forall|at: int, id: Seq<char>, sort: BlockState|
        0 <= at < events.len() && (adds_to(events[at], id, sort) || closes(
            events[at],
            id,
            sort,
        )) ==> #[trigger] was_opened(events, at, id, sort) && !was_closed(events, at, id)
}

proof fn lemma_known_blocks(events: Seq<EventView>, at: int, id: Seq<char>)
    requires
        0 <= at <= events.len(),
        bracketed(Map::empty(), events.subrange(0, at)) is Some,
    ensures
        ({
            let known = bracketed(Map::empty(), events.subrange(0, at))->0;
            &&& forall|sort: BlockState| #[trigger]
                was_opened(events, at, id, sort) ==> known.contains_key(id)
            &&& was_closed(events, at, id) ==> known.contains_pair(id, BlockState::Closed)
            &&& known.contains_key(id) && known[id] != BlockState::Closed ==> was_opened(
                events,
                at,
                id,
                known[id],
            )
        }),
    decreases at,
{
    let none = Map::<Seq<char>, BlockState>::empty();
    let so_far = events.subrange(0, at);
    if at > 0 {
        let rest = events.subrange(0, at - 1);
        assert(so_far.drop_last() =~= rest);
        lemma_known_blocks(events, at - 1, id);
        let before = bracketed(none, rest)->0;
        let after = bracketed(none, so_far)->0;
        let event = events[at - 1];
        assert(bracket_step(before, event) == Some(after));
        assert forall|sort: BlockState| #[trigger]
            was_opened(events, at, id, sort) implies after.contains_key(id) by {
            let i = choose|i: int| 0 <= i < at && opens(#[trigger] events[i], id, sort);
            if i < at - 1 {
                assert(was_opened(events, at - 1, id, sort));
            }
        }
        if was_closed(events, at, id) {
            let (i, sort) = choose|i: int, sort: BlockState|
                0 <= i < at && #[trigger] closes(events[i], id, sort);
            if i < at - 1 {
                assert(was_closed(events, at - 1, id));
            }
        }
        if after.contains_key(id) && after[id] != BlockState::Closed {
            if opens(event, id, after[id]) {
                assert(was_opened(events, at, id, after[id]));
            } else {
                assert(before.contains_pair(id, after[id]));
                let i = choose|i: int|
                    0 <= i < at - 1 && opens(#[trigger] events[i], id, after[id]);
                assert(opens(events[i], id, after[id]));
            }
        }
    } else {
        assert(so_far =~= Seq::empty());
    }
}

proof fn lemma_bracketed_prefix(events: Seq<EventView>, at: int)
    requires
        0 <= at <= events.len(),
        bracketed(Map::empty(), events) is Some,
    ensures
        bracketed(Map::empty(), events.subrange(0, at)) is Some,
{
    assert(events =~= events.subrange(0, at) + events.subrange(at, events.len() as int));
    lemma_bracketed_append(
        Map::empty(),
        events.subrange(0, at),
        events.subrange(at, events.len() as int),
    );
}

/// In a stream that is well bracketed the events of every block come in order.
pub proof fn law_bracketed_is_in_order(events: Seq<EventView>)
    requires
        bracketed(Map::empty(), events) is Some,
    ensures
        in_order(events),
{
    let none = Map::<Seq<char>, BlockState>::empty();
    assert forall|at: int, id: Seq<char>, sort: BlockState, other: BlockState|
        0 <= at < events.len() && #[trigger] opens(events[at], id, sort) implies !#[trigger]
    was_opened(events, at, id, other) by {
        lemma_bracketed_prefix(events, at);
        lemma_bracketed_prefix(events, at + 1);
        lemma_known_blocks(events, at, id);
        assert(events.subrange(0, at + 1).drop_last() =~= events.subrange(0, at));
    }
    assert forall|at: int, id: Seq<char>, sort: BlockState|
        0 <= at < events.len() && (adds_to(events[at], id, sort) || closes(
            events[at],
            id,
            sort,
        )) implies #[trigger] was_opened(events, at, id, sort) && !was_closed(events, at, id) by {
        lemma_bracketed_prefix(events, at);
        lemma_bracketed_prefix(events, at + 1);
        lemma_known_blocks(events, at, id);
        assert(events.subrange(0, at + 1).drop_last() =~= events.subrange(0, at));
        let known = bracketed(none, events.subrange(0, at))->0;
        assert(known.contains_pair(id, sort));
    }
}

} // verus!
