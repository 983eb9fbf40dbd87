//! What holds of a guarded stream from its beginning on, whatever happens to it.

use vstd::prelude::*;

use crate::protocol::EventView;
use crate::resilience::{
    commits, deduplicated, is_repeat, new_session, seen_after, step, ActionView, InputView,
    ResiliencePolicy, SessionView,
};
use crate::retry::Draw;

verus! {

/// Whether an action ends the stream.
pub open spec fn is_last(action: ActionView) -> bool {
    action is Finish || action is Fail
}

pub open spec fn is_over(actions: Seq<ActionView>) -> bool {
    actions.len() > 0 && is_last(actions.last())
}

/// A stream from its beginning on: where it stands after some inputs, and what
/// was done about each. Nothing is done once it has ended.
pub open spec fn run(policy: ResiliencePolicy, inputs: Seq<(InputView, Draw)>) -> (
    SessionView,
    Seq<ActionView>,
)
    decreases inputs.len(),
{
    if inputs.len() == 0 {
        (new_session(policy), Seq::empty())
    } else {
        let (session, actions) = run(policy, inputs.drop_last());
        if is_over(actions) {
            (session, actions)
        } else {
            let (input, draw) = inputs.last();
            let (after, action) = step(session, input, draw);
            (after, actions.push(action))
        }
    }
}

/// The events that an action passes on.
pub open spec fn passed_on(action: ActionView) -> Seq<EventView> {
    match action {
        ActionView::Forward(events) => events,
        ActionView::Finish(events) => events,
        _ => Seq::empty(),
    }
}

/// All events that the consumer has seen.
pub open spec fn delivered(actions: Seq<ActionView>) -> Seq<EventView>
    decreases actions.len(),
{
    if actions.len() == 0 {
        Seq::empty()
    } else {
        delivered(actions.drop_last()) + passed_on(actions.last())
    }
}

/// How often the stream was set up again.
pub open spec fn retries(actions: Seq<ActionView>) -> nat
    decreases actions.len(),
{
    if actions.len() == 0 {
        0
    } else {
        retries(actions.drop_last()) + if actions.last() is RetryAfter {
            1nat
        } else {
            0nat
        }
    }
}

proof fn lemma_push(actions: Seq<ActionView>, action: ActionView)
    ensures
        delivered(actions.push(action)) == delivered(actions) + passed_on(action),
        retries(actions.push(action)) == retries(actions) + if action is RetryAfter {
            1nat
        } else {
            0nat
        },
{
    assert(actions.push(action).drop_last() =~= actions);
}

/// Until content is passed on, nothing is.
proof fn lemma_silent_until_committed(policy: ResiliencePolicy, inputs: Seq<(InputView, Draw)>)
    ensures
        ({
            let (session, actions) = run(policy, inputs);
            &&& session.policy == policy
            &&& !is_over(actions) && !session.committed ==> delivered(actions).len() == 0
            &&& !is_over(actions) ==> retries(actions) == session.failures
            &&& retries(actions) == 0 || retries(actions) < policy.request_retry.max_attempts
        }),
    decreases inputs.len(),
{
    if inputs.len() > 0 {
        lemma_silent_until_committed(policy, inputs.drop_last());
        let (session, actions) = run(policy, inputs.drop_last());
        if !is_over(actions) {
            let (input, draw) = inputs.last();
            let (after, action) = step(session, input, draw);
            lemma_push(actions, action);
            assert(actions.push(action).last() == action);
        }
    }
}

/// Another attempt is only made where the consumer has not seen anything, and
/// once content was passed on no other attempt follows.
pub proof fn law_no_retry_after_output(policy: ResiliencePolicy, inputs: Seq<(InputView, Draw)>)
    requires
        run(policy, inputs).1.len() > 0,
        run(policy, inputs).1.last() is RetryAfter,
    ensures
        delivered(run(policy, inputs).1) == Seq::<EventView>::empty(),
    decreases inputs.len(),
{
    if inputs.len() > 0 {
        let (session, actions) = run(policy, inputs.drop_last());
        if is_over(actions) {
            law_no_retry_after_output(policy, inputs.drop_last());
        } else {
            lemma_silent_until_committed(policy, inputs.drop_last());
            let (input, draw) = inputs.last();
            let (after, action) = step(session, input, draw);
            lemma_push(actions, action);
            assert(actions.push(action).last() == action);
            assert(delivered(actions.push(action)) =~= Seq::<EventView>::empty());
        }
    }
}

/// The stream is set up at most as often as the policy allows attempts.
pub proof fn law_attempts_are_bounded(policy: ResiliencePolicy, inputs: Seq<(InputView, Draw)>)
    ensures
        retries(run(policy, inputs).1) == 0 || retries(run(policy, inputs).1)
            < policy.request_retry.max_attempts,
{
    lemma_silent_until_committed(policy, inputs);
}

/// No message is started twice.
pub open spec fn starts_once(events: Seq<EventView>) -> bool {
    forall|i: int, j: int|
        0 <= i < j < events.len() && (#[trigger] events[i] is MessageStart) && (
        #[trigger] events[j] is MessageStart) ==> events[i]->MessageStart_id
            != events[j]->MessageStart_id
}

/// Every message that was started has been seen.
pub open spec fn starts_seen(events: Seq<EventView>, seen: Seq<Seq<char>>) -> bool {
    forall|i: int|
        0 <= i < events.len() && (#[trigger] events[i] is MessageStart) ==> seen.contains(
            events[i]->MessageStart_id,
        )
}

proof fn lemma_seen_grows(seen: Seq<Seq<char>>, event: EventView, id: Seq<char>)
    requires
        seen.contains(id),
    ensures
        seen_after(seen, event).contains(id),
{
    let at = choose|at: int| 0 <= at < seen.len() && seen[at] == id;
    assert(seen_after(seen, event)[at] == id);
}

/// What is passed on after some events starts no message that was started
/// before, and none twice.
proof fn lemma_deduplicated_starts(
    earlier: Seq<EventView>,
    seen: Seq<Seq<char>>,
    events: Seq<EventView>,
)
    requires
        starts_once(earlier),
        starts_seen(earlier, seen),
    ensures
        starts_once(earlier + deduplicated(seen, events).1),
        starts_seen(earlier + deduplicated(seen, events).1, deduplicated(seen, events).0),
    decreases events.len(),
{
    if events.len() == 0 {
        assert(earlier + deduplicated(seen, events).1 =~= earlier);
    } else {
        lemma_deduplicated_starts(earlier, seen, events.drop_last());
        let (so_far, kept) = deduplicated(seen, events.drop_last());
        let event = events.last();
        let after = seen_after(so_far, event);
        let before = earlier + kept;
        let all = earlier + deduplicated(seen, events).1;
        if is_repeat(so_far, event) {
            assert(all =~= before);
        } else {
            assert(all =~= before.push(event));
            if event is MessageStart {
                assert(after[after.len() - 1] == event->MessageStart_id);
            }
        }
        assert forall|i: int| 0 <= i < all.len() && (#[trigger] all[i] is MessageStart) implies
            after.contains(all[i]->MessageStart_id) by {
            if i < before.len() {
                assert(before[i] == all[i]);
                lemma_seen_grows(so_far, event, all[i]->MessageStart_id);
            }
        }
        assert forall|i: int, j: int|
            0 <= i < j < all.len() && (#[trigger] all[i] is MessageStart) && (
            #[trigger] all[j] is MessageStart) implies all[i]->MessageStart_id
            != all[j]->MessageStart_id by {
            assert(before[i] == all[i]);
            if j < before.len() {
                assert(before[j] == all[j]);
            }
        }
    }
}

/// The consumer never sees a message started twice.
pub proof fn law_messages_start_once(policy: ResiliencePolicy, inputs: Seq<(InputView, Draw)>)
    ensures
        starts_once(delivered(run(policy, inputs).1)),
        starts_seen(delivered(run(policy, inputs).1), run(policy, inputs).0.seen),
    decreases inputs.len(),
{
    if inputs.len() > 0 {
        law_messages_start_once(policy, inputs.drop_last());
        let (session, actions) = run(policy, inputs.drop_last());
        if !is_over(actions) {
            let (input, draw) = inputs.last();
            let (after, action) = step(session, input, draw);
            lemma_push(actions, action);
            match input {
                InputView::Event(EventView::Error { .. }) => {
                    assert(delivered(actions.push(action)) =~= delivered(actions));
                },
                InputView::Event(event) => {
                    lemma_deduplicated_starts(
                        delivered(actions),
                        session.seen,
                        session.pending.push(event),
                    );
                    if !(session.committed || commits(event)) {
                        assert(delivered(actions.push(action)) =~= delivered(actions));
                    }
                },
                InputView::Ended => {
                    lemma_deduplicated_starts(delivered(actions), session.seen, session.pending);
                },
                _ => {
                    assert(delivered(actions.push(action)) =~= delivered(actions));
                },
            }
        }
    }
}

proof fn lemma_deduplicated_splits(
    seen: Seq<Seq<char>>,
    first: Seq<EventView>,
    second: Seq<EventView>,
)
    ensures
        ({
            let (middle, kept) = deduplicated(seen, first);
            let (last, more) = deduplicated(middle, second);
            deduplicated(seen, first + second) == (last, kept + more)
        }),
    decreases second.len(),
{
    let (middle, kept) = deduplicated(seen, first);
    if second.len() == 0 {
        assert(first + second =~= first);
        assert(kept + deduplicated(middle, second).1 =~= kept);
    } else {
        lemma_deduplicated_splits(seen, first, second.drop_last());
        assert((first + second).drop_last() =~= first + second.drop_last());
        let (_, more) = deduplicated(middle, second.drop_last());
        assert(kept + more.push(second.last()) =~= (kept + more).push(second.last()));
    }
}

/// The events that the last attempt brought. An attempt that was given up for
/// another one counts no more.
pub open spec fn attempt_events(policy: ResiliencePolicy, inputs: Seq<(InputView, Draw)>) -> Seq<
    EventView,
>
    decreases inputs.len(),
{
    if inputs.len() == 0 {
        Seq::empty()
    } else {
        let before = attempt_events(policy, inputs.drop_last());
        let (session, actions) = run(policy, inputs.drop_last());
        let (input, draw) = inputs.last();
        if is_over(actions) {
            before
        } else if step(session, input, draw).1 is RetryAfter {
            Seq::empty()
        } else {
            match input {
                InputView::Event(EventView::Error { .. }) => before,
                InputView::Event(event) => before.push(event),
                _ => before,
            }
        }
    }
}

/// The events without repeated starts of a message.
pub open spec fn without_repeats(events: Seq<EventView>) -> Seq<EventView> {
    deduplicated(Seq::empty(), events).1
}

proof fn lemma_attempt_is_delivered(policy: ResiliencePolicy, inputs: Seq<(InputView, Draw)>)
    ensures
        ({
            let (session, actions) = run(policy, inputs);
            let attempt = attempt_events(policy, inputs);
            &&& session.committed || (is_over(actions) && actions.last() is Finish)
                ==> delivered(actions) == without_repeats(attempt)
            &&& !session.committed && !(is_over(actions) && actions.last() is Finish)
                ==> delivered(actions) == Seq::<EventView>::empty()
            &&& session.committed && !is_over(actions) ==> session.pending == Seq::<
                EventView,
            >::empty() && session.seen == deduplicated(Seq::empty(), attempt).0
            &&& !session.committed && !is_over(actions) ==> session.pending == attempt
                && session.seen == Seq::<Seq<char>>::empty()
        }),
    decreases inputs.len(),
{
    let none = Seq::<Seq<char>>::empty();
    if inputs.len() > 0 {
        lemma_attempt_is_delivered(policy, inputs.drop_last());
        let (session, actions) = run(policy, inputs.drop_last());
        let before = attempt_events(policy, inputs.drop_last());
        if !is_over(actions) {
            let (input, draw) = inputs.last();
            let (after, action) = step(session, input, draw);
            lemma_push(actions, action);
            assert(actions.push(action).last() == action);
            let nothing = Seq::<EventView>::empty();
            assert(delivered(actions) + nothing =~= delivered(actions));
            assert(deduplicated(session.seen, nothing) == (session.seen, nothing));
            match input {
                InputView::Event(EventView::Error { .. }) => {},
                InputView::Event(event) => {
                    assert(before + seq![event] =~= before.push(event));
                    if session.committed {
                        assert(session.pending.push(event) =~= seq![event]);
                        lemma_deduplicated_splits(none, before, seq![event]);
                    } else if commits(event) {
                        assert(nothing + without_repeats(before.push(event)) =~= without_repeats(
                            before.push(event),
                        ));
                    }
                },
                InputView::Ended => {
                    if !session.committed {
                        assert(nothing + without_repeats(before) =~= without_repeats(before));
                    }
                },
                _ => {},
            }
        }
    }
}

/// What the consumer of a stream that ended has seen is exactly what the last
/// attempt brought, in order, but for repeated starts of a message; nothing of an
/// attempt that failed before it.
pub proof fn law_completed_stream_is_delivered(
    policy: ResiliencePolicy,
    inputs: Seq<(InputView, Draw)>,
)
    requires
        run(policy, inputs).1.len() > 0,
        run(policy, inputs).1.last() is Finish,
    ensures
        delivered(run(policy, inputs).1) == without_repeats(attempt_events(policy, inputs)),
{
    lemma_attempt_is_delivered(policy, inputs);
}

/// At every moment, whether or not the stream has ended or failed, the consumer
/// has seen what the last attempt brought so far, but for repeated starts of a
/// message, or nothing at all where that attempt has brought no content yet.
pub proof fn law_only_the_last_attempt_is_seen(
    policy: ResiliencePolicy,
    inputs: Seq<(InputView, Draw)>,
)
    ensures
        ({
            let seen = delivered(run(policy, inputs).1);
            ||| seen == without_repeats(attempt_events(policy, inputs))
            ||| seen == Seq::<EventView>::empty() && !run(policy, inputs).0.committed
        }),
{
    lemma_attempt_is_delivered(policy, inputs);
}

} // verus!
