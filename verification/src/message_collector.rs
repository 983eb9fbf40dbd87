//! Gathers the text and the tool calls of a streamed reply.

use vstd::prelude::*;

use crate::content::{calls_view, CallView};
use crate::json::{json_parsed, object1, owned_view, Json, JsonField, JsonView};
use crate::protocol::{
    BlockId, ErrorView, EventView, ProviderError, StreamEvent, ToolCall, ToolCallId, ToolName,
};
use crate::text::{same_text, trim, trimmed};

verus! {

/// A reply as a whole.
#[derive(Debug)]
pub struct CollectedMessage {
    pub text: String,
    pub tool_calls: Vec<ToolCall>,
}

pub ghost struct CollectedView {
    pub text: Seq<char>,
    pub tool_calls: Seq<CallView>,
}

impl CollectedMessage {
    pub open spec fn view(&self) -> CollectedView {
        CollectedView { text: self.text@, tool_calls: calls_view(self.tool_calls@) }
    }
}

/// A tool call whose arguments are still coming.
#[derive(Debug)]
pub struct PartialToolCall {
    pub block_id: BlockId,
    pub tool_call_id: ToolCallId,
    pub name: ToolName,
    pub arguments: String,
}

pub ghost struct PartialView {
    pub block: Seq<char>,
    pub id: Seq<char>,
    pub name: Seq<char>,
    pub arguments: Seq<char>,
}

impl PartialToolCall {
    pub open spec fn view(&self) -> PartialView {
        PartialView {
            block: self.block_id.0@,
            id: self.tool_call_id.0@,
            name: self.name.0@,
            arguments: self.arguments@,
        }
    }
}

pub open spec fn partials_view(partials: Seq<PartialToolCall>) -> Seq<PartialView> {
    partials.map_values(|partial: PartialToolCall| partial@)
}

/// Gathers a reply event by event.
#[derive(Debug)]
pub struct MessageCollector {
    text: String,
    partials: Vec<PartialToolCall>,
}

pub ghost struct CollectorView {
    pub text: Seq<char>,
    pub partials: Seq<PartialView>,
}

impl View for MessageCollector {
    type V = CollectorView;

    closed spec fn view(&self) -> CollectorView {
        CollectorView { text: self.text@, partials: partials_view(self.partials@) }
    }
}

pub open spec fn nothing_collected() -> CollectorView {
    CollectorView { text: Seq::empty(), partials: Seq::empty() }
}

/// Where the latest call of a block stands.
pub open spec fn latest_partial(partials: Seq<PartialView>, block: Seq<char>) -> Option<int>
    decreases partials.len(),
{
    if partials.len() == 0 {
        None
    } else if partials.last().block == block {
        Some(partials.len() - 1)
    } else {
        latest_partial(partials.drop_last(), block)
    }
}

/// What is gathered after one more event, or the error that it reports.
pub open spec fn collected(collector: CollectorView, event: EventView) -> Result<
    CollectorView,
    ErrorView,
> {
    match event {
        EventView::TextDelta { delta, .. } => Ok(
            CollectorView { text: collector.text + delta, ..collector },
        ),
        EventView::ToolCallStart { id, tool_call_id, name } => Ok(
            CollectorView {
                partials: collector.partials.push(
                    PartialView { block: id, id: tool_call_id, name, arguments: Seq::empty() },
                ),
                ..collector
            },
        ),
        EventView::ToolArgsDelta { id, delta } => match latest_partial(collector.partials, id) {
            Some(at) => Ok(
                CollectorView {
                    partials: collector.partials.update(
                        at,
                        PartialView {
                            arguments: collector.partials[at].arguments + delta,
                            ..collector.partials[at]
                        },
                    ),
                    ..collector
                },
            ),
            None => Ok(collector),
        },
        EventView::Error { error } => Err(error),
        _ => Ok(collector),
    }
}

/// What the arguments of a call are, given the JSON value they hold: none where
/// nothing was said, and the words themselves where they are not JSON.
pub open spec fn arguments_value(raw: Seq<char>, parsed: Option<JsonView>) -> JsonView {
    if trimmed(raw).len() == 0 {
        JsonView::Object(Seq::empty())
    } else {
        match parsed {
            Some(value) => value,
            None => JsonView::Object(seq![("_raw"@, JsonView::Text(raw))]),
        }
    }
}

pub open spec fn arguments_of(raw: Seq<char>) -> JsonView {
    arguments_value(raw, json_parsed(trimmed(raw)))
}

pub open spec fn finished_call(partial: PartialView) -> CallView {
    CallView { id: partial.id, name: partial.name, arguments: arguments_of(partial.arguments) }
}

pub open spec fn finished(collector: CollectorView) -> CollectedView {
    CollectedView {
        text: collector.text,
        tool_calls: collector.partials.map_values(|partial: PartialView| finished_call(partial)),
    }
}

/// What the arguments of a call are, given the JSON value they hold.
pub fn tool_arguments_of(raw: &str, parsed: Option<Json>) -> (arguments: Json)
    ensures
        arguments@ == arguments_value(raw@, owned_view(parsed)),
{
    if trim(raw).as_str().is_empty() {
        let none: Vec<JsonField> = Vec::new();
        let arguments = Json::Object(none);
        assert(crate::json::fields_view(none@) =~= Seq::empty());
        return arguments;
    }
    match parsed {
        Some(value) => value,
        None => object1("_raw", Json::Text(raw.to_owned())),
    }
}

pub fn parse_tool_arguments(raw: &str) -> (arguments: Json)
    ensures
        arguments@ == arguments_of(raw@),
{
    tool_arguments_of(raw, Json::parse(&trim(raw)))
}

impl MessageCollector {
    pub fn new() -> (collector: MessageCollector)
        ensures
            collector@ == nothing_collected(),
    {
        let collector = MessageCollector { text: String::new(), partials: Vec::new() };
        assert(collector@.partials =~= Seq::empty());
        collector
    }

    fn find_partial(&self, block: &str) -> (at: Option<usize>)
        ensures
            match at {
                Some(at) => at < self.partials@.len() && latest_partial(self@.partials, block@)
                    == Some(at as int),
                None => latest_partial(self@.partials, block@) is None,
            },
    {
        let ghost all = self@.partials;
        let mut end: usize = self.partials.len();
        assert(all.subrange(0, end as int) == all);
        while end > 0
            invariant
                all == self@.partials,
                end <= self.partials.len(),
                latest_partial(all, block@) == latest_partial(all.subrange(0, end as int), block@),
            decreases end,
        {
            let ghost here = all.subrange(0, end as int);
            assert(here.last() == self.partials@[end - 1]@);
            if same_text(&self.partials[end - 1].block_id.0, block) {
                return Some(end - 1);
            }
            assert(here.drop_last() == all.subrange(0, end - 1));
            end -= 1;
        }
        None
    }

    /// Takes in one more event; an error that it reports ends the reply.
    pub fn push(&mut self, event: StreamEvent) -> (pushed: Result<(), ProviderError>)
        ensures
            match (collected(old(self)@, event@), pushed) {
                (Ok(after), Ok(_)) => final(self)@ == after,
                (Err(error), Err(failed)) => failed@ == error && final(self)@ == old(self)@,
                _ => false,
            },
    {
        match event {
            StreamEvent::TextDelta { delta, .. } => {
                self.text.append(&delta);
            },
            StreamEvent::ToolCallStart { id, tool_call_id, name } => {
                self.partials.push(
                    PartialToolCall { block_id: id, tool_call_id, name, arguments: String::new() },
                );
                assert(self.partials@.last()@.arguments =~= Seq::empty());
                assert(self@.partials =~= collected(old(self)@, event@)->Ok_0.partials);
            },
            StreamEvent::ToolArgsDelta { id, delta } => {
                if let Some(at) = self.find_partial(&id.0) {
                    let mut arguments = self.partials[at].arguments.clone();
                    arguments.append(&delta);
                    let partial = PartialToolCall {
                        block_id: self.partials[at].block_id.clone(),
                        tool_call_id: self.partials[at].tool_call_id.clone(),
                        name: self.partials[at].name.clone(),
                        arguments,
                    };
                    self.partials.set(at, partial);
                    assert(self@.partials =~= collected(old(self)@, event@)->Ok_0.partials);
                }
            },
            StreamEvent::Error { error } => {
                return Err(error);
            },
            _ => {},
        }
        Ok(())
    }

    /// The reply as a whole.
    pub fn finish(self) -> (message: CollectedMessage)
        ensures
            message@ == finished(self@),
    {
        let ghost all = self@.partials;
        let mut tool_calls: Vec<ToolCall> = Vec::new();
        let mut i: usize = 0;
        while i < self.partials.len()
            invariant
                all == self@.partials,
                i <= self.partials.len(),
                tool_calls@.len() == i,
                forall|k: int| 0 <= k < i ==> #[trigger] tool_calls@[k]@ == finished_call(all[k]),
            decreases self.partials.len() - i,
        {
            let partial = &self.partials[i];
            assert(all[i as int] == partial@);
            tool_calls.push(
                ToolCall {
                    id: partial.tool_call_id.clone(),
                    name: partial.name.clone(),
                    arguments: parse_tool_arguments(&partial.arguments),
                },
            );
            i += 1;
        }
        let message = CollectedMessage { text: self.text, tool_calls };
        assert(message@.tool_calls =~= finished(self@).tool_calls);
        message
    }
}

} // verus!
