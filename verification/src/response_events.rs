//! Reads the events of a streamed Responses reply from their JSON text.

use async_openai::types::responses::ResponseStreamEvent as SdkEvent;
use vstd::prelude::*;

use crate::anthropic_stream::{has_type, owned};
use crate::json::{items_view, own_value, string_view, Json, JsonView};
use crate::openai_error::OpenAIError;
use crate::openai_stream::{
    contents_view, ContentView, FunctionCallView, FunctionToolCall, ItemView, OutputItem,
    OutputMessage, OutputMessageContent, OutputMessageView, ReasoningItem, ReasoningItemView,
    ReplyView, Response, ResponseStreamEvent, ResponseUsage, ResponseView,
};
use crate::text::{push_piece, views};

verus! {

/// The event that a text stands for, written back as JSON, or what keeps the
/// text from being an event.
pub uninterp spec fn sdk_event(data: Seq<char>) -> Result<JsonView, Seq<char>>;

/// `serde_json::from_str` into `async_openai`'s `ResponseStreamEvent`, and
/// `serde_json::to_value` of that: whether a text is an event, which values its
/// fields then have, and what the error says otherwise, depends on the text
/// alone. (`serde_json` keeps the members of an object sorted by name, so the
/// maps among the fields are written in one order.)
#[verifier::external_body]
fn read_sdk_event(data: &str) -> (event: Result<Json, String>)
    ensures
        match event {
            Ok(event) => sdk_event(data@) == Ok::<JsonView, Seq<char>>(event@),
            Err(reason) => sdk_event(data@) == Err::<JsonView, Seq<char>>(reason@),
        },
{
    serde_json::from_str::<SdkEvent>(data)
        .and_then(serde_json::to_value)
        .map(own_value)
        .map_err(|error| error.to_string())
}

// ---------------------------------------------------------------------------
// Fields

/// The text of a member; nothing where it has none.
pub open spec fn text_at(value: JsonView, key: Seq<char>) -> Seq<char> {
    match value.get_str(key) {
        Some(text) => text,
        None => Seq::empty(),
    }
}

/// The number of a member; zero where it has none that fits.
pub open spec fn count_at(value: Option<JsonView>, key: Seq<char>) -> u32 {
    match value {
        Some(value) => match value.get_u64(key) {
            Some(count) => if count <= u32::MAX {
                count as u32
            } else {
                0
            },
            None => 0,
        },
        None => 0,
    }
}

/// The texts of the entries of a list.
pub open spec fn entry_texts(entries: Seq<JsonView>) -> Seq<Seq<char>> {
    entries.map_values(|entry: JsonView| text_at(entry, "text"@))
}

pub open spec fn texts_at(value: JsonView, key: Seq<char>) -> Option<Seq<Seq<char>>> {
    match value.get_array(key) {
        Some(entries) => Some(entry_texts(entries)),
        None => None,
    }
}

fn read_text(value: &Json, key: &str) -> (text: String)
    ensures
        text@ == text_at(value@, key@),
{
    match value.get_str(key) {
        Some(text) => text.to_owned(),
        None => {
            let none = String::new();
            assert(none@ =~= Seq::empty());
            none
        },
    }
}

fn read_optional_text(value: &Json, key: &str) -> (text: Option<String>)
    ensures
        string_view(text) == value@.get_str(key@),
{
    match value.get_str(key) {
        Some(text) => Some(text.to_owned()),
        None => None,
    }
}

fn read_count(value: Option<&Json>, key: &str) -> (count: u32)
    ensures
        count == count_at(crate::json::json_view(value), key@),
{
    match value {
        Some(value) => match value.get_u64(key) {
            Some(count) => if count <= u32::MAX as u64 {
                count as u32
            } else {
                0
            },
            None => 0,
        },
        None => 0,
    }
}

fn read_texts(value: &Json, key: &str) -> (texts: Option<Vec<String>>)
    ensures
        match texts {
            Some(texts) => texts_at(value@, key@) == Some(views(texts@)),
            None => texts_at(value@, key@) is None,
        },
{
    let entries = match value.get_array(key) {
        Some(entries) => entries,
        None => {
            return None;
        },
    };
    let ghost all = entry_texts(items_view(entries@));
    let mut texts: Vec<String> = Vec::new();
    let mut i: usize = 0;
    assert(views(texts@) =~= all.subrange(0, 0));
    while i < entries.len()
        invariant
            all == entry_texts(items_view(entries@)),
            i <= entries.len(),
            views(texts@) == all.subrange(0, i as int),
        decreases entries.len() - i,
    {
        assert(all[i as int] == text_at(entries@[i as int]@, "text"@));
        push_piece(&mut texts, read_text(&entries[i], "text"));
        assert(all.subrange(0, i + 1) =~= all.subrange(0, i as int).push(all[i as int]));
        i += 1;
    }
    assert(all.subrange(0, i as int) =~= all);
    Some(texts)
}

// ---------------------------------------------------------------------------
// Items

pub open spec fn content_of(value: JsonView) -> ContentView {
    if value.get_str("type"@) == Some("refusal"@) {
        ContentView::Refusal(text_at(value, "refusal"@))
    } else {
        ContentView::OutputText(text_at(value, "text"@))
    }
}

pub open spec fn contents_of(value: JsonView) -> Seq<ContentView> {
    match value.get_array("content"@) {
        Some(entries) => entries.map_values(|entry: JsonView| content_of(entry)),
        None => Seq::empty(),
    }
}

/// The item that a JSON value tells of.
pub open spec fn item_of(value: JsonView) -> ItemView {
    let kind = value.get_str("type"@);
    if kind == Some("message"@) {
        ItemView::Message(
            OutputMessageView { id: text_at(value, "id"@), content: contents_of(value) },
        )
    } else if kind == Some("reasoning"@) {
        ItemView::Reasoning(
            ReasoningItemView {
                summary: match texts_at(value, "summary"@) {
                    Some(texts) => texts,
                    None => Seq::empty(),
                },
                content: texts_at(value, "content"@),
                encrypted_content: value.get_str("encrypted_content"@),
            },
        )
    } else if kind == Some("function_call"@) {
        ItemView::FunctionCall(
            FunctionCallView {
                id: value.get_str("id"@),
                call_id: text_at(value, "call_id"@),
                name: text_at(value, "name"@),
                arguments: text_at(value, "arguments"@),
            },
        )
    } else {
        ItemView::Other
    }
}

pub open spec fn item_at(value: JsonView) -> ItemView {
    match value.get("item"@) {
        Some(item) => item_of(item),
        None => ItemView::Other,
    }
}

fn read_content(value: &Json) -> (content: OutputMessageContent)
    ensures
        content@ == content_of(value@),
{
    if has_type(value, "refusal") {
        OutputMessageContent::Refusal(read_text(value, "refusal"))
    } else {
        OutputMessageContent::OutputText(read_text(value, "text"))
    }
}

fn read_contents(value: &Json) -> (content: Vec<OutputMessageContent>)
    ensures
        contents_view(content@) == contents_of(value@),
{
    let mut content: Vec<OutputMessageContent> = Vec::new();
    let entries = match value.get_array("content") {
        Some(entries) => entries,
        None => {
            assert(contents_view(content@) =~= Seq::empty());
            return content;
        },
    };
    let ghost all = contents_of(value@);
    let mut i: usize = 0;
    assert(contents_view(content@) =~= all.subrange(0, 0));
    while i < entries.len()
        invariant
            all == items_view(entries@).map_values(|entry: JsonView| content_of(entry)),
            i <= entries.len(),
            contents_view(content@) == all.subrange(0, i as int),
        decreases entries.len() - i,
    {
        let ghost before = contents_view(content@);
        assert(all[i as int] == content_of(entries@[i as int]@));
        let piece = read_content(&entries[i]);
        content.push(piece);
        assert(contents_view(content@) =~= before.push(piece@));
        assert(all.subrange(0, i + 1) =~= before.push(all[i as int]));
        i += 1;
    }
    assert(all.subrange(0, i as int) =~= all);
    content
}

/// Reads an item.
pub fn read_item(value: &Json) -> (item: OutputItem)
    ensures
        item@ == item_of(value@),
{
    if has_type(value, "message") {
        OutputItem::Message(
            OutputMessage { id: read_text(value, "id"), content: read_contents(value) },
        )
    } else if has_type(value, "reasoning") {
        let summary = match read_texts(value, "summary") {
            Some(texts) => texts,
            None => {
                let none: Vec<String> = Vec::new();
                assert(views(none@) =~= Seq::empty());
                none
            },
        };
        OutputItem::Reasoning(
            ReasoningItem {
                summary,
                content: read_texts(value, "content"),
                encrypted_content: read_optional_text(value, "encrypted_content"),
            },
        )
    } else if has_type(value, "function_call") {
        OutputItem::FunctionCall(
            FunctionToolCall {
                id: read_optional_text(value, "id"),
                call_id: read_text(value, "call_id"),
                name: read_text(value, "name"),
                arguments: read_text(value, "arguments"),
            },
        )
    } else {
        OutputItem::Other
    }
}

fn read_item_of(event: &Json) -> (item: OutputItem)
    ensures
        item@ == item_at(event@),
{
    match event.get("item") {
        Some(item) => read_item(item),
        None => OutputItem::Other,
    }
}

// ---------------------------------------------------------------------------
// Responses

/// The response that a JSON value tells of.
pub open spec fn response_of(value: JsonView) -> ResponseView {
    ResponseView {
        id: text_at(value, "id"@),
        usage: match value.get("usage"@) {
            Some(usage) => Some(
                ResponseUsage {
                    input_tokens: count_at(Some(usage), "input_tokens"@),
                    output_tokens: count_at(Some(usage), "output_tokens"@),
                    cached_tokens: count_at(usage.get("input_tokens_details"@), "cached_tokens"@),
                },
            ),
            None => None,
        },
        incomplete_reason: value.get_in_str("incomplete_details"@, "reason"@),
        error_message: value.get_in_str("error"@, "message"@),
    }
}

pub open spec fn response_at(event: JsonView) -> ResponseView {
    match event.get("response"@) {
        Some(response) => response_of(response),
        None => response_of(JsonView::Null),
    }
}

/// Reads a response.
pub fn read_response(value: &Json) -> (response: Response)
    ensures
        response@ == response_of(value@),
{
    let usage = match value.get("usage") {
        Some(usage) => Some(
            ResponseUsage {
                input_tokens: read_count(Some(usage), "input_tokens"),
                output_tokens: read_count(Some(usage), "output_tokens"),
                cached_tokens: read_count(usage.get("input_tokens_details"), "cached_tokens"),
            },
        ),
        None => None,
    };
    Response {
        id: read_text(value, "id"),
        usage,
        incomplete_reason: owned(value.get_in_str("incomplete_details", "reason")),
        error_message: owned(value.get_in_str("error", "message")),
    }
}

fn read_response_of(event: &Json) -> (response: Response)
    ensures
        response@ == response_at(event@),
{
    match event.get("response") {
        Some(response) => read_response(response),
        None => read_response(&Json::Null),
    }
}

// ---------------------------------------------------------------------------
// Events

/// The event that a JSON value tells of.
pub open spec fn reply_event_of(value: JsonView) -> ReplyView {
    let kind = value.get_str("type"@);
    if kind == Some("response.created"@) {
        ReplyView::ResponseCreated { response: response_at(value) }
    } else if kind == Some("response.output_item.added"@) {
        ReplyView::ResponseOutputItemAdded {
            output_index: count_at(Some(value), "output_index"@),
            item: item_at(value),
        }
    } else if kind == Some("response.output_text.delta"@) {
        ReplyView::ResponseOutputTextDelta { delta: text_at(value, "delta"@) }
    } else if kind == Some("response.output_text.done"@) {
        ReplyView::ResponseOutputTextDone { text: text_at(value, "text"@) }
    } else if kind == Some("response.refusal.delta"@) {
        ReplyView::ResponseRefusalDelta { delta: text_at(value, "delta"@) }
    } else if kind == Some("response.refusal.done"@) {
        ReplyView::ResponseRefusalDone { refusal: text_at(value, "refusal"@) }
    } else if kind == Some("response.reasoning_summary_part.added"@) {
        ReplyView::ResponseReasoningSummaryPartAdded
    } else if kind == Some("response.reasoning_summary_text.delta"@) {
        ReplyView::ResponseReasoningSummaryTextDelta { delta: text_at(value, "delta"@) }
    } else if kind == Some("response.reasoning_summary_text.done"@) {
        ReplyView::ResponseReasoningSummaryTextDone { text: text_at(value, "text"@) }
    } else if kind == Some("response.reasoning_text.delta"@) {
        ReplyView::ResponseReasoningTextDelta { delta: text_at(value, "delta"@) }
    } else if kind == Some("response.reasoning_text.done"@) {
        ReplyView::ResponseReasoningTextDone { text: text_at(value, "text"@) }
    } else if kind == Some("response.function_call_arguments.delta"@) {
        ReplyView::ResponseFunctionCallArgumentsDelta {
            item_id: text_at(value, "item_id"@),
            delta: text_at(value, "delta"@),
        }
    } else if kind == Some("response.function_call_arguments.done"@) {
        ReplyView::ResponseFunctionCallArgumentsDone {
            item_id: text_at(value, "item_id"@),
            arguments: text_at(value, "arguments"@),
        }
    } else if kind == Some("response.output_item.done"@) {
        ReplyView::ResponseOutputItemDone {
            output_index: count_at(Some(value), "output_index"@),
            item: item_at(value),
        }
    } else if kind == Some("response.completed"@) {
        ReplyView::ResponseCompleted { response: response_at(value) }
    } else if kind == Some("response.incomplete"@) {
        ReplyView::ResponseIncomplete { response: response_at(value) }
    } else if kind == Some("response.failed"@) {
        ReplyView::ResponseFailed { response: response_at(value) }
    } else if kind == Some("error"@) {
        ReplyView::ResponseError { message: text_at(value, "message"@) }
    } else {
        ReplyView::Other
    }
}

/// Reads an event from a JSON value.
pub fn read_reply_event(value: &Json) -> (event: ResponseStreamEvent)
    ensures
        event@ == reply_event_of(value@),
{
    if has_type(value, "response.created") {
        ResponseStreamEvent::ResponseCreated { response: read_response_of(value) }
    } else if has_type(value, "response.output_item.added") {
        ResponseStreamEvent::ResponseOutputItemAdded {
            output_index: read_count(Some(value), "output_index"),
            item: read_item_of(value),
        }
    } else if has_type(value, "response.output_text.delta") {
        ResponseStreamEvent::ResponseOutputTextDelta { delta: read_text(value, "delta") }
    } else if has_type(value, "response.output_text.done") {
        ResponseStreamEvent::ResponseOutputTextDone { text: read_text(value, "text") }
    } else if has_type(value, "response.refusal.delta") {
        ResponseStreamEvent::ResponseRefusalDelta { delta: read_text(value, "delta") }
    } else if has_type(value, "response.refusal.done") {
        ResponseStreamEvent::ResponseRefusalDone { refusal: read_text(value, "refusal") }
    } else if has_type(value, "response.reasoning_summary_part.added") {
        ResponseStreamEvent::ResponseReasoningSummaryPartAdded
    } else if has_type(value, "response.reasoning_summary_text.delta") {
        ResponseStreamEvent::ResponseReasoningSummaryTextDelta { delta: read_text(value, "delta") }
    } else if has_type(value, "response.reasoning_summary_text.done") {
        ResponseStreamEvent::ResponseReasoningSummaryTextDone { text: read_text(value, "text") }
    } else if has_type(value, "response.reasoning_text.delta") {
        ResponseStreamEvent::ResponseReasoningTextDelta { delta: read_text(value, "delta") }
    } else if has_type(value, "response.reasoning_text.done") {
        ResponseStreamEvent::ResponseReasoningTextDone { text: read_text(value, "text") }
    } else if has_type(value, "response.function_call_arguments.delta") {
        ResponseStreamEvent::ResponseFunctionCallArgumentsDelta {
            item_id: read_text(value, "item_id"),
            delta: read_text(value, "delta"),
        }
    } else if has_type(value, "response.function_call_arguments.done") {
        ResponseStreamEvent::ResponseFunctionCallArgumentsDone {
            item_id: read_text(value, "item_id"),
            arguments: read_text(value, "arguments"),
        }
    } else if has_type(value, "response.output_item.done") {
        ResponseStreamEvent::ResponseOutputItemDone {
            output_index: read_count(Some(value), "output_index"),
            item: read_item_of(value),
        }
    } else if has_type(value, "response.completed") {
        ResponseStreamEvent::ResponseCompleted { response: read_response_of(value) }
    } else if has_type(value, "response.incomplete") {
        ResponseStreamEvent::ResponseIncomplete { response: read_response_of(value) }
    } else if has_type(value, "response.failed") {
        ResponseStreamEvent::ResponseFailed { response: read_response_of(value) }
    } else if has_type(value, "error") {
        ResponseStreamEvent::ResponseError { message: read_text(value, "message") }
    } else {
        ResponseStreamEvent::Other
    }
}

/// A text is read as this, given the event it stands for.
pub open spec fn is_reading(
    reading: Result<ResponseStreamEvent, OpenAIError>,
    data: Seq<char>,
    event: Result<JsonView, Seq<char>>,
) -> bool {
    match (event, reading) {
        (Ok(event), Ok(reading)) => reading@ == reply_event_of(event),
        (Err(reason), Err(OpenAIError::JSONDeserialize(error, content))) => error@ == reason
            && content@ == data,
        _ => false,
    }
}

/// Reads a text, given the event it stands for, or what keeps it from being one.
pub fn reading_of(data: &str, event: Result<Json, String>) -> (reading: Result<
    ResponseStreamEvent,
    OpenAIError,
>)
    ensures
        is_reading(
            reading,
            data@,
            match event {
                Ok(event) => Ok(event@),
                Err(reason) => Err(reason@),
            },
        ),
{
    match event {
        Ok(event) => Ok(read_reply_event(&event)),
        Err(reason) => Err(OpenAIError::JSONDeserialize(reason, data.to_owned())),
    }
}

/// Reads an event from its text.
pub fn parse_reply_event(data: &str) -> (reading: Result<ResponseStreamEvent, OpenAIError>)
    ensures
        is_reading(reading, data@, sdk_event(data@)),
{
    reading_of(data, read_sdk_event(data))
}

// ---------------------------------------------------------------------------
// What is read from an event

/// Pieces of text are read from `delta`, whole texts from `text` or `refusal`, and
/// arguments go by the `item_id` of their call.
pub proof fn law_texts_are_read(value: JsonView, item: Seq<char>, piece: Seq<char>)
    ensures
        ({
            let kind = value.get_str("type"@);
            let read = reply_event_of(value);
            &&& value.get_str("delta"@) == Some(piece) ==> {
                &&& kind == Some("response.output_text.delta"@) ==> read
                    == (ReplyView::ResponseOutputTextDelta { delta: piece })
                &&& kind == Some("response.refusal.delta"@) ==> read
                    == (ReplyView::ResponseRefusalDelta { delta: piece })
                &&& kind == Some("response.reasoning_summary_text.delta"@) ==> read
                    == (ReplyView::ResponseReasoningSummaryTextDelta { delta: piece })
                &&& kind == Some("response.reasoning_text.delta"@) ==> read
                    == (ReplyView::ResponseReasoningTextDelta { delta: piece })
                &&& kind == Some("response.function_call_arguments.delta"@) && value.get_str(
                    "item_id"@,
                ) == Some(item) ==> read == (ReplyView::ResponseFunctionCallArgumentsDelta {
                    item_id: item,
                    delta: piece,
                })
            }
            &&& value.get_str("text"@) == Some(piece) ==> {
                &&& kind == Some("response.output_text.done"@) ==> read
                    == (ReplyView::ResponseOutputTextDone { text: piece })
                &&& kind == Some("response.reasoning_summary_text.done"@) ==> read
                    == (ReplyView::ResponseReasoningSummaryTextDone { text: piece })
                &&& kind == Some("response.reasoning_text.done"@) ==> read
                    == (ReplyView::ResponseReasoningTextDone { text: piece })
            }
            &&& kind == Some("response.refusal.done"@) && value.get_str("refusal"@) == Some(piece)
                ==> read == (ReplyView::ResponseRefusalDone { refusal: piece })
            &&& kind == Some("response.function_call_arguments.done"@) && value.get_str(
                "item_id"@,
            ) == Some(item) && value.get_str("arguments"@) == Some(piece) ==> read
                == (ReplyView::ResponseFunctionCallArgumentsDone {
                item_id: item,
                arguments: piece,
            })
            &&& kind == Some("error"@) && value.get_str("message"@) == Some(piece) ==> read
                == (ReplyView::ResponseError { message: piece })
            &&& kind == Some("response.reasoning_summary_part.added"@) ==> read
                == ReplyView::ResponseReasoningSummaryPartAdded
        }),
{
    lemma_event_kinds_differ();
}

/// A call is read with the identifier that its result has to answer from `call_id`,
/// its item's from `id`, and its tool's name and arguments.
pub proof fn law_call_item_is_read(
    value: JsonView,
    id: Option<Seq<char>>,
    call_id: Seq<char>,
    name: Seq<char>,
    arguments: Seq<char>,
)
    requires
        value.get_str("type"@) == Some("function_call"@),
        value.get_str("id"@) == id,
        value.get_str("call_id"@) == Some(call_id),
        value.get_str("name"@) == Some(name),
        value.get_str("arguments"@) == Some(arguments),
    ensures
        item_of(value) == ItemView::FunctionCall(
            FunctionCallView { id, call_id, name, arguments },
        ),
{
    reveal_strlit("message");
    reveal_strlit("reasoning");
    reveal_strlit("function_call");
    assert("message"@.len() == 7);
    assert("reasoning"@.len() == 9);
    assert("function_call"@.len() == 13);
}

/// A message is read with its identifier and its contents, refusals as such; reasoning
/// with its summary, its text and what it is signed with.
pub proof fn law_message_and_reasoning_items_are_read(value: JsonView)
    ensures
        value.get_str("type"@) == Some("message"@) ==> (item_of(value) matches ItemView::Message(
            message,
        ) && {
            &&& value.get_str("id"@) is Some ==> message.id == value.get_str("id"@)->0
            &&& value.get_array("content"@) matches Some(entries) ==> message.content.len()
                == entries.len() && forall|i: int|
                0 <= i < entries.len() ==> {
                    let entry = #[trigger] entries[i];
                    let text = entry.get_str("text"@);
                    let refusal = entry.get_str("refusal"@);
                    &&& entry.get_str("type"@) == Some("output_text"@) && text is Some
                        ==> message.content[i] == ContentView::OutputText(text->0)
                    &&& entry.get_str("type"@) == Some("refusal"@) && refusal is Some
                        ==> message.content[i] == ContentView::Refusal(refusal->0)
                }
        }),
        value.get_str("type"@) == Some("reasoning"@) ==> (item_of(
            value,
        ) matches ItemView::Reasoning(reasoning) && {
            &&& reasoning.encrypted_content == value.get_str("encrypted_content"@)
            &&& value.get_array("summary"@) is None ==> reasoning.summary.len() == 0
            &&& value.get_array("summary"@) matches Some(entries) ==> reasoning.summary.len()
                == entries.len() && forall|i: int|
                0 <= i < entries.len() && (#[trigger] entries[i]).get_str("text"@) is Some
                    ==> reasoning.summary[i] == entries[i].get_str("text"@)->0
            &&& value.get_array("content"@) is None ==> reasoning.content is None
            &&& value.get_array("content"@) matches Some(entries) ==> reasoning.content is Some
                && reasoning.content->0.len() == entries.len() && forall|i: int|
                0 <= i < entries.len() && (#[trigger] entries[i]).get_str("text"@) is Some
                    ==> reasoning.content->0[i] == entries[i].get_str("text"@)->0
        }),
{
    reveal_strlit("message");
    reveal_strlit("reasoning");
    reveal_strlit("function_call");
    reveal_strlit("refusal");
    reveal_strlit("output_text");
    assert("message"@.len() == 7);
    assert("reasoning"@.len() == 9);
    assert("function_call"@.len() == 13);
    assert("refusal"@.len() == 7);
    assert("output_text"@.len() == 11);
    assert("message"@[0] != "refusal"@[0]);
}

/// Events about an item are read with the item and its position.
pub proof fn law_item_events_are_read(value: JsonView, item: JsonView, index: u32)
    requires
        value.get("item"@) == Some(item),
        value.get_u64("output_index"@) == Some(index as u64),
    ensures
        value.get_str("type"@) == Some("response.output_item.added"@) ==> reply_event_of(value)
            == (ReplyView::ResponseOutputItemAdded { output_index: index, item: item_of(item) }),
        value.get_str("type"@) == Some("response.output_item.done"@) ==> reply_event_of(value)
            == (ReplyView::ResponseOutputItemDone { output_index: index, item: item_of(item) }),
{
    lemma_event_kinds_differ();
}

/// A response is read with its identifier, its token counts, why it is incomplete and
/// what failed.
pub proof fn law_responses_are_read(value: JsonView, response: JsonView, id: Seq<char>)
    requires
        value.get("response"@) == Some(response),
        response.get_str("id"@) == Some(id),
    ensures
        ({
            let kind = value.get_str("type"@);
            let read = reply_event_of(value);
            let whole = response_of(response);
            &&& kind == Some("response.created"@) ==> read == (ReplyView::ResponseCreated {
                response: whole,
            })
            &&& kind == Some("response.completed"@) ==> read == (ReplyView::ResponseCompleted {
                response: whole,
            })
            &&& kind == Some("response.incomplete"@) ==> read == (ReplyView::ResponseIncomplete {
                response: whole,
            })
            &&& kind == Some("response.failed"@) ==> read == (ReplyView::ResponseFailed {
                response: whole,
            })
        }),
        ({
            let whole = response_of(response);
            let usage = response.get("usage"@);
            &&& whole.id == id
            &&& whole.incomplete_reason == response.get_in_str("incomplete_details"@, "reason"@)
            &&& whole.error_message == response.get_in_str("error"@, "message"@)
            &&& whole.usage is Some == usage is Some
            &&& usage is Some ==> {
                let input = usage->0.get_u64("input_tokens"@);
                let output = usage->0.get_u64("output_tokens"@);
                let cached = usage->0.get_in("input_tokens_details"@, "cached_tokens"@);
                &&& input is Some && input->0 <= u32::MAX ==> whole.usage->0.input_tokens
                    == input->0
                &&& output is Some && output->0 <= u32::MAX ==> whole.usage->0.output_tokens
                    == output->0
                &&& cached is Some && cached->0.as_u64() is Some && cached->0.as_u64()->0
                    <= u32::MAX ==> whole.usage->0.cached_tokens == cached->0.as_u64()->0
                &&& cached is None ==> whole.usage->0.cached_tokens == 0
            }
        }),
{
    lemma_event_kinds_differ();
}

/// An event is read by its own kind alone.
proof fn lemma_event_kinds_differ()
    ensures
        "response.created"@.len() == 16,
        "response.output_item.added"@.len() == 26,
        "response.output_text.delta"@.len() == 26,
        "response.output_text.done"@.len() == 25,
        "response.refusal.delta"@.len() == 22,
        "response.refusal.done"@.len() == 21,
        "response.reasoning_summary_part.added"@.len() == 37,
        "response.reasoning_summary_text.delta"@.len() == 37,
        "response.reasoning_summary_text.done"@.len() == 36,
        "response.reasoning_text.delta"@.len() == 29,
        "response.reasoning_text.done"@.len() == 28,
        "response.function_call_arguments.delta"@.len() == 38,
        "response.function_call_arguments.done"@.len() == 37,
        "response.output_item.done"@.len() == 25,
        "response.completed"@.len() == 18,
        "response.incomplete"@.len() == 19,
        "response.failed"@.len() == 15,
        "error"@.len() == 5,
        "response.output_item.added"@ != "response.output_text.delta"@,
        "response.output_text.done"@ != "response.output_item.done"@,
        "response.reasoning_summary_part.added"@ != "response.reasoning_summary_text.delta"@,
        "response.reasoning_summary_part.added"@ != "response.function_call_arguments.done"@,
        "response.reasoning_summary_text.delta"@ != "response.function_call_arguments.done"@,
{
    reveal_strlit("response.created");
    reveal_strlit("response.output_item.added");
    reveal_strlit("response.output_text.delta");
    reveal_strlit("response.output_text.done");
    reveal_strlit("response.refusal.delta");
    reveal_strlit("response.refusal.done");
    reveal_strlit("response.reasoning_summary_part.added");
    reveal_strlit("response.reasoning_summary_text.delta");
    reveal_strlit("response.reasoning_summary_text.done");
    reveal_strlit("response.reasoning_text.delta");
    reveal_strlit("response.reasoning_text.done");
    reveal_strlit("response.function_call_arguments.delta");
    reveal_strlit("response.function_call_arguments.done");
    reveal_strlit("response.output_item.done");
    reveal_strlit("response.completed");
    reveal_strlit("response.incomplete");
    reveal_strlit("response.failed");
    reveal_strlit("error");
    assert("response.created"@.len() == 16);
    assert("response.output_item.added"@.len() == 26);
    assert("response.output_text.delta"@.len() == 26);
    assert("response.output_text.done"@.len() == 25);
    assert("response.refusal.delta"@.len() == 22);
    assert("response.refusal.done"@.len() == 21);
    assert("response.reasoning_summary_part.added"@.len() == 37);
    assert("response.reasoning_summary_text.delta"@.len() == 37);
    assert("response.reasoning_summary_text.done"@.len() == 36);
    assert("response.reasoning_text.delta"@.len() == 29);
    assert("response.reasoning_text.done"@.len() == 28);
    assert("response.function_call_arguments.delta"@.len() == 38);
    assert("response.function_call_arguments.done"@.len() == 37);
    assert("response.output_item.done"@.len() == 25);
    assert("response.completed"@.len() == 18);
    assert("response.incomplete"@.len() == 19);
    assert("response.failed"@.len() == 15);
    assert("error"@.len() == 5);
    assert("response.output_item.added"@[16] != "response.output_text.delta"@[16]);
    assert("response.output_text.done"@[16] != "response.output_item.done"@[16]);
    assert("response.reasoning_summary_part.added"@[27] != "response.reasoning_summary_text.delta"@[27]);
    assert("response.reasoning_summary_part.added"@[9] != "response.function_call_arguments.done"@[9]);
    assert("response.reasoning_summary_text.delta"@[9] != "response.function_call_arguments.done"@[9]);
}

/// A text is read as the event it stands for; one that stands for none is told with the
/// reason.
pub proof fn law_events_are_read_or_told(
    reading: Result<ResponseStreamEvent, OpenAIError>,
    data: Seq<char>,
    event: Result<JsonView, Seq<char>>,
)
    requires
        is_reading(reading, data, event),
    ensures
        event matches Ok(value) ==> (reading matches Ok(read) && read@ == reply_event_of(value)),
        event matches Err(reason) ==> (reading matches Err(
            OpenAIError::JSONDeserialize(error, content),
        ) && error@ == reason && content@ == data),
{
}

} // verus!
