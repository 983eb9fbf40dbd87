//! A provider that needs no network: it echoes what it is asked.

use vstd::prelude::*;

use crate::capabilities::{no_capabilities, ProviderCapabilities};
use crate::codec_common::{user_text, user_texts};
use crate::ids::{IdSource, IdsView};
use crate::json::{items_view, json_text, object3, text_json, Json, JsonView};
use crate::protocol::{
    events_view, push_event, AssistantPart, BlockId, CompactionView, EventView, Message, MessageId,
    ProviderCompactionRequest, ProviderCompactionResponse, ProviderRequest, StopReason,
    StreamEvent, ToolResult, Usage, UserMessage,
};
use crate::text::{
    concat2, concat3, concat4, concat5, is_white_space, is_whitespace, join, joined, push_piece,
    to_chars, views,
};

verus! {

/// Answers every request with the latest words of the user, behind a prefix.
#[derive(Debug)]
pub struct FakeProvider {
    prefix: String,
}

impl View for FakeProvider {
    type V = Seq<char>;

    closed spec fn view(&self) -> Seq<char> {
        self.prefix@
    }
}

impl Default for FakeProvider {
    fn default() -> (provider: FakeProvider)
        ensures
            provider@ == "fake>"@,
    {
        FakeProvider { prefix: "fake>".to_owned() }
    }
}

/// The words of a user's message.
pub open spec fn words_of(message: UserMessage) -> Seq<char> {
    joined(user_texts(message.parts@), "\n"@)
}

/// The words of the user's latest message.
pub open spec fn latest_words(messages: Seq<Message>) -> Option<Seq<char>>
    decreases messages.len(),
{
    if messages.len() == 0 {
        None
    } else {
        match messages.last() {
            Message::User(user) => Some(words_of(user)),
            _ => latest_words(messages.drop_last()),
        }
    }
}

pub open spec fn reply_spec(prefix: Seq<char>, request: ProviderRequest) -> Seq<char> {
    let words = match latest_words(request.messages@) {
        Some(words) => words,
        None => "empty turn"@,
    };
    prefix + " "@ + words + " ["@ + request.model.model@ + "]"@
}

/// How many words a text has: runs of characters that are not white space.
pub open spec fn word_count(text: Seq<char>) -> nat
    decreases text.len(),
{
    if text.len() == 0 {
        0
    } else {
        let starts = !is_white_space(text.last()) && (text.len() == 1 || is_white_space(
            text[text.len() - 2],
        ));
        word_count(text.drop_last()) + if starts {
            1nat
        } else {
            0nat
        }
    }
}

/// A number of tokens, as far as 64 bits hold it.
pub open spec fn token_count(n: nat) -> u64 {
    if n <= u64::MAX {
        n as u64
    } else {
        u64::MAX
    }
}

fn count_words(text: &str) -> (words: u64)
    ensures
        words == token_count(word_count(text@)),
{
    let chars = to_chars(text);
    let mut words: u64 = 0;
    let mut i: usize = 0;
    while i < chars.len()
        invariant
            chars@ == text@,
            i <= chars.len(),
            words == token_count(word_count(text@.subrange(0, i as int))),
        decreases chars.len() - i,
    {
        let ghost next = text@.subrange(0, i + 1);
        assert(next.drop_last() == text@.subrange(0, i as int));
        if !is_whitespace(chars[i]) && (i == 0 || is_whitespace(chars[i - 1])) {
            words = words.saturating_add(1);
        }
        i += 1;
    }
    assert(text@.subrange(0, i as int) == text@);
    words
}

fn eight_each(count: usize) -> (tokens: u64)
    ensures
        tokens == token_count((count * 8) as nat),
{
    if count as u64 <= u64::MAX / 8 {
        count as u64 * 8
    } else {
        u64::MAX
    }
}

/// The stream that answers a request: one message with one block of text.
pub open spec fn reply_events(ids: IdsView, reply: Seq<char>, messages: nat) -> Seq<EventView> {
    let id = ids.fresh();
    let block = ids.advanced().fresh();
    seq![
        EventView::MessageStart { id },
        EventView::TextStart { id: block },
        EventView::TextDelta { id: block, delta: reply },
        EventView::TextEnd { id: block },
        EventView::UsageUpdate {
            usage: Usage {
                input_tokens: token_count(messages * 8),
                output_tokens: token_count(word_count(reply)),
                cache_creation_input_tokens: 0,
                cache_read_input_tokens: 0,
            },
        },
        EventView::MessageEnd { id, stop_reason: StopReason::EndTurn, response_id: None },
    ]
}

/// How an item of an earlier compaction is told.
pub open spec fn told_item(item: JsonView) -> Seq<char> {
    match item.get_str("role"@) {
        Some(role) => role + ": "@ + json_text(item),
        None => match item.get_str("type"@) {
            Some(kind) => kind + ": "@ + json_text(item),
            None => json_text(item),
        },
    }
}

pub open spec fn told_items(items: Seq<JsonView>) -> Seq<Seq<char>> {
    items.map_values(|item: JsonView| told_item(item))
}

pub open spec fn told_part(part: AssistantPart) -> Seq<char> {
    match part {
        AssistantPart::Text { text } => text@,
        AssistantPart::Thinking(block) => block.text@,
        AssistantPart::ToolCall(call) => "tool_call "@ + call.name.0@ + " "@ + json_text(
            call.arguments@,
        ),
    }
}

pub open spec fn told_parts(parts: Seq<AssistantPart>) -> Seq<Seq<char>> {
    parts.map_values(|part: AssistantPart| told_part(part))
}

/// How a message is told.
pub open spec fn told_message(message: Message) -> Seq<char> {
    match message {
        Message::System(system) => "system: "@ + system.text@,
        Message::User(user) => "user: "@ + words_of(user),
        Message::Assistant(assistant) => "assistant: "@ + joined(
            told_parts(assistant.parts@),
            "\n"@,
        ),
        Message::Tool(result) => match result.content {
            ToolResult::Empty => "tool: <empty>"@,
            ToolResult::Text { text } => "tool: "@ + text@,
            ToolResult::Json { value } => "tool: "@ + json_text(value@),
        },
    }
}

pub open spec fn told_messages(messages: Seq<Message>) -> Seq<Seq<char>> {
    messages.map_values(|message: Message| told_message(message))
}

/// The texts that say something.
pub open spec fn said(texts: Seq<Seq<char>>) -> Seq<Seq<char>>
    decreases texts.len(),
{
    if texts.len() == 0 {
        Seq::empty()
    } else if texts.last().len() == 0 {
        said(texts.drop_last())
    } else {
        said(texts.drop_last()).push(texts.last())
    }
}

/// What a conversation is compacted into.
pub open spec fn fake_compaction(request: ProviderCompactionRequest) -> CompactionView {
    let told = told_items(items_view(request.compacted_prefix@)) + told_messages(
        request.messages@,
    );
    CompactionView {
        output: seq![
            JsonView::Object(
                seq![
                    ("type"@, JsonView::Text("compaction"@)),
                    ("id"@, JsonView::Text("cmp_"@ + request.session_id@)),
                    ("encrypted_content"@, JsonView::Text(joined(said(told), "\n"@))),
                ],
            ),
        ],
        usage: Usage {
            input_tokens: token_count(
                (request.compacted_prefix@.len() + request.messages@.len()) * 8,
            ),
            output_tokens: 8,
            cache_creation_input_tokens: 0,
            cache_read_input_tokens: 0,
        },
    }
}

fn render_compaction_input_item(item: &Json) -> (text: String)
    ensures
        text@ == told_item(item@),
{
    let shown = item.to_text();
    match item.get_str("role") {
        Some(role) => concat3(role, ": ", &shown),
        None => match item.get_str("type") {
            Some(kind) => concat3(kind, ": ", &shown),
            None => shown,
        },
    }
}

fn render_assistant_part(part: &AssistantPart) -> (text: String)
    ensures
        text@ == told_part(*part),
{
    match part {
        AssistantPart::Text { text } => text.clone(),
        AssistantPart::Thinking(block) => block.text.clone(),
        AssistantPart::ToolCall(call) => concat4(
            "tool_call ",
            &call.name.0,
            " ",
            &call.arguments.to_text(),
        ),
    }
}

fn render_assistant_parts(parts: &Vec<AssistantPart>) -> (texts: Vec<String>)
    ensures
        views(texts@) == told_parts(parts@),
{
    let mut texts: Vec<String> = Vec::new();
    let mut i: usize = 0;
    assert(views(texts@) =~= told_parts(parts@.subrange(0, 0)));
    while i < parts.len()
        invariant
            i <= parts.len(),
            views(texts@) == told_parts(parts@.subrange(0, i as int)),
        decreases parts.len() - i,
    {
        push_piece(&mut texts, render_assistant_part(&parts[i]));
        assert(views(texts@) =~= told_parts(parts@.subrange(0, i + 1)));
        i += 1;
    }
    assert(parts@.subrange(0, i as int) == parts@);
    texts
}

fn render_compaction_message(message: &Message) -> (text: String)
    ensures
        text@ == told_message(*message),
{
    match message {
        Message::System(system) => concat2("system: ", &system.text),
        Message::User(user) => concat2("user: ", &user_text(user)),
        Message::Assistant(assistant) => concat2(
            "assistant: ",
            &join(&render_assistant_parts(&assistant.parts), "\n"),
        ),
        Message::Tool(result) => match &result.content {
            ToolResult::Empty => "tool: <empty>".to_owned(),
            ToolResult::Text { text } => concat2("tool: ", text),
            ToolResult::Json { value } => concat2("tool: ", &value.to_text()),
        },
    }
}

fn push_said(texts: &mut Vec<String>, text: String)
    ensures
        views(final(texts)@) == if text@.len() == 0 {
            views(old(texts)@)
        } else {
            views(old(texts)@).push(text@)
        },
{
    if !text.as_str().is_empty() {
        push_piece(texts, text);
    }
}

impl FakeProvider {
    pub fn with_prefix(prefix: String) -> (provider: FakeProvider)
        ensures
            provider@ == prefix@,
    {
        FakeProvider { prefix }
    }

    pub fn capabilities(&self) -> (capabilities: ProviderCapabilities)
        ensures
            capabilities == (ProviderCapabilities {
                supports_compaction: true,
                ..no_capabilities()
            }),
    {
        let mut capabilities = ProviderCapabilities::default();
        capabilities.supports_compaction = true;
        capabilities
    }

    fn render_reply(&self, request: &ProviderRequest) -> (reply: String)
        ensures
            reply@ == reply_spec(self@, *request),
    {
        let mut end: usize = request.messages.len();
        let mut words: Option<String> = None;
        let ghost all = request.messages@;
        assert(all.subrange(0, end as int) == all);
        while end > 0 && words.is_none()
            invariant
                all == request.messages@,
                end <= all.len(),
                match words {
                    Some(words) => latest_words(all) == Some(words@),
                    None => latest_words(all) == latest_words(all.subrange(0, end as int)),
                },
            decreases end,
        {
            let ghost here = all.subrange(0, end as int);
            assert(here.drop_last() == all.subrange(0, end - 1));
            assert(here.last() == all[end - 1]);
            if let Message::User(user) = &request.messages[end - 1] {
                words = Some(user_text(user));
            }
            end -= 1;
        }
        let words = match words {
            Some(words) => words,
            None => "empty turn".to_owned(),
        };
        let reply = concat5(&self.prefix, " ", &words, " [", &request.model.model);
        concat2(&reply, "]")
    }

    /// The stream that answers a request.
    pub fn stream(&self, request: &ProviderRequest, ids: &mut IdSource) -> (events: Vec<StreamEvent>)
        ensures
            events_view(events@) == reply_events(
                old(ids)@,
                reply_spec(self@, *request),
                request.messages@.len(),
            ),
            final(ids)@ == old(ids)@.advanced().advanced(),
    {
        let message_id = MessageId(ids.mint());
        let block_id = BlockId(ids.mint());
        let reply = self.render_reply(request);
        let usage = Usage {
            input_tokens: eight_each(request.messages.len()),
            output_tokens: count_words(&reply),
            cache_creation_input_tokens: 0,
            cache_read_input_tokens: 0,
        };
        let mut events: Vec<StreamEvent> = Vec::new();
        assert(events_view(events@) =~= Seq::empty());
        push_event(&mut events, StreamEvent::MessageStart { id: message_id.clone() });
        push_event(&mut events, StreamEvent::TextStart { id: block_id.clone() });
        push_event(&mut events, StreamEvent::TextDelta { id: block_id.clone(), delta: reply });
        push_event(&mut events, StreamEvent::TextEnd { id: block_id });
        push_event(&mut events, StreamEvent::UsageUpdate { usage });
        push_event(
            &mut events,
            StreamEvent::MessageEnd {
                id: message_id,
                stop_reason: StopReason::EndTurn,
                response_id: None,
            },
        );
        assert(events_view(events@) =~= reply_events(
            old(ids)@,
            reply_spec(self@, *request),
            request.messages@.len(),
        ));
        events
    }

    /// Tells a conversation as one text.
    pub fn compact(&self, request: &ProviderCompactionRequest) -> (compaction:
        ProviderCompactionResponse)
        ensures
            compaction@ == fake_compaction(*request),
    {
        let ghost items = told_items(items_view(request.compacted_prefix@));
        let ghost messages = told_messages(request.messages@);
        let mut texts: Vec<String> = Vec::new();
        let mut i: usize = 0;
        assert(views(texts@) =~= said(items.subrange(0, 0)));
        while i < request.compacted_prefix.len()
            invariant
                items == told_items(items_view(request.compacted_prefix@)),
                i <= request.compacted_prefix.len(),
                views(texts@) == said(items.subrange(0, i as int)),
            decreases request.compacted_prefix.len() - i,
        {
            assert(items.subrange(0, i + 1).drop_last() == items.subrange(0, i as int));
            assert(items[i as int] == told_item(request.compacted_prefix@[i as int]@));
            push_said(&mut texts, render_compaction_input_item(&request.compacted_prefix[i]));
            i += 1;
        }
        let ghost told = items + messages;
        assert(told.subrange(0, i as int) =~= items.subrange(0, i as int));
        let mut j: usize = 0;
        while j < request.messages.len()
            invariant
                messages == told_messages(request.messages@),
                items.len() == request.compacted_prefix@.len(),
                told == items + messages,
                j <= request.messages.len(),
                views(texts@) == said(told.subrange(0, items.len() + j)),
            decreases request.messages.len() - j,
        {
            let ghost next = told.subrange(0, items.len() + j + 1);
            assert(next.drop_last() == told.subrange(0, items.len() + j));
            assert(next.last() == messages[j as int]);
            push_said(&mut texts, render_compaction_message(&request.messages[j]));
            j += 1;
        }
        assert(told.subrange(0, items.len() + j) == told);
        let item = object3(
            "type",
            text_json("compaction"),
            "id",
            Json::Text(concat2("cmp_", &request.session_id)),
            "encrypted_content",
            Json::Text(join(&texts, "\n")),
        );
        let mut output: Vec<Json> = Vec::new();
        output.push(item);
        assert(items_view(output@) =~= fake_compaction(*request).output);
        ProviderCompactionResponse {
            output,
            usage: Usage {
                input_tokens: eight_each(request.compacted_prefix.len()).saturating_add(
                    eight_each(request.messages.len()),
                ),
                output_tokens: 8,
                cache_creation_input_tokens: 0,
                cache_read_input_tokens: 0,
            },
        }
    }
}

/// The reply repeats what the user said last, between the prefix and the model.
pub proof fn law_reply_repeats_the_user(prefix: Seq<char>, request: ProviderRequest)
    ensures
        latest_words(request.messages@) is Some ==> reply_spec(prefix, request) == prefix + " "@
            + latest_words(request.messages@)->0 + " ["@ + request.model.model@ + "]"@,
        latest_words(request.messages@) is None ==> reply_spec(prefix, request) == prefix + " "@
            + "empty turn"@ + " ["@ + request.model.model@ + "]"@,
{
}

/// The latest message of the user counts, with its texts on lines of their own.
pub proof fn law_latest_user_message_counts(messages: Seq<Message>, message: Message)
    ensures
        message is User ==> latest_words(messages.push(message)) == Some(
            joined(user_texts(message->User_0.parts@), "\n"@),
        ),
        !(message is User) ==> latest_words(messages.push(message)) == latest_words(messages),
        latest_words(Seq::empty()) is None,
{
    assert(messages.push(message).drop_last() =~= messages);
}

/// The reply is told as one text of one message, with eight tokens for every message
/// that was read and one for every word that was said.
pub proof fn law_reply_is_told_in_one_text(ids: IdsView, reply: Seq<char>, messages: nat)
    requires
        messages * 8 <= u64::MAX,
        word_count(reply) <= u64::MAX,
    ensures
        ({
            let events = reply_events(ids, reply, messages);
            let id = ids.fresh();
            let block = ids.advanced().fresh();
            &&& events.len() == 6
            &&& events[0] == (EventView::MessageStart { id })
            &&& events[1] == (EventView::TextStart { id: block })
            &&& events[2] == (EventView::TextDelta { id: block, delta: reply })
            &&& events[3] == (EventView::TextEnd { id: block })
            &&& events[4] matches EventView::UsageUpdate { usage } && usage.input_tokens
                == messages * 8 && usage.output_tokens == word_count(reply)
                && usage.cache_creation_input_tokens == 0 && usage.cache_read_input_tokens == 0
            &&& events[5] == (EventView::MessageEnd {
                id,
                stop_reason: StopReason::EndTurn,
                response_id: None,
            })
        }),
{
}

/// A word begins with a character that is no white space, at the start or behind white
/// space.
pub proof fn law_words_are_counted(text: Seq<char>, c: char)
    ensures
        word_count(Seq::empty()) == 0,
        is_white_space(c) ==> word_count(text.push(c)) == word_count(text),
        !is_white_space(c) && (text.len() == 0 || is_white_space(text.last())) ==> word_count(
            text.push(c),
        ) == word_count(text) + 1,
        !is_white_space(c) && text.len() > 0 && !is_white_space(text.last()) ==> word_count(
            text.push(c),
        ) == word_count(text),
{
    assert(text.push(c).drop_last() =~= text);
}

/// A compaction is one item, named by its session, that tells every item and message in
/// order, each on a line of its own.
pub proof fn law_fake_compaction_tells_everything(request: ProviderCompactionRequest)
    ensures
        ({
            let given = fake_compaction(request);
            let told = told_items(items_view(request.compacted_prefix@)) + told_messages(
                request.messages@,
            );
            &&& given.output.len() == 1
            &&& given.output[0].get_str("type"@) == Some("compaction"@)
            &&& given.output[0].get_str("id"@) == Some("cmp_"@ + request.session_id@)
            &&& given.output[0].get_str("encrypted_content"@) == Some(joined(said(told), "\n"@))
            &&& told_items(items_view(request.compacted_prefix@)).len()
                == request.compacted_prefix@.len()
            &&& told_messages(request.messages@).len() == request.messages@.len()
            &&& forall|i: int|
                0 <= i < request.messages@.len() ==> told_messages(request.messages@)[i]
                    == told_message(#[trigger] request.messages@[i])
            &&& forall|i: int|
                0 <= i < request.compacted_prefix@.len() ==> told_items(
                    items_view(request.compacted_prefix@),
                )[i] == told_item((#[trigger] request.compacted_prefix@[i])@)
            &&& given.usage.output_tokens == 8
            &&& given.usage.input_tokens == token_count(
                (8 * (request.compacted_prefix@.len() + request.messages@.len())) as nat,
            )
        }),
{
    reveal_strlit("type");
    reveal_strlit("id");
    reveal_strlit("encrypted_content");
    assert("type"@.len() == 4);
    assert("id"@.len() == 2);
    assert("encrypted_content"@.len() == 17);
    let item = fake_compaction(request).output[0];
    crate::json::lemma_member(item, 0, "type"@);
    crate::json::lemma_member(item, 1, "id"@);
    crate::json::lemma_member(item, 2, "encrypted_content"@);
}

/// What says nothing is left out of what is said, and nothing else.
pub proof fn law_only_silence_is_left_out(texts: Seq<Seq<char>>, text: Seq<char>)
    ensures
        said(Seq::empty()) == Seq::<Seq<char>>::empty(),
        text.len() > 0 ==> said(texts.push(text)) == said(texts).push(text),
        text.len() == 0 ==> said(texts.push(text)) == said(texts),
{
    assert(texts.push(text).drop_last() =~= texts);
}

/// A message is told by who said it; an item by its role, or else by its type.
pub proof fn law_messages_and_items_are_told(message: Message, item: JsonView)
    ensures
        match message {
            Message::System(system) => told_message(message) == "system: "@ + system.text@,
            Message::User(user) => told_message(message) == "user: "@ + joined(
                user_texts(user.parts@),
                "\n"@,
            ),
            Message::Assistant(assistant) => {
                &&& told_message(message) == "assistant: "@ + joined(
                    told_parts(assistant.parts@),
                    "\n"@,
                )
                &&& told_parts(assistant.parts@).len() == assistant.parts@.len()
                &&& forall|i: int|
                    0 <= i < assistant.parts@.len() ==> told_parts(assistant.parts@)[i]
                        == match #[trigger] assistant.parts@[i] {
                        AssistantPart::Text { text } => text@,
                        AssistantPart::Thinking(block) => block.text@,
                        AssistantPart::ToolCall(call) => "tool_call "@ + call.name.0@ + " "@
                            + json_text(call.arguments@),
                    }
            },
            Message::Tool(result) => match result.content {
                ToolResult::Empty => told_message(message) == "tool: <empty>"@,
                ToolResult::Text { text } => told_message(message) == "tool: "@ + text@,
                ToolResult::Json { value } => told_message(message) == "tool: "@ + json_text(
                    value@,
                ),
            },
        },
        item.get_str("role"@) is Some ==> told_item(item) == item.get_str("role"@)->0 + ": "@
            + json_text(item),
        item.get_str("role"@) is None && item.get_str("type"@) is Some ==> told_item(item)
            == item.get_str("type"@)->0 + ": "@ + json_text(item),
        item.get_str("role"@) is None && item.get_str("type"@) is None ==> told_item(item)
            == json_text(item),
{
}

} // verus!
