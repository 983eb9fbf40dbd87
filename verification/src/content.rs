//! What messages and requests say, and copies that say the same.

use vstd::prelude::*;

use crate::codec_common::duplicate_aliases;
use crate::json::{items_view, push_copies, string_view, Json, JsonView};
use crate::protocol::{
    AssembledPrompt, AssistantMessage, AssistantPart, CacheBreakpoints, Message,
    ProviderCompactionRequest, ProviderKind, ProviderRequest, ResolvedModel, SystemMessage,
    ThinkingBlock, ToolAlias, ToolCall, ToolError, ToolResult, ToolResultMessage, ToolSpec,
    UserMessage, UserPart,
};
use crate::text::views;

verus! {

pub ghost enum UserPartView {
    Text(Seq<char>),
    Image(Seq<char>, Seq<u8>),
    Document(Seq<char>, Seq<u8>),
}

pub ghost struct CallView {
    pub id: Seq<char>,
    pub name: Seq<char>,
    pub arguments: JsonView,
}

pub ghost enum AssistantPartView {
    Text(Seq<char>),
    Thinking(Seq<char>, Option<Seq<char>>),
    ToolCall(CallView),
}

pub ghost enum ToolResultView {
    Empty,
    Text(Seq<char>),
    Json(JsonView),
}

pub ghost enum MessageView {
    System(Seq<char>),
    User(Seq<char>, Seq<UserPartView>),
    Assistant(Seq<char>, Seq<AssistantPartView>),
    Tool(Seq<char>, ToolResultView, Option<Seq<char>>),
}

pub ghost struct ToolView {
    pub name: Seq<char>,
    pub description: Seq<char>,
    pub input_schema: JsonView,
    pub aliases: Seq<(ProviderKind, Seq<char>)>,
}

pub ghost struct PromptView {
    pub segments: Seq<Seq<char>>,
    pub prefix_cache_key: Seq<char>,
    pub rendered_prefix: Seq<char>,
    pub cache_breakpoints: CacheBreakpoints,
    pub system_segment_count: usize,
    pub skill_segment_count: usize,
}

pub ghost struct RequestView {
    pub model: ResolvedModel,
    pub prompt: PromptView,
    pub compacted_prefix: Seq<JsonView>,
    pub messages: Seq<MessageView>,
    pub tools: Seq<ToolView>,
    pub previous_response_id: Option<Seq<char>>,
    pub new_messages_start: usize,
}

pub ghost struct CompactionRequestView {
    pub session_id: Seq<char>,
    pub model: ResolvedModel,
    pub compacted_prefix: Seq<JsonView>,
    pub messages: Seq<MessageView>,
    pub tools: Seq<ToolView>,
    pub instructions: Seq<char>,
}

impl UserPart {
    pub open spec fn view(&self) -> UserPartView {
        match self {
            UserPart::Text { text } => UserPartView::Text(text@),
            UserPart::Image { media_type, data } => UserPartView::Image(media_type@, data@),
            UserPart::Document { media_type, data } => UserPartView::Document(media_type@, data@),
        }
    }

    pub fn duplicate(&self) -> (copy: UserPart)
        ensures
            copy@ == self@,
    {
        match self {
            UserPart::Text { text } => UserPart::Text { text: text.clone() },
            UserPart::Image { media_type, data } => UserPart::Image {
                media_type: media_type.clone(),
                data: data.duplicate(),
            },
            UserPart::Document { media_type, data } => UserPart::Document {
                media_type: media_type.clone(),
                data: data.duplicate(),
            },
        }
    }
}

pub open spec fn user_parts_view(parts: Seq<UserPart>) -> Seq<UserPartView> {
    parts.map_values(|part: UserPart| part@)
}

impl ToolCall {
    pub open spec fn view(&self) -> CallView {
        CallView { id: self.id.0@, name: self.name.0@, arguments: self.arguments@ }
    }

    pub fn duplicate(&self) -> (copy: ToolCall)
        ensures
            copy@ == self@,
    {
        ToolCall {
            id: self.id.clone(),
            name: self.name.clone(),
            arguments: self.arguments.duplicate(),
        }
    }
}

pub open spec fn calls_view(calls: Seq<ToolCall>) -> Seq<CallView> {
    calls.map_values(|call: ToolCall| call@)
}

fn duplicate_text(text: &Option<String>) -> (copy: Option<String>)
    ensures
        string_view(copy) == string_view(*text),
{
    match text {
        Some(text) => Some(text.clone()),
        None => None,
    }
}

impl AssistantPart {
    pub open spec fn view(&self) -> AssistantPartView {
        match self {
            AssistantPart::Text { text } => AssistantPartView::Text(text@),
            AssistantPart::Thinking(block) => AssistantPartView::Thinking(
                block.text@,
                string_view(block.signature),
            ),
            AssistantPart::ToolCall(call) => AssistantPartView::ToolCall(call@),
        }
    }

    pub fn duplicate(&self) -> (copy: AssistantPart)
        ensures
            copy@ == self@,
    {
        match self {
            AssistantPart::Text { text } => AssistantPart::Text { text: text.clone() },
            AssistantPart::Thinking(block) => AssistantPart::Thinking(
                ThinkingBlock {
                    text: block.text.clone(),
                    signature: duplicate_text(&block.signature),
                },
            ),
            AssistantPart::ToolCall(call) => AssistantPart::ToolCall(call.duplicate()),
        }
    }
}

pub open spec fn assistant_parts_view(parts: Seq<AssistantPart>) -> Seq<AssistantPartView> {
    parts.map_values(|part: AssistantPart| part@)
}

impl ToolResult {
    pub open spec fn view(&self) -> ToolResultView {
        match self {
            ToolResult::Empty => ToolResultView::Empty,
            ToolResult::Text { text } => ToolResultView::Text(text@),
            ToolResult::Json { value } => ToolResultView::Json(value@),
        }
    }

    pub fn duplicate(&self) -> (copy: ToolResult)
        ensures
            copy@ == self@,
    {
        match self {
            ToolResult::Empty => ToolResult::Empty,
            ToolResult::Text { text } => ToolResult::Text { text: text.clone() },
            ToolResult::Json { value } => ToolResult::Json { value: value.duplicate() },
        }
    }
}

pub open spec fn error_text(error: Option<ToolError>) -> Option<Seq<char>> {
    match error {
        Some(error) => Some(error.message@),
        None => None,
    }
}

fn duplicate_user_parts(parts: &Vec<UserPart>) -> (copies: Vec<UserPart>)
    ensures
        user_parts_view(copies@) == user_parts_view(parts@),
{
    let mut copies: Vec<UserPart> = Vec::new();
    let mut i: usize = 0;
    while i < parts.len()
        invariant
            i <= parts.len(),
            copies@.len() == i,
            forall|k: int| 0 <= k < i ==> #[trigger] copies@[k]@ == parts@[k]@,
        decreases parts.len() - i,
    {
        copies.push(parts[i].duplicate());
        i += 1;
    }
    assert(user_parts_view(copies@) =~= user_parts_view(parts@));
    copies
}

fn duplicate_assistant_parts(parts: &Vec<AssistantPart>) -> (copies: Vec<AssistantPart>)
    ensures
        assistant_parts_view(copies@) == assistant_parts_view(parts@),
{
    let mut copies: Vec<AssistantPart> = Vec::new();
    let mut i: usize = 0;
    while i < parts.len()
        invariant
            i <= parts.len(),
            copies@.len() == i,
            forall|k: int| 0 <= k < i ==> #[trigger] copies@[k]@ == parts@[k]@,
        decreases parts.len() - i,
    {
        copies.push(parts[i].duplicate());
        i += 1;
    }
    assert(assistant_parts_view(copies@) =~= assistant_parts_view(parts@));
    copies
}

impl Message {
    pub open spec fn view(&self) -> MessageView {
        match self {
            Message::System(system) => MessageView::System(system.text@),
            Message::User(user) => MessageView::User(user.id.0@, user_parts_view(user.parts@)),
            Message::Assistant(assistant) => MessageView::Assistant(
                assistant.id.0@,
                assistant_parts_view(assistant.parts@),
            ),
            Message::Tool(result) => MessageView::Tool(
                result.call_id.0@,
                result.content@,
                error_text(result.error),
            ),
        }
    }

    pub fn duplicate(&self) -> (copy: Message)
        ensures
            copy@ == self@,
    {
        match self {
            Message::System(system) => Message::System(SystemMessage { text: system.text.clone() }),
            Message::User(user) => Message::User(
                UserMessage { id: user.id.clone(), parts: duplicate_user_parts(&user.parts) },
            ),
            Message::Assistant(assistant) => Message::Assistant(
                AssistantMessage {
                    id: assistant.id.clone(),
                    parts: duplicate_assistant_parts(&assistant.parts),
                },
            ),
            Message::Tool(result) => Message::Tool(
                ToolResultMessage {
                    call_id: result.call_id.clone(),
                    content: result.content.duplicate(),
                    error: match &result.error {
                        Some(error) => Some(ToolError { message: error.message.clone() }),
                        None => None,
                    },
                },
            ),
        }
    }
}

pub open spec fn messages_view(messages: Seq<Message>) -> Seq<MessageView> {
    messages.map_values(|message: Message| message@)
}

/// Appends a message.
pub fn push_message(messages: &mut Vec<Message>, message: Message)
    ensures
        messages_view(final(messages)@) == messages_view(old(messages)@).push(message@),
{
    messages.push(message);
    assert(messages_view(messages@) =~= messages_view(old(messages)@).push(message@));
}

/// Appends copies of messages.
pub fn push_message_copies(messages: &mut Vec<Message>, more: &Vec<Message>)
    ensures
        messages_view(final(messages)@) == messages_view(old(messages)@) + messages_view(more@),
{
    let ghost before = messages_view(messages@);
    let mut i: usize = 0;
    assert(messages_view(more@.subrange(0, 0)) =~= Seq::empty());
    assert(before + Seq::<MessageView>::empty() =~= before);
    while i < more.len()
        invariant
            i <= more.len(),
            messages_view(messages@) == before + messages_view(more@.subrange(0, i as int)),
        decreases more.len() - i,
    {
        push_message(messages, more[i].duplicate());
        assert(before + messages_view(more@.subrange(0, i + 1)) =~= (before + messages_view(
            more@.subrange(0, i as int),
        )).push(more@[i as int]@));
        i += 1;
    }
    assert(more@.subrange(0, i as int) == more@);
}

pub fn duplicate_messages(messages: &Vec<Message>) -> (copies: Vec<Message>)
    ensures
        messages_view(copies@) == messages_view(messages@),
{
    let mut copies: Vec<Message> = Vec::new();
    assert(messages_view(copies@) =~= Seq::empty());
    push_message_copies(&mut copies, messages);
    assert(messages_view(copies@) =~= messages_view(messages@));
    copies
}

pub open spec fn aliases_view(aliases: Seq<ToolAlias>) -> Seq<(ProviderKind, Seq<char>)> {
    aliases.map_values(|alias: ToolAlias| (alias.provider_kind, alias.alias@))
}

impl ToolSpec {
    pub open spec fn view(&self) -> ToolView {
        ToolView {
            name: self.name.0@,
            description: self.description@,
            input_schema: self.input_schema@,
            aliases: aliases_view(self.provider_aliases@),
        }
    }

    pub fn duplicate(&self) -> (copy: ToolSpec)
        ensures
            copy@ == self@,
    {
        ToolSpec {
            name: self.name.clone(),
            description: self.description.clone(),
            input_schema: self.input_schema.duplicate(),
            provider_aliases: duplicate_aliases(&self.provider_aliases),
        }
    }
}

pub open spec fn tools_view(tools: Seq<ToolSpec>) -> Seq<ToolView> {
    tools.map_values(|tool: ToolSpec| tool@)
}

pub fn duplicate_tools(tools: &Vec<ToolSpec>) -> (copies: Vec<ToolSpec>)
    ensures
        tools_view(copies@) == tools_view(tools@),
{
    let mut copies: Vec<ToolSpec> = Vec::new();
    let mut i: usize = 0;
    while i < tools.len()
        invariant
            i <= tools.len(),
            copies@.len() == i,
            forall|k: int| 0 <= k < i ==> #[trigger] copies@[k]@ == tools@[k]@,
        decreases tools.len() - i,
    {
        copies.push(tools[i].duplicate());
        i += 1;
    }
    assert(tools_view(copies@) =~= tools_view(tools@));
    copies
}

fn duplicate_texts(texts: &Vec<String>) -> (copies: Vec<String>)
    ensures
        views(copies@) == views(texts@),
{
    let mut copies: Vec<String> = Vec::new();
    let mut i: usize = 0;
    while i < texts.len()
        invariant
            i <= texts.len(),
            copies@.len() == i,
            forall|k: int| 0 <= k < i ==> #[trigger] copies@[k]@ == texts@[k]@,
        decreases texts.len() - i,
    {
        copies.push(texts[i].clone());
        i += 1;
    }
    assert(views(copies@) =~= views(texts@));
    copies
}

pub fn duplicate_items(items: &Vec<Json>) -> (copies: Vec<Json>)
    ensures
        items_view(copies@) == items_view(items@),
{
    let mut copies: Vec<Json> = Vec::new();
    push_copies(&mut copies, items);
    assert(items_view(copies@) =~= items_view(items@));
    copies
}

impl AssembledPrompt {
    pub open spec fn view(&self) -> PromptView {
        PromptView {
            segments: views(self.ordered_segments@),
            prefix_cache_key: self.prefix_cache_key@,
            rendered_prefix: self.rendered_prefix@,
            cache_breakpoints: self.cache_breakpoints,
            system_segment_count: self.system_segment_count,
            skill_segment_count: self.skill_segment_count,
        }
    }

    pub fn duplicate(&self) -> (copy: AssembledPrompt)
        ensures
            copy@ == self@,
    {
        AssembledPrompt {
            ordered_segments: duplicate_texts(&self.ordered_segments),
            prefix_cache_key: self.prefix_cache_key.clone(),
            rendered_prefix: self.rendered_prefix.clone(),
            cache_breakpoints: self.cache_breakpoints,
            system_segment_count: self.system_segment_count,
            skill_segment_count: self.skill_segment_count,
        }
    }
}

impl ProviderRequest {
    pub open spec fn view(&self) -> RequestView {
        RequestView {
            model: self.model,
            prompt: self.prompt@,
            compacted_prefix: items_view(self.compacted_prefix@),
            messages: messages_view(self.messages@),
            tools: tools_view(self.tools@),
            previous_response_id: string_view(self.previous_response_id),
            new_messages_start: self.new_messages_start,
        }
    }

    /// A request that says the same.
    pub fn duplicate(&self) -> (copy: ProviderRequest)
        ensures
            copy@ == self@,
    {
        ProviderRequest {
            model: self.model.clone(),
            prompt: self.prompt.duplicate(),
            compacted_prefix: duplicate_items(&self.compacted_prefix),
            messages: duplicate_messages(&self.messages),
            tools: duplicate_tools(&self.tools),
            previous_response_id: duplicate_text(&self.previous_response_id),
            new_messages_start: self.new_messages_start,
        }
    }
}

impl ProviderCompactionRequest {
    pub open spec fn view(&self) -> CompactionRequestView {
        CompactionRequestView {
            session_id: self.session_id@,
            model: self.model,
            compacted_prefix: items_view(self.compacted_prefix@),
            messages: messages_view(self.messages@),
            tools: tools_view(self.tools@),
            instructions: self.instructions@,
        }
    }

    /// A request that says the same.
    pub fn duplicate(&self) -> (copy: ProviderCompactionRequest)
        ensures
            copy@ == self@,
    {
        ProviderCompactionRequest {
            session_id: self.session_id.clone(),
            model: self.model.clone(),
            compacted_prefix: duplicate_items(&self.compacted_prefix),
            messages: duplicate_messages(&self.messages),
            tools: duplicate_tools(&self.tools),
            instructions: self.instructions.clone(),
        }
    }
}

/// Nothing of a message is left out of what is seen of it.
pub proof fn law_messages_are_seen_whole(message: Message)
    ensures
        match message {
            Message::System(system) => message@ == MessageView::System(system.text@),
            Message::User(user) => {
                &&& message@ == MessageView::User(user.id.0@, user_parts_view(user.parts@))
                &&& user_parts_view(user.parts@).len() == user.parts@.len()
                &&& forall|i: int|
                    0 <= i < user.parts@.len() ==> match #[trigger] user.parts@[i] {
                        UserPart::Text { text } => user_parts_view(user.parts@)[i]
                            == UserPartView::Text(text@),
                        UserPart::Image { media_type, data } => user_parts_view(user.parts@)[i]
                            == UserPartView::Image(media_type@, data@),
                        UserPart::Document { media_type, data } => user_parts_view(user.parts@)[i]
                            == UserPartView::Document(media_type@, data@),
                    }
            },
            Message::Assistant(assistant) => {
                &&& message@ == MessageView::Assistant(
                    assistant.id.0@,
                    assistant_parts_view(assistant.parts@),
                )
                &&& assistant_parts_view(assistant.parts@).len() == assistant.parts@.len()
                &&& forall|i: int|
                    0 <= i < assistant.parts@.len() ==> match #[trigger] assistant.parts@[i] {
                        AssistantPart::Text { text } => assistant_parts_view(assistant.parts@)[i]
                            == AssistantPartView::Text(text@),
                        AssistantPart::Thinking(block) => assistant_parts_view(assistant.parts@)[i]
                            == AssistantPartView::Thinking(
                            block.text@,
                            string_view(block.signature),
                        ),
                        AssistantPart::ToolCall(call) => assistant_parts_view(assistant.parts@)[i]
                            == AssistantPartView::ToolCall(
                            CallView {
                                id: call.id.0@,
                                name: call.name.0@,
                                arguments: call.arguments@,
                            },
                        ),
                    }
            },
            Message::Tool(result) => message@ == MessageView::Tool(
                result.call_id.0@,
                match result.content {
                    ToolResult::Empty => ToolResultView::Empty,
                    ToolResult::Text { text } => ToolResultView::Text(text@),
                    ToolResult::Json { value } => ToolResultView::Json(value@),
                },
                match result.error {
                    Some(error) => Some(error.message@),
                    None => None,
                },
            ),
        },
{
}

/// Nothing of a tool is left out of what is seen of it.
pub proof fn law_tools_are_seen_whole(tool: ToolSpec, i: int)
    requires
        0 <= i < tool.provider_aliases@.len(),
    ensures
        tool@.name == tool.name.0@,
        tool@.description == tool.description@,
        tool@.input_schema == tool.input_schema@,
        tool@.aliases.len() == tool.provider_aliases@.len(),
        tool@.aliases[i] == (
            tool.provider_aliases@[i].provider_kind,
            tool.provider_aliases@[i].alias@,
        ),
{
}

/// Nothing of a request is left out of what is seen of it.
pub proof fn law_requests_are_seen_whole(
    request: ProviderRequest,
    compaction: ProviderCompactionRequest,
    i: int,
)
    ensures
        request@.model == request.model,
        request@.prompt.prefix_cache_key == request.prompt.prefix_cache_key@,
        request@.prompt.rendered_prefix == request.prompt.rendered_prefix@,
        request@.prompt.cache_breakpoints == request.prompt.cache_breakpoints,
        request@.prompt.system_segment_count == request.prompt.system_segment_count,
        request@.prompt.skill_segment_count == request.prompt.skill_segment_count,
        request@.prompt.segments.len() == request.prompt.ordered_segments@.len(),
        0 <= i < request.prompt.ordered_segments@.len() ==> request@.prompt.segments[i]
            == request.prompt.ordered_segments@[i]@,
        request@.messages.len() == request.messages@.len(),
        0 <= i < request.messages@.len() ==> request@.messages[i] == request.messages@[i]@,
        request@.tools.len() == request.tools@.len(),
        0 <= i < request.tools@.len() ==> request@.tools[i] == request.tools@[i]@,
        request@.compacted_prefix.len() == request.compacted_prefix@.len(),
        0 <= i < request.compacted_prefix@.len() ==> request@.compacted_prefix[i]
            == request.compacted_prefix@[i]@,
        request@.previous_response_id == string_view(request.previous_response_id),
        request@.new_messages_start == request.new_messages_start,
        compaction@.session_id == compaction.session_id@,
        compaction@.model == compaction.model,
        compaction@.instructions == compaction.instructions@,
        compaction@.messages.len() == compaction.messages@.len(),
        0 <= i < compaction.messages@.len() ==> compaction@.messages[i] == compaction.messages@[i]@,
        compaction@.tools.len() == compaction.tools@.len(),
        0 <= i < compaction.tools@.len() ==> compaction@.tools[i] == compaction.tools@[i]@,
        compaction@.compacted_prefix.len() == compaction.compacted_prefix@.len(),
        0 <= i < compaction.compacted_prefix@.len() ==> compaction@.compacted_prefix[i]
            == compaction.compacted_prefix@[i]@,
{
}

} // verus!
