//! What a provider can do, and which messages a compaction may replace.

use vstd::prelude::*;
use vstd::slice::slice_subrange;

use crate::protocol::Message;

verus! {

/// Where the identifiers of tool calls come from.
#[derive(Debug, Clone, Copy, PartialEq, Eq, Structural)]
pub enum ToolCallIdPolicy {
    ProviderSupplied,
    StableReplayNormalized,
}

/// How a provider compacts.
#[derive(Debug, Clone, Copy, PartialEq, Eq, Structural)]
pub enum ProviderCompactionStrategy {
    /// Through an endpoint of its own.
    Dedicated,
    /// Through an ordinary request.
    Inline,
}

#[derive(Debug, Clone, Copy, PartialEq, Eq, Structural)]
pub struct ProviderCapabilities {
    pub supports_tools: bool,
    pub supports_streaming: bool,
    pub supports_reasoning: bool,
    pub supports_interleaved_reasoning: bool,
    pub supports_images: bool,
    pub supports_documents: bool,
    pub supports_prompt_cache: bool,
    pub supports_compaction: bool,
    pub compaction_strategy: Option<ProviderCompactionStrategy>,
    pub supports_tool_result_media: bool,
    pub requires_non_empty_assistant_content: bool,
    pub tool_call_id_policy: ToolCallIdPolicy,
    pub max_input_tokens: u32,
    pub max_output_tokens: u32,
}

/// A provider that is not known to be able to do anything.
pub open spec fn no_capabilities() -> ProviderCapabilities {
    ProviderCapabilities {
        supports_tools: false,
        supports_streaming: false,
        supports_reasoning: false,
        supports_interleaved_reasoning: false,
        supports_images: false,
        supports_documents: false,
        supports_prompt_cache: false,
        supports_compaction: false,
        compaction_strategy: None,
        supports_tool_result_media: false,
        requires_non_empty_assistant_content: false,
        tool_call_id_policy: ToolCallIdPolicy::ProviderSupplied,
        max_input_tokens: 0,
        max_output_tokens: 0,
    }
}

impl Default for ProviderCapabilities {
    fn default() -> (capabilities: ProviderCapabilities)
        ensures
            capabilities == no_capabilities(),
    {
        ProviderCapabilities {
            supports_tools: false,
            supports_streaming: false,
            supports_reasoning: false,
            supports_interleaved_reasoning: false,
            supports_images: false,
            supports_documents: false,
            supports_prompt_cache: false,
            supports_compaction: false,
            compaction_strategy: None,
            supports_tool_result_media: false,
            requires_non_empty_assistant_content: false,
            tool_call_id_policy: ToolCallIdPolicy::ProviderSupplied,
            max_input_tokens: 0,
            max_output_tokens: 0,
        }
    }
}

/// Which messages a compaction leaves alone.
#[derive(Debug, Clone, Copy, PartialEq, Eq, Structural)]
pub enum WindowKind {
    /// All up to the latest message of the user.
    ThroughLatestUser,
    /// The latest block of the assistant's response.
    LatestAssistantResponse,
}

/// A conversation parted into what a compaction leaves alone and what it may
/// replace.
#[derive(Debug)]
pub struct CompactionWindow<'a> {
    pub preserved_messages: &'a [Message],
    pub eligible_messages: &'a [Message],
    pub reserved_response_block: bool,
}

/// How many messages there are up to the latest one of the user, with it.
pub open spec fn through_latest_user(messages: Seq<Message>) -> nat
    decreases messages.len(),
{
    if messages.len() == 0 || messages.last() is User {
        messages.len()
    } else {
        through_latest_user(messages.drop_last())
    }
}

impl<'a> CompactionWindow<'a> {
    /// Preserves all messages up to the latest one of the user; those after it
    /// may be replaced.
    pub fn preserve_through_latest_user(messages: &'a [Message]) -> (window: CompactionWindow<'a>)
        ensures
            window.preserved_messages@ == messages@.subrange(
                0,
                through_latest_user(messages@) as int,
            ),
            window.eligible_messages@ == messages@.subrange(
                through_latest_user(messages@) as int,
                messages@.len() as int,
            ),
            !window.reserved_response_block,
    {
        let mut end: usize = messages.len();
        assert(messages@.subrange(0, end as int) == messages@);
        while end > 0
            invariant_except_break
                end <= messages@.len(),
                through_latest_user(messages@) == through_latest_user(
                    messages@.subrange(0, end as int),
                ),
            ensures
                end <= messages@.len(),
                end == through_latest_user(messages@),
            decreases end,
        {
            let ghost here = messages@.subrange(0, end as int);
            assert(here.last() == messages@[end - 1]);
            if let Message::User(_) = &messages[end - 1] {
                break;
            }
            assert(here.drop_last() == messages@.subrange(0, end - 1));
            end -= 1;
        }
        CompactionWindow {
            preserved_messages: slice_subrange(messages, 0, end),
            eligible_messages: slice_subrange(messages, end, messages.len()),
            reserved_response_block: false,
        }
    }
}

/// A compaction window loses nothing and repeats nothing: its two parts, one
/// after the other, are the conversation. No message of the user is in the part
/// that may be replaced.
pub proof fn law_window_parts_the_conversation(messages: Seq<Message>)
    ensures
        through_latest_user(messages) <= messages.len(),
        ({
            let at = through_latest_user(messages) as int;
            messages.subrange(0, at) + messages.subrange(at, messages.len() as int) == messages
        }),
        forall|i: int|
            through_latest_user(messages) <= i < messages.len() ==> !(#[trigger] messages[i] is User),
    decreases messages.len(),
{
    if messages.len() > 0 && !(messages.last() is User) {
        law_window_parts_the_conversation(messages.drop_last());
        assert forall|i: int| through_latest_user(messages) <= i < messages.len() implies !(
        #[trigger] messages[i] is User) by {
            if i < messages.len() - 1 {
                assert(messages.drop_last()[i] == messages[i]);
            }
        }
    }
    let at = through_latest_user(messages) as int;
    assert(messages.subrange(0, at) + messages.subrange(at, messages.len() as int) =~= messages);
}

/// The first part of the conversation ends with the latest message of the user, and is
/// empty where the user said nothing.
pub proof fn law_first_part_ends_with_the_user(messages: Seq<Message>)
    ensures
        through_latest_user(messages) == 0 || messages[through_latest_user(messages) - 1] is User,
        (exists|i: int| 0 <= i < messages.len() && #[trigger] messages[i] is User)
            ==> through_latest_user(messages) > 0,
    decreases messages.len(),
{
    law_window_parts_the_conversation(messages);
    if messages.len() > 0 && !(messages.last() is User) {
        law_first_part_ends_with_the_user(messages.drop_last());
        law_window_parts_the_conversation(messages.drop_last());
    }
}

} // verus!
