//! One model call spread over a panel: every panelist advises, a judge ranks and
//! synthesizes what they said, and a default model answers with that at hand.

use vstd::prelude::*;

use crate::content::{
    duplicate_messages, duplicate_tools, messages_view, push_message, push_message_copies,
    tools_view, AssistantPartView, CallView, MessageView, RequestView, ToolResultView, ToolView,
    UserPartView,
};
use crate::ids::{IdSource, IdsView};
use crate::json::{
    array1, items_view, json_text, lemma_member, object1, object2, object3, owned_view, push_item,
    text_json, unsigned_json, Json, JsonView, NumberView,
};
use crate::message_collector::{CollectedMessage, CollectedView};
use crate::protocol::{
    AssistantMessage, AssistantPart, Message, MessageId, ProviderCompactionRequest, ProviderError,
    ProviderRequest, ResolvedModel, ToolCall, ToolName, ToolResult, ToolResultMessage, ToolSpec,
    UserMessage, UserPart,
};
use crate::text::{
    concat2, concat3, concat5, decimal, decimal_text, push_piece, same_text, trim, trimmed, views,
};

verus! {

/// Under which name events of the panel are logged.
pub const MODEL_JUDGE_TRACE_TARGET: &'static str = "halter::model_judge";

/// The tool that the judge ranks with.
pub const MODEL_JUDGE_RANK_TOOL: &'static str = "rank_responses";

/// How often the judge is asked at most.
pub const MAX_SYNTHESIS_ROUNDS: usize = 3;

pub const EMPTY_SYNTHESIS_ERROR: &'static str =
    "model-judge synthesis produced neither a ranking nor synthesis text";

/// What every panelist reads first: it is to advise, not to act.
pub const PANEL_PREFIX: &'static str =
    "You are one of several expert models on a review panel. The conversation that \
    follows is an in-progress agent session. An independent synthesis judge will read \
    your response alongside the other panelists', stack-rank them, and distill the best \
    guidance for the model that actually acts next — so your job is to advise, not to \
    execute.\n\nThink deeply about how you would approach what is being asked: your \
    first inclination, the next one to three actions or thoughts you would commit to, \
    why you would take them, and the decision tree branching from that first move — \
    including the alternatives you weighed and the risks or unknowns that would change \
    your mind.\n\nRespond in self-contained prose so the judge can compare you against \
    the other panelists. Do not rely on tool calls to communicate; if you would use a \
    tool, name it and describe what you would pass and why. Be specific and decisive — \
    hedged or vague guidance is hard to rank. Do not address the user; you are \
    producing advisory analysis, not a reply.";

/// What the judge reads before the candidates.
pub const SYNTHESIS_HEADER: &'static str =
    "You are a synthesis judge. Below are candidate responses to the most recent user \
    message, each produced by a different model.\n\nWorkflow:\n1. In your first \
    response, call the `rank_responses` tool exactly once with a stack ranking of every \
    candidate from best (rank 1) to worst, keyed by the candidate's `model_id`.\n2. \
    After the tool result is returned, write a synthesis that does NOT merge the \
    candidates but JUDGES and SYNTHESIZES them: cover each candidate's strengths, \
    weaknesses, pros, and cons, and finish with an overall synthesis of all responses \
    that is greater than the sum of it's parts.\n\nValid outputs are only a \
    `rank_responses` tool call or non-empty synthesis text. Never return an empty \
    assistant message. If you are uncertain, make a best-effort ranking and concise \
    synthesis. Do not address the user directly; your synthesis is advisory context for \
    another model.\n\nCandidates:\n";

/// A model with the provider that reaches it.
#[derive(Debug)]
pub struct ModelJudgeMember<P> {
    pub provider: P,
    pub model: ResolvedModel,
}

/// The three roles of a judged panel.
#[derive(Debug)]
pub struct ModelJudgeProvider<P> {
    pub default: ModelJudgeMember<P>,
    pub synthesis: ModelJudgeMember<P>,
    pub panel: Vec<ModelJudgeMember<P>>,
}

/// What one panelist said.
#[derive(Debug)]
pub struct Candidate {
    /// How the judge is to call it.
    pub id: String,
    /// The model's name.
    pub model: String,
    /// The text, and the tool calls that were proposed.
    pub body: String,
}

pub ghost struct CandidateView {
    pub id: Seq<char>,
    pub model: Seq<char>,
    pub body: Seq<char>,
}

impl Candidate {
    pub open spec fn view(&self) -> CandidateView {
        CandidateView { id: self.id@, model: self.model@, body: self.body@ }
    }
}

pub open spec fn candidates_view(candidates: Seq<Candidate>) -> Seq<CandidateView> {
    candidates.map_values(|candidate: Candidate| candidate@)
}

// ---------------------------------------------------------------------------
// Candidates

/// Another panelist has the same model name.
pub open spec fn is_shared(names: Seq<Seq<char>>, i: int) -> bool {
    exists|j: int| 0 <= j < names.len() && j != i && #[trigger] names[j] == names[i]
}

/// The length of the longest name.
pub open spec fn longest(names: Seq<Seq<char>>) -> nat
    decreases names.len(),
{
    if names.len() == 0 {
        0
    } else if longest(names.drop_last()) < names.last().len() {
        names.last().len()
    } else {
        longest(names.drop_last())
    }
}

pub proof fn lemma_longest(names: Seq<Seq<char>>, name: Seq<char>)
    requires
        names.contains(name),
    ensures
        name.len() <= longest(names),
    decreases names.len(),
{
    let at = choose|at: int| 0 <= at < names.len() && names[at] == name;
    if at < names.len() - 1 {
        assert(names.drop_last()[at] == name);
        lemma_longest(names.drop_last(), name);
    }
}

/// The id, with marks added until no panelist's model has it for a name.
pub open spec fn unused(names: Seq<Seq<char>>, id: Seq<char>) -> Seq<char>
    decreases longest(names) + 1 - id.len(),
{
    if names.contains(id) {
        proof {
            lemma_longest(names, id);
        }
        unused(names, id.push('#'))
    } else {
        id
    }
}

/// How the judge is to call a panelist: by its model's name, and by its place as
/// well where several have the name.
pub open spec fn candidate_id(names: Seq<Seq<char>>, i: int) -> Seq<char> {
    if is_shared(names, i) {
        unused(names, names[i] + "#"@ + decimal(i as nat))
    } else {
        names[i]
    }
}

pub open spec fn candidate_ids_spec(names: Seq<Seq<char>>) -> Seq<Seq<char>> {
    Seq::new(names.len(), |i: int| candidate_id(names, i))
}

pub open spec fn model_names<P>(panel: Seq<ModelJudgeMember<P>>) -> Seq<Seq<char>> {
    panel.map_values(|member: ModelJudgeMember<P>| member.model.model@)
}

fn name_is_shared<P>(panel: &Vec<ModelJudgeMember<P>>, at: usize) -> (shared: bool)
    requires
        at < panel@.len(),
    ensures
        shared == is_shared(model_names(panel@), at as int),
{
    let ghost names = model_names(panel@);
    let mut i: usize = 0;
    while i < panel.len()
        invariant
            names == model_names(panel@),
            at < panel@.len(),
            i <= panel.len(),
            forall|j: int| 0 <= j < i && j != at ==> #[trigger] names[j] != names[at as int],
        decreases panel.len() - i,
    {
        assert(names[i as int] == panel@[i as int].model.model@);
        assert(names[at as int] == panel@[at as int].model.model@);
        if i != at && same_text(&panel[i].model.model, &panel[at].model.model) {
            return true;
        }
        i += 1;
    }
    false
}

fn is_model_name<P>(panel: &Vec<ModelJudgeMember<P>>, id: &str) -> (yes: bool)
    ensures
        yes == model_names(panel@).contains(id@),
{
    let ghost names = model_names(panel@);
    let mut i: usize = 0;
    while i < panel.len()
        invariant
            names == model_names(panel@),
            i <= panel.len(),
            forall|j: int| 0 <= j < i ==> #[trigger] names[j] != id@,
        decreases panel.len() - i,
    {
        assert(names[i as int] == panel@[i as int].model.model@);
        if same_text(&panel[i].model.model, id) {
            return true;
        }
        i += 1;
    }
    false
}

/// Marks are added until no panelist's model has the id for a name.
fn unused_id<P>(panel: &Vec<ModelJudgeMember<P>>, id: String) -> (free: String)
    ensures
        free@ == unused(model_names(panel@), id@),
{
    let ghost names = model_names(panel@);
    let mut free = id;
    while is_model_name(panel, &free)
        invariant
            names == model_names(panel@),
            unused(names, free@) == unused(names, id@),
        decreases longest(names) + 1 - free@.len(),
    {
        proof {
            lemma_longest(names, free@);
        }
        free.push('#');
    }
    free
}

/// How the judge is to call each panelist. No two are called the same, and a
/// model that has its name to itself keeps it.
pub fn candidate_ids<P>(panel: &Vec<ModelJudgeMember<P>>) -> (ids: Vec<String>)
    ensures
        views(ids@) == candidate_ids_spec(model_names(panel@)),
        ids@.len() == panel@.len(),
        views(ids@).no_duplicates(),
        forall|i: int|
            0 <= i < panel@.len() && !is_shared(model_names(panel@), i) ==> #[trigger] views(
                ids@,
            )[i] == model_names(panel@)[i],
{
    let ghost names = model_names(panel@);
    let mut ids: Vec<String> = Vec::new();
    let mut i: usize = 0;
    assert(views(ids@) =~= candidate_ids_spec(names).subrange(0, 0));
    while i < panel.len()
        invariant
            names == model_names(panel@),
            i <= panel.len(),
            views(ids@) == candidate_ids_spec(names).subrange(0, i as int),
        decreases panel.len() - i,
    {
        assert(names[i as int] == panel@[i as int].model.model@);
        let id = if name_is_shared(panel, i) {
            unused_id(panel, concat3(&panel[i].model.model, "#", &decimal_text(i as u64)))
        } else {
            panel[i].model.model.clone()
        };
        push_piece(&mut ids, id);
        assert(candidate_ids_spec(names).subrange(0, i + 1) =~= candidate_ids_spec(names).subrange(
            0,
            i as int,
        ).push(id@));
        i += 1;
    }
    assert(candidate_ids_spec(names).subrange(0, i as int) =~= candidate_ids_spec(names));
    proof {
        assert(views(ids@).len() == ids@.len());
        assert forall|a: int, b: int| 0 <= a < names.len() && 0 <= b < names.len() && a != b implies
            candidate_ids_spec(names)[a] != candidate_ids_spec(names)[b] by {
            if a < b {
                law_candidates_are_told_apart(names, a, b);
            } else {
                law_candidates_are_told_apart(names, b, a);
            }
        }
    }
    ids
}

proof fn lemma_numbered_names_differ(a: Seq<char>, i: nat, b: Seq<char>, j: nat)
    requires
        a + "#"@ + decimal(i) == b + "#"@ + decimal(j),
    ensures
        i == j,
{
    reveal_strlit("#");
    crate::ids::lemma_decimal_reads_back(i);
    crate::ids::lemma_decimal_reads_back(j);
    let left = a + "#"@ + decimal(i);
    let right = b + "#"@ + decimal(j);
    let total = left.len() as int;
    let p = decimal(i).len() as int;
    let q = decimal(j).len() as int;
    if p < q {
        assert(left[total - p - 1] == '#');
        assert(right[total - p - 1] == decimal(j)[q - p - 1]);
        assert(crate::text::is_digit(decimal(j)[q - p - 1]));
    } else if q < p {
        assert(right[total - q - 1] == '#');
        assert(left[total - q - 1] == decimal(i)[p - q - 1]);
        assert(crate::text::is_digit(decimal(i)[p - q - 1]));
    } else {
        assert(decimal(i) =~= left.subrange(total - p, total));
        assert(decimal(j) =~= right.subrange(total - p, total));
        crate::ids::law_decimal_is_injective(i, j);
    }
}

/// A run of marks.
pub open spec fn marks(count: nat) -> Seq<char> {
    Seq::new(count, |i: int| '#')
}

proof fn lemma_unused(names: Seq<Seq<char>>, id: Seq<char>) -> (count: nat)
    ensures
        !names.contains(unused(names, id)),
        unused(names, id) == id + marks(count),
    decreases longest(names) + 1 - id.len(),
{
    if names.contains(id) {
        lemma_longest(names, id);
        let count = lemma_unused(names, id.push('#'));
        assert(id.push('#') + marks(count) =~= id + marks(count + 1));
        count + 1
    } else {
        assert(id + marks(0) =~= id);
        0
    }
}

proof fn lemma_marked_ids_differ(
    a: Seq<char>,
    i: nat,
    more_a: nat,
    b: Seq<char>,
    j: nat,
    more_b: nat,
)
    requires
        a + "#"@ + decimal(i) + marks(more_a) == b + "#"@ + decimal(j) + marks(more_b),
    ensures
        i == j,
{
    crate::ids::lemma_decimal_reads_back(i);
    crate::ids::lemma_decimal_reads_back(j);
    let first = a + "#"@ + decimal(i);
    let second = b + "#"@ + decimal(j);
    let left = first + marks(more_a);
    let right = second + marks(more_b);
    let total = left.len() as int;
    assert(first.last() == decimal(i).last());
    assert(second.last() == decimal(j).last());
    assert(crate::text::is_digit(decimal(i)[decimal(i).len() - 1]));
    assert(crate::text::is_digit(decimal(j)[decimal(j).len() - 1]));
    if more_a < more_b {
        assert(left[total - more_a - 1] == first.last());
        assert(right[total - more_a - 1] == '#');
    } else if more_b < more_a {
        assert(right[total - more_b - 1] == second.last());
        assert(left[total - more_b - 1] == '#');
    } else {
        assert(first =~= left.subrange(0, total - more_a));
        assert(second =~= right.subrange(0, total - more_a));
        lemma_numbered_names_differ(a, i, b, j);
    }
}

/// The judge calls no two panelists by the same name, whatever their models are
/// called.
pub proof fn law_candidates_are_told_apart(names: Seq<Seq<char>>, i: int, j: int)
    requires
        0 <= i < j < names.len(),
    ensures
        candidate_id(names, i) != candidate_id(names, j),
{
    assert(names.contains(names[i]) && names.contains(names[j]));
    let first = names[i] + "#"@ + decimal(i as nat);
    let second = names[j] + "#"@ + decimal(j as nat);
    let more_first = lemma_unused(names, first);
    let more_second = lemma_unused(names, second);
    if is_shared(names, i) && is_shared(names, j) {
        if candidate_id(names, i) == candidate_id(names, j) {
            lemma_marked_ids_differ(
                names[i],
                i as nat,
                more_first,
                names[j],
                j as nat,
                more_second,
            );
        }
    } else if !is_shared(names, i) && !is_shared(names, j) {
        assert(names[i] != names[j]);
    }
}

/// A line for each tool call that was proposed.
pub open spec fn proposed_calls(calls: Seq<CallView>) -> Seq<char>
    decreases calls.len(),
{
    if calls.len() == 0 {
        Seq::empty()
    } else {
        let call = calls.last();
        proposed_calls(calls.drop_last()) + ("\n- "@ + call.name + "("@ + json_text(call.arguments)
            + ")"@)
    }
}

/// What a panelist said, for the judge to read.
pub open spec fn candidate_body(message: CollectedView) -> Seq<char> {
    let text = trimmed(message.text);
    if message.tool_calls.len() > 0 {
        let before = if text.len() > 0 {
            text + "\n\n"@
        } else {
            text
        };
        before + "[proposed tool calls]"@ + proposed_calls(message.tool_calls)
    } else if text.len() > 0 {
        text
    } else {
        "[empty response]"@
    }
}

pub fn render_candidate_body(message: &CollectedMessage) -> (body: String)
    ensures
        body@ == candidate_body(message@),
{
    let mut body = trim(&message.text);
    if message.tool_calls.len() > 0 {
        if !body.as_str().is_empty() {
            body.append("\n\n");
        }
        body.append("[proposed tool calls]");
        let ghost calls = message@.tool_calls;
        let ghost before = body@;
        let mut i: usize = 0;
        assert(before + proposed_calls(calls.subrange(0, 0)) =~= before);
        while i < message.tool_calls.len()
            invariant
                calls == message@.tool_calls,
                i <= message.tool_calls.len(),
                body@ == before + proposed_calls(calls.subrange(0, i as int)),
            decreases message.tool_calls.len() - i,
        {
            let call = &message.tool_calls[i];
            assert(calls.subrange(0, i + 1).drop_last() == calls.subrange(0, i as int));
            assert(calls.subrange(0, i + 1).last() == call@);
            let shown = call.arguments.to_text();
            let line = concat5("\n- ", &call.name.0, "(", &shown, ")");
            body.append(&line);
            assert(body@ =~= before + proposed_calls(calls.subrange(0, i + 1)));
            i += 1;
        }
        assert(calls.subrange(0, i as int) == calls);
        return body;
    }
    if body.as_str().is_empty() {
        "[empty response]".to_owned()
    } else {
        body
    }
}

/// The candidates: what the panelists said that did not fail, in their order.
pub open spec fn candidates_spec(
    names: Seq<Seq<char>>,
    replies: Seq<Option<CollectedView>>,
) -> Seq<CandidateView>
    decreases replies.len(),
{
    if replies.len() == 0 {
        Seq::empty()
    } else {
        let before = candidates_spec(names, replies.drop_last());
        let i = replies.len() - 1;
        match replies.last() {
            Some(message) => before.push(
                CandidateView {
                    id: candidate_id(names, i),
                    model: names[i],
                    body: candidate_body(message),
                },
            ),
            None => before,
        }
    }
}

pub open spec fn reply_view(reply: Result<CollectedMessage, ProviderError>) -> Option<
    CollectedView,
> {
    match reply {
        Ok(message) => Some(message@),
        Err(_) => None,
    }
}

pub open spec fn replies_view(replies: Seq<Result<CollectedMessage, ProviderError>>) -> Seq<
    Option<CollectedView>,
> {
    replies.map_values(|reply: Result<CollectedMessage, ProviderError>| reply_view(reply))
}

// ---------------------------------------------------------------------------
// Requests

/// A message of the user with one text.
pub open spec fn said_by_user(id: Seq<char>, text: Seq<char>) -> MessageView {
    MessageView::User(id, seq![UserPartView::Text(text)])
}

fn user_says(ids: &mut IdSource, text: String) -> (message: Message)
    ensures
        message@ == said_by_user(old(ids)@.fresh(), text@),
        final(ids)@ == old(ids)@.advanced(),
{
    let mut parts: Vec<UserPart> = Vec::new();
    parts.push(UserPart::Text { text });
    let message = Message::User(UserMessage { id: MessageId(ids.mint()), parts });
    assert(crate::content::user_parts_view(parts@) =~= seq![UserPartView::Text(text@)]);
    message
}

/// The conversation as a panelist reads it: the framing first, then everything.
pub fn panel_messages(messages: &Vec<Message>, ids: &mut IdSource) -> (framed: Vec<Message>)
    ensures
        messages_view(framed@) == seq![said_by_user(old(ids)@.fresh(), PANEL_PREFIX@)]
            + messages_view(messages@),
        final(ids)@ == old(ids)@.advanced(),
{
    let mut framed: Vec<Message> = Vec::new();
    assert(messages_view(framed@) =~= Seq::empty());
    push_message(&mut framed, user_says(ids, PANEL_PREFIX.to_owned()));
    push_message_copies(&mut framed, messages);
    assert(messages_view(framed@) =~= seq![said_by_user(old(ids)@.fresh(), PANEL_PREFIX@)]
        + messages_view(messages@));
    framed
}

/// A request for another model that does not continue anything: what a provider
/// remembers belongs to the default member and means nothing to the others.
pub open spec fn stateless(
    base: RequestView,
    model: ResolvedModel,
    messages: Seq<MessageView>,
    tools: Seq<ToolView>,
) -> RequestView {
    RequestView {
        model,
        prompt: base.prompt,
        compacted_prefix: Seq::empty(),
        messages,
        tools,
        previous_response_id: None,
        new_messages_start: 0,
    }
}

/// What one panelist is asked: the framing comes first, under an identifier that
/// all panelists see.
pub open spec fn asked_of_panelist(
    base: RequestView,
    model: ResolvedModel,
    framing: Seq<char>,
) -> RequestView {
    stateless(
        base,
        model,
        seq![said_by_user(framing, PANEL_PREFIX@)] + base.messages,
        base.tools,
    )
}

pub open spec fn asked_of_panel(
    base: RequestView,
    models: Seq<ResolvedModel>,
    framing: Seq<char>,
) -> Seq<RequestView> {
    models.map_values(|model: ResolvedModel| asked_of_panelist(base, model, framing))
}

/// All panelists read the same messages, with the framing first: between them
/// only the model differs.
pub proof fn law_panelists_read_the_same(
    base: RequestView,
    models: Seq<ResolvedModel>,
    framing: Seq<char>,
    i: int,
    j: int,
)
    requires
        0 <= i < models.len(),
        0 <= j < models.len(),
    ensures
        asked_of_panel(base, models, framing)[i].messages[0] == said_by_user(
            framing,
            PANEL_PREFIX@,
        ),
        asked_of_panel(base, models, framing)[i] == (RequestView {
            model: models[i],
            ..asked_of_panel(base, models, framing)[j]
        }),
{
}

pub open spec fn panel_models<P>(panel: Seq<ModelJudgeMember<P>>) -> Seq<ResolvedModel> {
    panel.map_values(|panelist: ModelJudgeMember<P>| panelist.model)
}

pub open spec fn requests_view(requests: Seq<ProviderRequest>) -> Seq<RequestView> {
    requests.map_values(|request: ProviderRequest| request@)
}

pub fn inner_request(
    base: &ProviderRequest,
    model: ResolvedModel,
    messages: Vec<Message>,
    tools: Vec<ToolSpec>,
) -> (request: ProviderRequest)
    ensures
        request@ == stateless(base@, model, messages_view(messages@), tools_view(tools@)),
{
    let none: Vec<Json> = Vec::new();
    assert(items_view(none@) =~= Seq::empty());
    ProviderRequest {
        model,
        prompt: base.prompt.duplicate(),
        compacted_prefix: none,
        messages,
        tools,
        previous_response_id: None,
        new_messages_start: 0,
    }
}

/// The guidance that the default model reads last.
pub open spec fn guidance(synthesis: Seq<char>) -> Seq<char> {
    "The following model-judge synthesis evaluates candidate responses to the most recent user message. Treat it as advisory context for your answer, not as a new request from the user.\n\n<model_judge_synthesis>\n"@
        + trimmed(synthesis) + "\n</model_judge_synthesis>"@
}

pub fn synthesis_guidance_message(synthesis: &str, ids: &mut IdSource) -> (message: Message)
    ensures
        message@ == said_by_user(old(ids)@.fresh(), guidance(synthesis@)),
        final(ids)@ == old(ids)@.advanced(),
{
    let text = concat3(
        "The following model-judge synthesis evaluates candidate responses to the most recent user message. Treat it as advisory context for your answer, not as a new request from the user.\n\n<model_judge_synthesis>\n",
        &trim(synthesis),
        "\n</model_judge_synthesis>",
    );
    user_says(ids, text)
}

impl<P> ModelJudgeProvider<P> {
    pub fn new(
        default: ModelJudgeMember<P>,
        synthesis: ModelJudgeMember<P>,
        panel: Vec<ModelJudgeMember<P>>,
    ) -> (provider: ModelJudgeProvider<P>)
        ensures
            provider.default == default,
            provider.synthesis == synthesis,
            provider.panel == panel,
    {
        ModelJudgeProvider { default, synthesis, panel }
    }

    /// What the panelists are asked, in their order. The framing is one message
    /// that all of them read.
    pub fn panel_requests(&self, request: &ProviderRequest, ids: &mut IdSource) -> (asked: Vec<
        ProviderRequest,
    >)
        ensures
            requests_view(asked@) == asked_of_panel(
                request@,
                panel_models(self.panel@),
                old(ids)@.fresh(),
            ),
            final(ids)@ == old(ids)@.advanced(),
    {
        let ghost models = panel_models(self.panel@);
        let ghost framing = ids@.fresh();
        let framed = panel_messages(&request.messages, ids);
        let mut asked: Vec<ProviderRequest> = Vec::new();
        let mut i: usize = 0;
        while i < self.panel.len()
            invariant
                models == panel_models(self.panel@),
                messages_view(framed@) == seq![said_by_user(framing, PANEL_PREFIX@)]
                    + request@.messages,
                i <= self.panel.len(),
                asked@.len() == i,
                forall|k: int|
                    0 <= k < i ==> (#[trigger] asked@[k])@ == asked_of_panelist(
                        request@,
                        models[k],
                        framing,
                    ),
            decreases self.panel.len() - i,
        {
            asked.push(
                inner_request(
                    request,
                    self.panel[i].model.clone(),
                    duplicate_messages(&framed),
                    duplicate_tools(&request.tools),
                ),
            );
            i += 1;
        }
        assert(requests_view(asked@) =~= asked_of_panel(request@, models, framing));
        asked
    }

    /// The candidates, given each panelist's reply.
    pub fn candidates(&self, replies: &Vec<Result<CollectedMessage, ProviderError>>) -> (candidates:
        Vec<Candidate>)
        requires
            replies@.len() == self.panel@.len(),
        ensures
            candidates_view(candidates@) == candidates_spec(
                model_names(self.panel@),
                replies_view(replies@),
            ),
    {
        let ghost names = model_names(self.panel@);
        let ghost given = replies_view(replies@);
        let ids = candidate_ids(&self.panel);
        assert(views(ids@).len() == ids@.len());
        let mut candidates: Vec<Candidate> = Vec::new();
        let mut i: usize = 0;
        assert(candidates_view(candidates@) =~= candidates_spec(names, given.subrange(0, 0)));
        while i < replies.len()
            invariant
                names == model_names(self.panel@),
                given == replies_view(replies@),
                replies@.len() == self.panel@.len(),
                views(ids@) == candidate_ids_spec(names),
                ids@.len() == self.panel@.len(),
                i <= replies.len(),
                candidates_view(candidates@) == candidates_spec(names, given.subrange(0, i as int)),
            decreases replies.len() - i,
        {
            let ghost next = given.subrange(0, i + 1);
            assert(next.drop_last() == given.subrange(0, i as int));
            assert(next.last() == reply_view(replies@[i as int]));
            assert(views(ids@)[i as int] == ids@[i as int]@);
            if let Ok(message) = &replies[i] {
                let ghost before = candidates_view(candidates@);
                let candidate = Candidate {
                    id: ids[i].clone(),
                    model: self.panel[i].model.model.clone(),
                    body: render_candidate_body(message),
                };
                candidates.push(candidate);
                assert(candidates_view(candidates@) =~= before.push(candidate@));
            }
            i += 1;
        }
        assert(given.subrange(0, i as int) == given);
        candidates
    }

    /// What the default model is asked: the request as it came, continuing what
    /// it continued, and the synthesis as the last message, if there is one.
    pub fn default_request(
        &self,
        request: &ProviderRequest,
        synthesis: Option<String>,
        ids: &mut IdSource,
    ) -> (inner: ProviderRequest)
        ensures
            inner@ == (RequestView {
                model: self.default.model,
                messages: match synthesis {
                    Some(synthesis) => request@.messages.push(
                        said_by_user(old(ids)@.fresh(), guidance(synthesis@)),
                    ),
                    None => request@.messages,
                },
                ..request@
            }),
            final(ids)@ == if synthesis is Some {
                old(ids)@.advanced()
            } else {
                old(ids)@
            },
    {
        let mut inner = request.duplicate();
        inner.model = self.default.model.clone();
        if let Some(synthesis) = synthesis {
            let message = synthesis_guidance_message(&synthesis, ids);
            push_message(&mut inner.messages, message);
        }
        inner
    }

    /// Goes on once the panel has been heard: without candidates the judge is not
    /// asked, and the default model answers alone.
    pub fn after_panel(
        &self,
        request: &ProviderRequest,
        candidates: &Vec<Candidate>,
        ids: &mut IdSource,
    ) -> (next: AfterPanel)
        ensures
            match next {
                AfterPanel::AskDefault(inner) => {
                    &&& candidates@.len() == 0
                    &&& inner@ == (RequestView { model: self.default.model, ..request@ })
                    &&& final(ids)@ == old(ids)@
                },
                AfterPanel::AskJudge(session) => {
                    &&& candidates@.len() > 0
                    &&& session@ == begun(request@, old(ids)@, candidates_view(candidates@))
                    &&& final(ids)@ == old(ids)@.advanced()
                },
            },
    {
        if candidates.is_empty() {
            AfterPanel::AskDefault(self.default_request(request, None, ids))
        } else {
            AfterPanel::AskJudge(SynthesisSession::new(request, candidates, ids))
        }
    }

    /// What the default model is asked once the judge has been heard: where there
    /// is no synthesis, it answers alone.
    pub fn after_synthesis(
        &self,
        request: &ProviderRequest,
        synthesis: Result<String, String>,
        ids: &mut IdSource,
    ) -> (inner: ProviderRequest)
        ensures
            match synthesis {
                Ok(synthesis) => {
                    &&& inner@ == (RequestView {
                        model: self.default.model,
                        messages: request@.messages.push(
                            said_by_user(old(ids)@.fresh(), guidance(synthesis@)),
                        ),
                        ..request@
                    })
                    &&& final(ids)@ == old(ids)@.advanced()
                },
                Err(_) => {
                    &&& inner@ == (RequestView { model: self.default.model, ..request@ })
                    &&& final(ids)@ == old(ids)@
                },
            },
    {
        match synthesis {
            Ok(synthesis) => self.default_request(request, Some(synthesis), ids),
            Err(_) => self.default_request(request, None, ids),
        }
    }

    /// A compaction is the default model's business.
    pub fn compaction_request(&self, request: &ProviderCompactionRequest) -> (inner:
        ProviderCompactionRequest)
        ensures
            inner@ == (crate::content::CompactionRequestView {
                model: self.default.model,
                ..request@
            }),
    {
        let mut inner = request.duplicate();
        inner.model = self.default.model.clone();
        inner
    }
}

// ---------------------------------------------------------------------------
// Synthesis

/// One candidate as the judge reads it.
pub open spec fn presented(candidate: CandidateView) -> Seq<char> {
    "\n--- model_id: "@ + candidate.id + " (model: "@ + candidate.model + ") ---\n"@
        + candidate.body + "\n"@
}

pub open spec fn all_presented(candidates: Seq<CandidateView>) -> Seq<char>
    decreases candidates.len(),
{
    if candidates.len() == 0 {
        Seq::empty()
    } else {
        all_presented(candidates.drop_last()) + presented(candidates.last())
    }
}

/// What the judge is asked.
pub fn synthesis_instructions(candidates: &Vec<Candidate>) -> (text: String)
    ensures
        text@ == SYNTHESIS_HEADER@ + all_presented(candidates_view(candidates@)),
{
    let ghost all = candidates_view(candidates@);
    let mut text = SYNTHESIS_HEADER.to_owned();
    let mut i: usize = 0;
    assert(SYNTHESIS_HEADER@ + all_presented(all.subrange(0, 0)) =~= SYNTHESIS_HEADER@);
    while i < candidates.len()
        invariant
            all == candidates_view(candidates@),
            i <= candidates.len(),
            text@ == SYNTHESIS_HEADER@ + all_presented(all.subrange(0, i as int)),
        decreases candidates.len() - i,
    {
        let candidate = &candidates[i];
        assert(all.subrange(0, i + 1).drop_last() == all.subrange(0, i as int));
        assert(all.subrange(0, i + 1).last() == candidate@);
        let head = concat5(
            "\n--- model_id: ",
            &candidate.id,
            " (model: ",
            &candidate.model,
            ") ---\n",
        );
        text.append(&concat3(&head, &candidate.body, "\n"));
        assert(text@ =~= SYNTHESIS_HEADER@ + all_presented(all.subrange(0, i + 1)));
        i += 1;
    }
    assert(all.subrange(0, i as int) == all);
    text
}

pub const RETRY_OPENING: &'static str =
    "Your previous model-judge synthesis response was invalid because it contained neither a `rank_responses` tool call nor synthesis text.\n\n";

pub const RETRY_CLOSING: &'static str =
    "\n\nDo not return an empty message. If uncertain, make a best-effort ranking and concise synthesis.";

pub const RETRY_WRITE: &'static str =
    "The ranking has already been recorded. Write the synthesis text now.";

pub const RETRY_RANK: &'static str =
    "Call `rank_responses` exactly once with every candidate, then continue to synthesis text.";

/// What the judge is told after an empty reply.
pub open spec fn retry_text(rank_recorded: bool) -> Seq<char> {
    RETRY_OPENING@ + (if rank_recorded {
        RETRY_WRITE@
    } else {
        RETRY_RANK@
    }) + RETRY_CLOSING@
}

fn synthesis_retry_message(rank_recorded: bool, ids: &mut IdSource) -> (message: Message)
    ensures
        message@ == said_by_user(old(ids)@.fresh(), retry_text(rank_recorded)),
        final(ids)@ == old(ids)@.advanced(),
{
    let action = if rank_recorded {
        RETRY_WRITE
    } else {
        RETRY_RANK
    };
    user_says(ids, concat3(RETRY_OPENING, action, RETRY_CLOSING))
}

pub const RANK_TOOL_DESCRIPTION: &'static str =
    "Submit a stack ranking of the candidate panel responses for quality telemetry. Provide every candidate's model_id together with its rank, where rank 1 is the best response.";

pub open spec fn typed(kind: Seq<char>) -> (Seq<char>, JsonView) {
    ("type"@, JsonView::Text(kind))
}

/// What a ranking has to look like.
pub open spec fn rank_schema() -> JsonView {
    let entry = JsonView::Object(
        seq![
            typed("object"@),
            (
                "properties"@,
                JsonView::Object(
                    seq![
                        ("model_id"@, JsonView::Object(seq![typed("string"@)])),
                        (
                            "rank"@,
                            JsonView::Object(
                                seq![
                                    typed("integer"@),
                                    ("minimum"@, JsonView::Number(NumberView::Unsigned(1))),
                                ],
                            ),
                        ),
                    ],
                ),
            ),
            (
                "required"@,
                JsonView::Array(seq![JsonView::Text("model_id"@), JsonView::Text("rank"@)]),
            ),
        ],
    );
    JsonView::Object(
        seq![
            typed("object"@),
            (
                "properties"@,
                JsonView::Object(
                    seq![
                        (
                            "rankings"@,
                            JsonView::Object(seq![typed("array"@), ("items"@, entry)]),
                        ),
                    ],
                ),
            ),
            ("required"@, JsonView::Array(seq![JsonView::Text("rankings"@)])),
        ],
    )
}

pub open spec fn rank_tool() -> ToolView {
    ToolView {
        name: MODEL_JUDGE_RANK_TOOL@,
        description: RANK_TOOL_DESCRIPTION@,
        input_schema: rank_schema(),
        aliases: Seq::empty(),
    }
}

pub fn rank_tool_spec() -> (tool: ToolSpec)
    ensures
        tool@ == rank_tool(),
{
    let mut required: Vec<Json> = Vec::new();
    assert(items_view(required@) =~= Seq::empty());
    push_item(&mut required, text_json("model_id"));
    push_item(&mut required, text_json("rank"));
    assert(items_view(required@) =~= seq![JsonView::Text("model_id"@), JsonView::Text("rank"@)]);
    let entry = object3(
        "type",
        text_json("object"),
        "properties",
        object2(
            "model_id",
            object1("type", text_json("string")),
            "rank",
            object2("type", text_json("integer"), "minimum", unsigned_json(1)),
        ),
        "required",
        Json::Array(required),
    );
    let tool = ToolSpec {
        name: ToolName(MODEL_JUDGE_RANK_TOOL.to_owned()),
        description: RANK_TOOL_DESCRIPTION.to_owned(),
        input_schema: object3(
            "type",
            text_json("object"),
            "properties",
            object1("rankings", object2("type", text_json("array"), "items", entry)),
            "required",
            array1(text_json("rankings")),
        ),
        provider_aliases: Vec::new(),
    };
    assert(tool@.aliases =~= Seq::empty());
    tool
}

/// The first call of the ranking tool.
pub open spec fn rank_call(calls: Seq<CallView>) -> Option<CallView>
    decreases calls.len(),
{
    if calls.len() == 0 {
        None
    } else if calls[0].name == MODEL_JUDGE_RANK_TOOL@ {
        Some(calls[0])
    } else {
        rank_call(calls.drop_first())
    }
}

fn find_rank_call(calls: &Vec<ToolCall>) -> (call: Option<&ToolCall>)
    ensures
        match call {
            Some(call) => rank_call(crate::content::calls_view(calls@)) == Some(call@),
            None => rank_call(crate::content::calls_view(calls@)) is None,
        },
{
    let ghost all = crate::content::calls_view(calls@);
    let mut i: usize = 0;
    assert(all.subrange(0, all.len() as int) == all);
    while i < calls.len()
        invariant
            all == crate::content::calls_view(calls@),
            i <= calls.len(),
            rank_call(all) == rank_call(all.subrange(i as int, all.len() as int)),
        decreases calls.len() - i,
    {
        let ghost rest = all.subrange(i as int, all.len() as int);
        assert(rest[0] == calls@[i as int]@);
        if same_text(&calls[i].name.0, MODEL_JUDGE_RANK_TOOL) {
            return Some(&calls[i]);
        }
        assert(rest.drop_first() == all.subrange(i + 1, all.len() as int));
        i += 1;
    }
    None
}

/// The judge at work: what was said so far, whether a ranking has been recorded,
/// and how often the judge was asked.
#[derive(Debug)]
pub struct SynthesisSession {
    messages: Vec<Message>,
    recorded: bool,
    round: usize,
}

pub ghost struct SynthesisView {
    pub messages: Seq<MessageView>,
    pub recorded: bool,
    pub round: nat,
}

impl View for SynthesisSession {
    type V = SynthesisView;

    closed spec fn view(&self) -> SynthesisView {
        SynthesisView {
            messages: messages_view(self.messages@),
            recorded: self.recorded,
            round: self.round as nat,
        }
    }
}

/// The judge's work at its beginning: the conversation, and the candidates.
pub open spec fn begun(
    request: RequestView,
    ids: IdsView,
    candidates: Seq<CandidateView>,
) -> SynthesisView {
    SynthesisView {
        messages: request.messages.push(
            said_by_user(ids.fresh(), SYNTHESIS_HEADER@ + all_presented(candidates)),
        ),
        recorded: false,
        round: 0,
    }
}

/// Who is asked once the panel has been heard.
#[derive(Debug)]
pub enum AfterPanel {
    AskJudge(SynthesisSession),
    AskDefault(ProviderRequest),
}

/// A panel that is empty, or all of whose members failed, has no candidates.
pub proof fn law_failed_panel_has_no_candidates(
    names: Seq<Seq<char>>,
    replies: Seq<Option<CollectedView>>,
)
    requires
        forall|i: int| 0 <= i < replies.len() ==> #[trigger] replies[i] is None,
    ensures
        candidates_spec(names, replies) == Seq::<CandidateView>::empty(),
    decreases replies.len(),
{
    if replies.len() > 0 {
        let rest = replies.drop_last();
        assert forall|i: int| 0 <= i < rest.len() implies #[trigger] rest[i] is None by {
            assert(rest[i] == replies[i]);
        }
        law_failed_panel_has_no_candidates(names, rest);
        assert(replies[replies.len() - 1] is None);
    }
}

/// How the judge's work goes on.
#[derive(Debug)]
pub enum SynthesisStep {
    /// The synthesis.
    Done(String),
    /// The ranking is acknowledged; ask again.
    Again,
    /// There was nothing to work with, and the judge is told so; ask again.
    Retry,
    /// Give up.
    Failed(String),
}

pub ghost enum StepView {
    Done(Seq<char>),
    Again,
    Retry,
    Failed(Seq<char>),
}

impl SynthesisStep {
    pub open spec fn view(&self) -> StepView {
        match self {
            SynthesisStep::Done(text) => StepView::Done(text@),
            SynthesisStep::Again => StepView::Again,
            SynthesisStep::Retry => StepView::Retry,
            SynthesisStep::Failed(reason) => StepView::Failed(reason@),
        }
    }
}

pub open spec fn gave_up() -> Seq<char> {
    EMPTY_SYNTHESIS_ERROR@ + " after 3 attempts"@
}

pub const ROUND_LIMIT_ERROR: &'static str =
    "model-judge synthesis did not produce synthesis text within the round limit";

/// The judge's call of the ranking tool, and the receipt for it.
pub open spec fn acknowledged(ids: IdsView, text: Seq<char>, call: CallView) -> Seq<MessageView> {
    let parts = if trimmed(text).len() > 0 {
        seq![AssistantPartView::Text(text), AssistantPartView::ToolCall(call)]
    } else {
        seq![AssistantPartView::ToolCall(call)]
    };
    seq![
        MessageView::Assistant(ids.fresh(), parts),
        MessageView::Tool(
            call.id,
            ToolResultView::Json(
                JsonView::Object(seq![("status"@, JsonView::Text("recorded"@))]),
            ),
            None,
        ),
    ]
}

/// After a reply of the judge: text is the synthesis; a mere ranking is
/// acknowledged, nothing at all is complained of, and the judge is asked again
/// while rounds are left.
pub open spec fn after_reply(session: SynthesisView, ids: IdsView, reply: CollectedView) -> (
    SynthesisView,
    IdsView,
    StepView,
) {
    let call = rank_call(reply.tool_calls);
    let recorded = session.recorded || call is Some;
    let round = session.round + 1;
    let text = trimmed(reply.text);
    if text.len() > 0 {
        (SynthesisView { recorded, ..session }, ids, StepView::Done(text))
    } else {
        match call {
            None => if round >= MAX_SYNTHESIS_ROUNDS {
                (session, ids, StepView::Failed(gave_up()))
            } else {
                (
                    SynthesisView {
                        messages: session.messages.push(
                            said_by_user(ids.fresh(), retry_text(recorded)),
                        ),
                        recorded,
                        round,
                    },
                    ids.advanced(),
                    StepView::Retry,
                )
            },
            Some(call) => (
                SynthesisView {
                    messages: session.messages + acknowledged(ids, reply.text, call),
                    recorded,
                    round,
                },
                ids.advanced(),
                if round >= MAX_SYNTHESIS_ROUNDS {
                    StepView::Failed(ROUND_LIMIT_ERROR@)
                } else {
                    StepView::Again
                },
            ),
        }
    }
}

/// The ranking to record, the first time there is one.
pub open spec fn ranking_to_record(session: SynthesisView, reply: CollectedView) -> Option<
    JsonView,
> {
    match rank_call(reply.tool_calls) {
        Some(call) => if session.recorded {
            None
        } else {
            Some(call.arguments)
        },
        None => None,
    }
}

/// The judge is to be asked again.
pub open spec fn goes_on(step: StepView) -> bool {
    step is Again || step is Retry
}

/// How many of the judge's replies are taken in before its work is over.
pub open spec fn replies_taken(
    session: SynthesisView,
    ids: IdsView,
    replies: Seq<CollectedView>,
) -> nat
    decreases replies.len(),
{
    if replies.len() == 0 {
        0
    } else {
        let (after, ids, step) = after_reply(session, ids, replies[0]);
        if goes_on(step) {
            1 + replies_taken(after, ids, replies.drop_first())
        } else {
            1
        }
    }
}

/// The judge is asked three times at most, whatever it replies.
pub proof fn law_judge_is_asked_three_times_at_most(
    session: SynthesisView,
    ids: IdsView,
    replies: Seq<CollectedView>,
)
    requires
        session.round < MAX_SYNTHESIS_ROUNDS,
    ensures
        replies_taken(session, ids, replies) <= MAX_SYNTHESIS_ROUNDS - session.round,
    decreases replies.len(),
{
    if replies.len() > 0 {
        let (after, ids, step) = after_reply(session, ids, replies[0]);
        if goes_on(step) {
            law_judge_is_asked_three_times_at_most(after, ids, replies.drop_first());
        }
    }
}

fn assistant_with_tool_call(text: &str, call: &ToolCall, ids: &mut IdSource) -> (message: Message)
    ensures
        message@ == acknowledged(old(ids)@, text@, call@)[0],
        final(ids)@ == old(ids)@.advanced(),
{
    let mut parts: Vec<AssistantPart> = Vec::new();
    if !trim(text).as_str().is_empty() {
        parts.push(AssistantPart::Text { text: text.to_owned() });
    }
    parts.push(AssistantPart::ToolCall(call.duplicate()));
    let message = Message::Assistant(AssistantMessage { id: MessageId(ids.mint()), parts });
    assert(crate::content::assistant_parts_view(parts@) =~= if trimmed(text@).len() > 0 {
        seq![AssistantPartView::Text(text@), AssistantPartView::ToolCall(call@)]
    } else {
        seq![AssistantPartView::ToolCall(call@)]
    });
    message
}

impl SynthesisSession {
    /// Begins with the conversation and the candidates.
    pub fn new(request: &ProviderRequest, candidates: &Vec<Candidate>, ids: &mut IdSource) -> (
    session: SynthesisSession)
        ensures
            session@ == begun(request@, old(ids)@, candidates_view(candidates@)),
            final(ids)@ == old(ids)@.advanced(),
    {
        let mut messages = duplicate_messages(&request.messages);
        let instructions = synthesis_instructions(candidates);
        push_message(&mut messages, user_says(ids, instructions));
        SynthesisSession { messages, recorded: false, round: 0 }
    }

    /// What the judge is asked next.
    pub fn next_request<P>(
        &self,
        provider: &ModelJudgeProvider<P>,
        request: &ProviderRequest,
    ) -> (inner: ProviderRequest)
        ensures
            inner@ == stateless(
                request@,
                provider.synthesis.model,
                self@.messages,
                seq![rank_tool()],
            ),
    {
        let mut tools: Vec<ToolSpec> = Vec::new();
        tools.push(rank_tool_spec());
        assert(tools_view(tools@) =~= seq![rank_tool()]);
        inner_request(
            request,
            provider.synthesis.model.clone(),
            duplicate_messages(&self.messages),
            tools,
        )
    }

    /// Takes in a reply of the judge. The second result is the ranking to record,
    /// if there is one.
    pub fn receive(&mut self, reply: &CollectedMessage, ids: &mut IdSource) -> (outcome: (
        SynthesisStep,
        Option<Json>,
    ))
        requires
            old(self)@.round < MAX_SYNTHESIS_ROUNDS,
        ensures
            (final(self)@, final(ids)@, outcome.0@) == after_reply(old(self)@, old(ids)@, reply@),
            owned_view(outcome.1) == ranking_to_record(old(self)@, reply@),
            goes_on(outcome.0@) ==> final(self)@.round < MAX_SYNTHESIS_ROUNDS && final(self)@.round
                == old(self)@.round + 1,
    {
        let call = find_rank_call(&reply.tool_calls);
        let ranking = match call {
            Some(call) => if self.recorded {
                None
            } else {
                Some(call.arguments.duplicate())
            },
            None => None,
        };
        if call.is_some() {
            self.recorded = true;
        }
        let synthesis = trim(&reply.text);
        if !synthesis.as_str().is_empty() {
            return (SynthesisStep::Done(synthesis), ranking);
        }
        match call {
            None => {
                if self.round + 1 >= MAX_SYNTHESIS_ROUNDS {
                    return (
                        SynthesisStep::Failed(concat2(EMPTY_SYNTHESIS_ERROR, " after 3 attempts")),
                        ranking,
                    );
                }
                let complaint = synthesis_retry_message(self.recorded, ids);
                push_message(&mut self.messages, complaint);
                self.round = self.round + 1;
                (SynthesisStep::Retry, ranking)
            },
            Some(call) => {
                let ghost before = self@.messages;
                let said = assistant_with_tool_call(&reply.text, call, ids);
                push_message(&mut self.messages, said);
                let receipt = Message::Tool(
                    ToolResultMessage {
                        call_id: call.id.clone(),
                        content: ToolResult::Json {
                            value: object1("status", text_json("recorded")),
                        },
                        error: None,
                    },
                );
                push_message(&mut self.messages, receipt);
                assert(self@.messages =~= before + acknowledged(old(ids)@, reply.text@, call@));
                self.round = self.round + 1;
                if self.round >= MAX_SYNTHESIS_ROUNDS {
                    (SynthesisStep::Failed(ROUND_LIMIT_ERROR.to_owned()), ranking)
                } else {
                    (SynthesisStep::Again, ranking)
                }
            },
        }
    }
}

/// One entry of a ranking.
#[derive(Debug)]
pub struct Ranking {
    pub model_id: String,
    pub rank: i64,
}

pub open spec fn ranking_view(entry: JsonView) -> (Seq<char>, i64) {
    (
        match entry.get_str("model_id"@) {
            Some(id) => id,
            None => Seq::empty(),
        },
        match entry.get("rank"@) {
            Some(value) => match value.as_i64() {
                Some(rank) => rank,
                None => 0,
            },
            None => 0,
        },
    )
}

pub open spec fn rankings_view(rankings: Seq<Ranking>) -> Seq<(Seq<char>, i64)> {
    rankings.map_values(|ranking: Ranking| (ranking.model_id@, ranking.rank))
}

/// Reads the ranking that the judge submitted, if it submitted a list.
pub fn read_rankings(arguments: &Json) -> (rankings: Option<Vec<Ranking>>)
    ensures
        match (arguments@.get_array("rankings"@), rankings) {
            (Some(entries), Some(rankings)) => rankings_view(rankings@) == entries.map_values(
                |entry: JsonView| ranking_view(entry),
            ),
            (None, None) => true,
            _ => false,
        },
{
    let entries = match arguments.get_array("rankings") {
        Some(entries) => entries,
        None => {
            return None;
        },
    };
    let ghost wanted = items_view(entries@).map_values(|entry: JsonView| ranking_view(entry));
    let mut rankings: Vec<Ranking> = Vec::new();
    let mut i: usize = 0;
    while i < entries.len()
        invariant
            wanted == items_view(entries@).map_values(|entry: JsonView| ranking_view(entry)),
            i <= entries.len(),
            rankings@.len() == i,
            forall|k: int|
                0 <= k < i ==> ((#[trigger] rankings@[k]).model_id@, rankings@[k].rank) == wanted[k],
        decreases entries.len() - i,
    {
        let entry = &entries[i];
        assert(wanted[i as int] == ranking_view(entry@));
        let model_id = match entry.get_str("model_id") {
            Some(id) => id.to_owned(),
            None => {
                let none = String::new();
                assert(none@ =~= Seq::empty());
                none
            },
        };
        let rank = match entry.get("rank") {
            Some(value) => match value.as_i64() {
                Some(rank) => rank,
                None => 0,
            },
            None => 0,
        };
        rankings.push(Ranking { model_id, rank });
        i += 1;
    }
    assert(rankings_view(rankings@) =~= wanted);
    Some(rankings)
}

/// A candidate says what its panelist said, without the white space round it, and the
/// calls that it proposed behind that; one that said nothing is told as empty.
pub proof fn law_candidate_says_what_was_said(message: CollectedView)
    ensures
        message.tool_calls.len() == 0 && trimmed(message.text).len() > 0 ==> candidate_body(message)
            == trimmed(message.text),
        message.tool_calls.len() == 0 && trimmed(message.text).len() == 0 ==> candidate_body(
            message,
        ) == "[empty response]"@,
        message.tool_calls.len() > 0 && trimmed(message.text).len() > 0 ==> candidate_body(message)
            == trimmed(message.text) + "\n\n"@ + "[proposed tool calls]"@ + proposed_calls(
            message.tool_calls,
        ),
        message.tool_calls.len() > 0 && trimmed(message.text).len() == 0 ==> candidate_body(message)
            == "[proposed tool calls]"@ + proposed_calls(message.tool_calls),
{
    if message.tool_calls.len() > 0 && trimmed(message.text).len() == 0 {
        assert(trimmed(message.text) + "[proposed tool calls]"@ =~= "[proposed tool calls]"@);
    }
}

/// Proposed calls are told one per line, by name and arguments.
pub proof fn law_proposed_calls_are_told_in_order(calls: Seq<CallView>, call: CallView)
    ensures
        proposed_calls(Seq::empty()) == Seq::<char>::empty(),
        proposed_calls(calls.push(call)) == proposed_calls(calls) + "\n- "@ + call.name + "("@
            + json_text(call.arguments) + ")"@,
{
    assert(calls.push(call).drop_last() =~= calls);
    assert(proposed_calls(calls.push(call)) =~= proposed_calls(calls) + "\n- "@ + call.name + "("@
        + json_text(call.arguments) + ")"@);
}

/// Every panelist that replied is a candidate, in the order of the panel, and one that
/// failed is none.
pub proof fn law_candidates_are_those_that_replied(
    names: Seq<Seq<char>>,
    replies: Seq<Option<CollectedView>>,
    message: CollectedView,
)
    ensures
        candidates_spec(names, replies.push(None)) == candidates_spec(names, replies),
        candidates_spec(names, replies.push(Some(message))) == candidates_spec(names, replies).push(
            CandidateView {
                id: candidate_id(names, replies.len() as int),
                model: names[replies.len() as int],
                body: candidate_body(message),
            },
        ),
{
    assert(replies.push(None).drop_last() =~= replies);
    assert(replies.push(Some(message)).drop_last() =~= replies);
}

/// A candidate goes by the name of its model, unless another has it too: then its place
/// in the panel is put behind it.
pub proof fn law_candidates_go_by_their_model(names: Seq<Seq<char>>, i: int)
    requires
        0 <= i < names.len(),
    ensures
        (forall|j: int| 0 <= j < names.len() && j != i ==> #[trigger] names[j] != names[i])
            ==> candidate_id(names, i) == names[i],
        (exists|j: int| 0 <= j < names.len() && j != i && #[trigger] names[j] == names[i])
            && !names.contains(names[i] + "#"@ + decimal(i as nat)) ==> candidate_id(names, i)
            == names[i] + "#"@ + decimal(i as nat),
{
}

/// A panelist reads its instructions and then the conversation as it is, with the tools
/// at hand and nothing of an earlier reply.
pub proof fn law_panelist_reads_the_conversation(
    base: RequestView,
    model: ResolvedModel,
    framing: Seq<char>,
    i: int,
)
    requires
        0 <= i < base.messages.len(),
    ensures
        ({
            let asked = asked_of_panelist(base, model, framing);
            &&& asked.model == model
            &&& asked.prompt == base.prompt
            &&& asked.tools == base.tools
            &&& asked.messages.len() == base.messages.len() + 1
            &&& asked.messages[0] == MessageView::User(
                framing,
                seq![UserPartView::Text(PANEL_PREFIX@)],
            )
            &&& asked.messages[i + 1] == base.messages[i]
            &&& asked.compacted_prefix.len() == 0
            &&& asked.previous_response_id is None
            &&& asked.new_messages_start == 0
        }),
{
}

/// The synthesis stands between its marks, without the white space round it, behind a
/// word on what it is.
pub proof fn law_synthesis_stands_between_its_marks(synthesis: Seq<char>)
    ensures
        guidance(synthesis)
            == "The following model-judge synthesis evaluates candidate responses to the most recent user message. Treat it as advisory context for your answer, not as a new request from the user.\n\n<model_judge_synthesis>\n"@
            + trimmed(synthesis) + "\n</model_judge_synthesis>"@,
{
}

/// The judge reads every candidate under its name and its model, in order, behind the
/// conversation and its instructions.
pub proof fn law_judge_reads_every_candidate(
    request: RequestView,
    ids: IdsView,
    candidates: Seq<CandidateView>,
    candidate: CandidateView,
)
    ensures
        all_presented(Seq::empty()) == Seq::<char>::empty(),
        all_presented(candidates.push(candidate)) == all_presented(candidates)
            + "\n--- model_id: "@ + candidate.id + " (model: "@ + candidate.model + ") ---\n"@
            + candidate.body + "\n"@,
        begun(request, ids, candidates).messages == request.messages.push(
            MessageView::User(
                ids.fresh(),
                seq![UserPartView::Text(SYNTHESIS_HEADER@ + all_presented(candidates))],
            ),
        ),
        begun(request, ids, candidates).round == 0,
        !begun(request, ids, candidates).recorded,
{
    assert(candidates.push(candidate).drop_last() =~= candidates);
    assert(all_presented(candidates.push(candidate)) =~= all_presented(candidates)
        + "\n--- model_id: "@ + candidate.id + " (model: "@ + candidate.model + ") ---\n"@
        + candidate.body + "\n"@);
}

/// What the judge is told after an empty reply: to write, once its ranking is known, and
/// to rank before that.
pub proof fn law_empty_reply_is_answered()
    ensures
        retry_text(true)
            == "Your previous model-judge synthesis response was invalid because it contained neither a `rank_responses` tool call nor synthesis text.\n\n"@
            + "The ranking has already been recorded. Write the synthesis text now."@
            + "\n\nDo not return an empty message. If uncertain, make a best-effort ranking and concise synthesis."@,
        retry_text(false)
            == "Your previous model-judge synthesis response was invalid because it contained neither a `rank_responses` tool call nor synthesis text.\n\n"@
            + "Call `rank_responses` exactly once with every candidate, then continue to synthesis text."@
            + "\n\nDo not return an empty message. If uncertain, make a best-effort ranking and concise synthesis."@,
{
}

/// A reply with words is the synthesis, without the white space round it, whatever was
/// called with it; nothing is asked again.
pub proof fn law_words_are_the_synthesis(session: SynthesisView, ids: IdsView, reply: CollectedView)
    requires
        trimmed(reply.text).len() > 0,
    ensures
        after_reply(session, ids, reply).2 == StepView::Done(trimmed(reply.text)),
        after_reply(session, ids, reply).1 == ids,
        after_reply(session, ids, reply).0.messages == session.messages,
{
}

/// A reply without words and without a ranking is asked again, in one message more, until
/// the third: then the judge is given up.
pub proof fn law_empty_reply_is_asked_again(
    session: SynthesisView,
    ids: IdsView,
    reply: CollectedView,
)
    requires
        trimmed(reply.text).len() == 0,
        forall|i: int|
            0 <= i < reply.tool_calls.len() ==> (#[trigger] reply.tool_calls[i]).name
                != "rank_responses"@,
    ensures
        session.round < 2 ==> {
            let (after, later, step) = after_reply(session, ids, reply);
            &&& step is Retry
            &&& after.round == session.round + 1
            &&& after.recorded == session.recorded
            &&& after.messages == session.messages.push(
                MessageView::User(
                    ids.fresh(),
                    seq![UserPartView::Text(retry_text(session.recorded))],
                ),
            )
            &&& later == ids.advanced()
        },
        session.round >= 2 ==> after_reply(session, ids, reply).2 == StepView::Failed(
            "model-judge synthesis produced neither a ranking nor synthesis text"@
                + " after 3 attempts"@,
        ),
        ranking_to_record(session, reply) is None,
{
    lemma_no_rank_call(reply.tool_calls);
}

proof fn lemma_no_rank_call(calls: Seq<CallView>)
    requires
        forall|i: int| 0 <= i < calls.len() ==> (#[trigger] calls[i]).name != "rank_responses"@,
    ensures
        rank_call(calls) is None,
    decreases calls.len(),
{
    if calls.len() > 0 {
        assert(calls[0].name != "rank_responses"@);
        assert forall|i: int| 0 <= i < calls.drop_first().len() implies (
        #[trigger] calls.drop_first()[i]).name != "rank_responses"@ by {
            assert(calls[i + 1].name != "rank_responses"@);
        }
        lemma_no_rank_call(calls.drop_first());
    }
}

/// The first call of the ranking tool is the ranking.
pub proof fn law_first_ranking_counts(before: Seq<CallView>, call: CallView, after: Seq<CallView>)
    requires
        call.name == "rank_responses"@,
        forall|i: int| 0 <= i < before.len() ==> (#[trigger] before[i]).name != "rank_responses"@,
    ensures
        rank_call(before.push(call) + after) == Some(call),
    decreases before.len(),
{
    let calls = before.push(call) + after;
    if before.len() > 0 {
        assert(calls[0] == before[0]);
        assert(calls.drop_first() =~= before.drop_first().push(call) + after);
        assert forall|i: int| 0 <= i < before.drop_first().len() implies (
        #[trigger] before.drop_first()[i]).name != "rank_responses"@ by {
            assert(before[i + 1].name != "rank_responses"@);
        }
        law_first_ranking_counts(before.drop_first(), call, after);
    }
}

/// A ranking without words is answered with a receipt, and the judge is asked for its
/// words, up to the third time. It is recorded where none was before.
pub proof fn law_ranking_is_acknowledged(
    session: SynthesisView,
    ids: IdsView,
    reply: CollectedView,
    call: CallView,
)
    requires
        trimmed(reply.text).len() == 0,
        rank_call(reply.tool_calls) == Some(call),
    ensures
        ({
            let (after, later, step) = after_reply(session, ids, reply);
            &&& session.round < 2 ==> step is Again
            &&& session.round >= 2 ==> step == StepView::Failed(
                "model-judge synthesis did not produce synthesis text within the round limit"@,
            )
            &&& after.recorded
            &&& after.round == session.round + 1
            &&& later == ids.advanced()
            &&& after.messages.len() == session.messages.len() + 2
            &&& after.messages.subrange(0, session.messages.len() as int) == session.messages
            &&& after.messages[session.messages.len() as int] == MessageView::Assistant(
                ids.fresh(),
                seq![AssistantPartView::ToolCall(call)],
            )
            &&& after.messages.last() matches MessageView::Tool(to, given, error) && to == call.id
                && error is None && given == ToolResultView::Json(
                JsonView::Object(seq![("status"@, JsonView::Text("recorded"@))]),
            )
        }),
        session.recorded ==> ranking_to_record(session, reply) is None,
        !session.recorded ==> ranking_to_record(session, reply) == Some(call.arguments),
{
    let after = after_reply(session, ids, reply).0;
    assert(after.messages.subrange(0, session.messages.len() as int) =~= session.messages);
}

/// A ranking is read as a name and a place; a missing name is empty, a missing place or
/// one that is no whole number is nought.
pub proof fn law_rankings_are_read(entry: JsonView)
    ensures
        entry.get_str("model_id"@) is Some ==> ranking_view(entry).0 == entry.get_str(
            "model_id"@,
        )->0,
        entry.get_str("model_id"@) is None ==> ranking_view(entry).0.len() == 0,
        (entry.get("rank"@) is Some && entry.get("rank"@)->0.as_i64() is Some) ==> ranking_view(
            entry,
        ).1 == entry.get("rank"@)->0.as_i64()->0,
        (entry.get("rank"@) is None || entry.get("rank"@)->0.as_i64() is None) ==> ranking_view(
            entry,
        ).1 == 0,
{
}

/// The ranking tool takes a list of rankings, each with the name of a candidate and its
/// place, from one on.
pub proof fn law_ranking_tool_asks_for_rankings()
    ensures
        rank_tool().name == "rank_responses"@,
        rank_tool().aliases.len() == 0,
        ({
            let schema = rank_tool().input_schema;
            let list = schema.get_in("properties"@, "rankings"@);
            &&& schema.get_str("type"@) == Some("object"@)
            &&& schema.get("required"@) == Some(
                JsonView::Array(seq![JsonView::Text("rankings"@)]),
            )
            &&& list is Some
            &&& list->0.get_str("type"@) == Some("array"@)
            &&& list->0.get("items"@) is Some
            &&& ({
                let entry = list->0.get("items"@)->0;
                &&& entry.get_str("type"@) == Some("object"@)
                &&& entry.get("required"@) == Some(
                    JsonView::Array(seq![JsonView::Text("model_id"@), JsonView::Text("rank"@)]),
                )
                &&& entry.get_in("properties"@, "model_id"@) is Some
                &&& entry.get_in("properties"@, "model_id"@)->0.get_str("type"@) == Some("string"@)
                &&& entry.get_in("properties"@, "rank"@) is Some
                &&& entry.get_in("properties"@, "rank"@)->0.get_str("type"@) == Some("integer"@)
                &&& entry.get_in("properties"@, "rank"@)->0.get_u64("minimum"@) == Some(1u64)
            })
        }),
{
    reveal_strlit("type");
    reveal_strlit("properties");
    reveal_strlit("required");
    reveal_strlit("rankings");
    reveal_strlit("items");
    reveal_strlit("model_id");
    reveal_strlit("rank");
    reveal_strlit("minimum");
    assert("type"@.len() == 4);
    assert("properties"@.len() == 10);
    assert("required"@.len() == 8);
    assert("rankings"@.len() == 8);
    assert("items"@.len() == 5);
    assert("model_id"@.len() == 8);
    assert("rank"@.len() == 4);
    assert("minimum"@.len() == 7);
    assert("type"@[0] != "rank"@[0]);
    assert("required"@[1] != "rankings"@[1]);
    assert("required"@[0] != "model_id"@[0]);
    assert("rankings"@[0] != "model_id"@[0]);
    let schema = rank_schema();
    lemma_member(schema, 0, "type"@);
    lemma_member(schema, 1, "properties"@);
    lemma_member(schema, 2, "required"@);
    let properties = schema.get("properties"@)->0;
    lemma_member(properties, 0, "rankings"@);
    let list = properties.get("rankings"@)->0;
    lemma_member(list, 0, "type"@);
    lemma_member(list, 1, "items"@);
    let entry = list.get("items"@)->0;
    lemma_member(entry, 0, "type"@);
    lemma_member(entry, 1, "properties"@);
    lemma_member(entry, 2, "required"@);
    let members = entry.get("properties"@)->0;
    lemma_member(members, 0, "model_id"@);
    lemma_member(members, 1, "rank"@);
    lemma_member(members.get("model_id"@)->0, 0, "type"@);
    lemma_member(members.get("rank"@)->0, 0, "type"@);
    lemma_member(members.get("rank"@)->0, 1, "minimum"@);
}

/// The candidates of a panel are named in its order.
pub proof fn law_panel_is_named_in_order(names: Seq<Seq<char>>, i: int)
    requires
        0 <= i < names.len(),
    ensures
        candidate_ids_spec(names).len() == names.len(),
        candidate_ids_spec(names)[i] == candidate_id(names, i),
{
}

} // verus!
