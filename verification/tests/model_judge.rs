use halter_providers::ids::IdSource;
use halter_providers::json::Json;
use halter_providers::message_collector::CollectedMessage;
use halter_providers::model_judge::{
    candidate_ids, read_rankings, AfterPanel, Candidate, ModelJudgeMember, ModelJudgeProvider,
    SynthesisSession, SynthesisStep, MODEL_JUDGE_RANK_TOOL,
};
use halter_providers::protocol::{
    ApiKind, AssembledPrompt, CacheBreakpoints, Message, MessageId, ProviderCompactionRequest,
    ProviderError, ProviderKind, ProviderRequest, ResolvedModel, ToolCall, ToolCallId, ToolName,
    UserMessage, UserPart,
};

fn resolved(model: &str) -> ResolvedModel {
    ResolvedModel {
        id: model.to_owned(),
        provider: "fake".to_owned(),
        provider_kind: ProviderKind::OpenAi,
        api_kind: ApiKind::OpenAiResponses,
        model: model.to_owned(),
        max_input_tokens: None,
        max_output_tokens: None,
        reasoning: None,
        tokens_per_minute: None,
    }
}

fn member(model: &str) -> ModelJudgeMember<()> {
    ModelJudgeMember { provider: (), model: resolved(model) }
}

fn judge(panel: &[&str]) -> ModelJudgeProvider<()> {
    ModelJudgeProvider::new(
        member("default"),
        member("synthesis"),
        panel.iter().map(|name| member(name)).collect(),
    )
}

fn sample_request() -> ProviderRequest {
    ProviderRequest {
        model: resolved("model_judge"),
        prompt: AssembledPrompt {
            ordered_segments: Vec::new(),
            prefix_cache_key: String::new(),
            rendered_prefix: String::new(),
            cache_breakpoints: CacheBreakpoints {
                after_system: false,
                after_skills: false,
                after_tools: false,
                after_user_prompt: false,
            },
            system_segment_count: 0,
            skill_segment_count: 0,
        },
        compacted_prefix: Vec::new(),
        messages: vec![Message::User(UserMessage {
            id: MessageId("user_1".to_owned()),
            parts: vec![UserPart::Text { text: "what is the answer?".to_owned() }],
        })],
        tools: Vec::new(),
        previous_response_id: None,
        new_messages_start: 0,
    }
}

fn said(text: &str) -> CollectedMessage {
    CollectedMessage { text: text.to_owned(), tool_calls: Vec::new() }
}

fn ranked(text: &str) -> CollectedMessage {
    CollectedMessage {
        text: text.to_owned(),
        tool_calls: vec![ToolCall {
            id: ToolCallId("call_rank".to_owned()),
            name: ToolName(MODEL_JUDGE_RANK_TOOL.to_owned()),
            arguments: Json::parse(
                r#"{"rankings":[{"model_id":"panel-a","rank":1},{"model_id":"panel-b","rank":2}]}"#,
            )
            .expect("valid json"),
        }],
    }
}

fn user_text(message: &Message) -> String {
    match message {
        Message::User(user) => user
            .parts
            .iter()
            .map(|part| match part {
                UserPart::Text { text } => text.as_str(),
                _ => "",
            })
            .collect(),
        _ => String::new(),
    }
}

fn mentions(request: &ProviderRequest, needle: &str) -> bool {
    request.messages.iter().any(|message| user_text(message).contains(needle))
}

#[test]
fn panel_is_framed_and_the_judge_sees_every_candidate() {
    let judge = judge(&["panel-a", "panel-b"]);
    let request = sample_request();
    let mut ids = IdSource::new("judge");

    let asked = judge.panel_requests(&request, &mut ids);
    assert_eq!(asked.len(), 2);
    assert_eq!(asked[0].model.model, "panel-a");
    assert!(user_text(&asked[0].messages[0])
        .contains("one of several expert models on a review panel"));
    assert!(mentions(&asked[0], "what is the answer?"));

    let candidates = judge.candidates(&vec![Ok(said("answer A")), Ok(said("answer B"))]);
    assert_eq!(candidates.len(), 2);
    let mut session = SynthesisSession::new(&request, &candidates, &mut ids);
    let asked = session.next_request(&judge, &request);
    assert_eq!(asked.model.model, "synthesis");
    assert!(!mentions(&asked, "review panel"));
    let prompt = user_text(asked.messages.last().expect("prompt"));
    assert!(prompt.contains("answer A"));
    assert!(prompt.contains("answer B"));
    assert!(prompt.contains(MODEL_JUDGE_RANK_TOOL));
    assert!(prompt.contains("Never return an empty assistant message"));
    assert_eq!(asked.tools.len(), 1);
    assert_eq!(asked.tools[0].name.0, MODEL_JUDGE_RANK_TOOL);

    let (step, ranking) = session.receive(&ranked(" A is stronger than B "), &mut ids);
    let SynthesisStep::Done(synthesis) = step else {
        panic!("text is the synthesis");
    };
    assert_eq!(synthesis, "A is stronger than B");
    let rankings = read_rankings(&ranking.expect("ranking")).expect("a list");
    assert_eq!(rankings.len(), 2);
    assert_eq!(rankings[1].model_id, "panel-b");
    assert_eq!(rankings[1].rank, 2);

    let asked = judge.default_request(&request, Some(synthesis), &mut ids);
    assert_eq!(asked.model.model, "default");
    let guidance = user_text(&asked.messages[1]);
    assert!(guidance.contains("model-judge synthesis"));
    assert!(guidance.contains("A is stronger than B"));
    assert!(!mentions(&asked, "review panel"));
}

fn message_id(message: &Message) -> String {
    match message {
        Message::User(user) => user.id.0.clone(),
        _ => String::new(),
    }
}

#[test]
fn panelists_share_one_framing_message() {
    let judge = judge(&["panel-a", "panel-b", "panel-c"]);
    let request = sample_request();
    let mut ids = IdSource::new("judge");
    let asked = judge.panel_requests(&request, &mut ids);
    assert_eq!(asked.len(), 3);
    let framing = message_id(&asked[0].messages[0]);
    for (inner, model) in asked.iter().zip(["panel-a", "panel-b", "panel-c"]) {
        assert_eq!(inner.model.model, model);
        assert_eq!(inner.messages.len(), 2);
        assert_eq!(message_id(&inner.messages[0]), framing);
        assert_eq!(message_id(&inner.messages[1]), "user_1");
    }
    assert_ne!(ids.mint(), framing);
}

#[test]
fn empty_synthesis_is_asked_for_again() {
    let judge = judge(&["panel-a"]);
    let request = sample_request();
    let mut ids = IdSource::new("judge");
    let candidates = judge.candidates(&vec![Ok(said("answer A"))]);
    let mut session = SynthesisSession::new(&request, &candidates, &mut ids);

    let (step, ranking) = session.receive(&said(""), &mut ids);
    assert!(matches!(step, SynthesisStep::Retry));
    assert!(ranking.is_none());
    let asked = session.next_request(&judge, &request);
    assert!(user_text(asked.messages.last().expect("complaint"))
        .contains("previous model-judge synthesis response was invalid"));

    let (step, _) = session.receive(&ranked("A is the best available answer"), &mut ids);
    assert!(matches!(
        step,
        SynthesisStep::Done(text) if text == "A is the best available answer"
    ));
}

#[test]
fn judge_is_asked_three_times_at_most() {
    let judge = judge(&["panel-a"]);
    let request = sample_request();
    let mut ids = IdSource::new("judge");
    let candidates = judge.candidates(&vec![Ok(said("answer A"))]);

    let mut session = SynthesisSession::new(&request, &candidates, &mut ids);
    assert!(matches!(session.receive(&said(""), &mut ids).0, SynthesisStep::Retry));
    assert!(matches!(session.receive(&said(" \n"), &mut ids).0, SynthesisStep::Retry));
    let (step, _) = session.receive(&said(""), &mut ids);
    assert!(matches!(
        step,
        SynthesisStep::Failed(reason)
            if reason
                == "model-judge synthesis produced neither a ranking nor synthesis text after 3 attempts"
    ));

    let mut session = SynthesisSession::new(&request, &candidates, &mut ids);
    let (step, first) = session.receive(&ranked(""), &mut ids);
    assert!(matches!(step, SynthesisStep::Again));
    assert!(first.is_some());
    let (step, second) = session.receive(&ranked(""), &mut ids);
    assert!(matches!(step, SynthesisStep::Again));
    assert!(second.is_none(), "only the first ranking is recorded");
    let (step, _) = session.receive(&ranked(""), &mut ids);
    assert!(matches!(step, SynthesisStep::Failed(_)));
}

#[test]
fn failed_panelists_drop_out_and_no_panel_leaves_the_request_alone() {
    let judge = judge(&["panel-a", "panel-b"]);
    let failed = ProviderError::new("down".to_owned(), false);
    let candidates = judge.candidates(&vec![Err(failed), Ok(said("answer B"))]);
    assert_eq!(candidates.len(), 1);
    assert_eq!(candidates[0].id, "panel-b");

    let request = sample_request();
    let mut ids = IdSource::new("judge");
    let asked = judge.default_request(&request, None, &mut ids);
    assert_eq!(asked.messages.len(), 1);
}

#[test]
fn panelists_of_one_model_are_told_apart() {
    let judge = judge(&["twin", "single", "twin"]);
    assert_eq!(candidate_ids(&judge.panel), vec!["twin#0", "single", "twin#2"]);
}

#[test]
fn candidate_ids_are_unique_whatever_the_models_are_called() {
    let judge = judge(&["m", "m", "m#0"]);
    assert_eq!(candidate_ids(&judge.panel), vec!["m#0#", "m#1", "m#0"]);
}

#[test]
fn default_model_answers_alone_without_candidates() {
    let judge = judge(&[]);
    let request = sample_request();
    let mut ids = IdSource::new("judge");
    let candidates = judge.candidates(&Vec::new());
    let AfterPanel::AskDefault(asked) = judge.after_panel(&request, &candidates, &mut ids) else {
        panic!("the judge is not asked");
    };
    assert_eq!(asked.model.model, "default");
    assert_eq!(asked.messages.len(), 1);
    assert_eq!(user_text(&asked.messages[0]), "what is the answer?");
}

#[test]
fn default_model_answers_alone_without_a_synthesis() {
    let judge = judge(&["panel-a"]);
    let request = sample_request();
    let mut ids = IdSource::new("judge");
    let candidates = judge.candidates(&vec![Ok(said("answer A"))]);
    assert!(matches!(
        judge.after_panel(&request, &candidates, &mut ids),
        AfterPanel::AskJudge(_)
    ));
    let asked = judge.after_synthesis(&request, Err("no synthesis".to_owned()), &mut ids);
    assert_eq!(asked.messages.len(), 1);
    let asked = judge.after_synthesis(&request, Ok("A is best".to_owned()), &mut ids);
    assert!(user_text(&asked.messages[1]).contains("A is best"));
}

#[test]
fn proposed_tool_calls_are_shown_to_the_judge() {
    let judge = judge(&["panel-a"]);
    let candidates: Vec<Candidate> = judge.candidates(&vec![Ok(ranked("prose"))]);
    assert!(candidates[0].body.contains("prose"));
    assert!(candidates[0].body.contains(MODEL_JUDGE_RANK_TOOL));
}

#[test]
fn compaction_is_for_the_default_member() {
    let judge = ModelJudgeProvider::new(member("gpt-5.5"), member("synthesis"), Vec::new());
    let mut synthetic = resolved("model-judge:gpt-5.5");
    synthetic.provider = "model-judge-default".to_owned();
    let request = ProviderCompactionRequest {
        session_id: String::new(),
        model: synthetic,
        compacted_prefix: Vec::new(),
        messages: Vec::new(),
        tools: Vec::new(),
        instructions: "compact".to_owned(),
    };

    let inner = judge.compaction_request(&request);

    assert_eq!(inner.model.provider, "fake");
    assert_eq!(inner.model.model, "gpt-5.5");
    assert!(!inner.model.model.starts_with("model-judge:"));
    assert_eq!(inner.instructions, "compact");
}
