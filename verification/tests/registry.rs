use halter_providers::ids::IdSource;
use halter_providers::json::{Json, JsonNumber};
use halter_providers::keyed::Keyed;
use halter_providers::message_collector::{parse_tool_arguments, MessageCollector};
use halter_providers::protocol::{
    ApiKind, BlockId, ProviderError, ProviderKind, ResolvedModel, StreamEvent, ToolCallId, ToolName,
};
use halter_providers::registry::ModelRegistry;

fn model(id: &str) -> ResolvedModel {
    ResolvedModel {
        id: id.to_owned(),
        provider: "fake".to_owned(),
        provider_kind: ProviderKind::OpenAi,
        api_kind: ApiKind::OpenAiResponses,
        model: format!("{id}-latest"),
        max_input_tokens: None,
        max_output_tokens: None,
        reasoning: None,
        tokens_per_minute: None,
    }
}

#[test]
fn roles_fall_back_to_the_default_model() {
    let mut registry: ModelRegistry<&str, u8> = ModelRegistry::new();
    let missing = registry.default_model().expect_err("nothing configured");
    assert_eq!(missing.message, "failed to resolve model: default model is not configured");
    assert!(registry.small_model().is_err());

    registry.set_default_model(model("main"));
    assert_eq!(registry.default_model().expect("default").id, "main");
    assert_eq!(registry.small_model().expect("small").id, "main");
    assert_eq!(registry.subagent_model().expect("subagent").id, "main");
    assert_eq!(registry.plan_model().expect("plan").id, "main");

    registry.set_small_model(model("small"));
    registry.set_subagent_model(model("helper"));
    registry.set_plan_model(model("planner"));
    assert_eq!(registry.small_model().expect("small").id, "small");
    assert_eq!(registry.subagent_model().expect("subagent").id, "helper");
    assert_eq!(registry.plan_model().expect("plan").id, "planner");
    assert_eq!(registry.default_model().expect("default").id, "main");
}

#[test]
fn models_are_resolved_by_their_identifier() {
    let mut registry: ModelRegistry<&str, u8> = ModelRegistry::default();
    registry.set_default_model(model("zeta"));
    registry.register_model(model("alpha"));
    registry.register_model(model("mid"));

    assert_eq!(registry.model("alpha").expect("registered").model, "alpha-latest");
    assert_eq!(registry.model("zeta").expect("default").model, "zeta-latest");
    assert!(registry.model("beta").is_err());
    assert_eq!(registry.model_ids(), vec!["alpha", "mid", "zeta"]);
}

#[test]
fn providers_and_judges_are_found_by_name() {
    let mut registry: ModelRegistry<&str, u8> = ModelRegistry::new();
    registry.register_provider("openai", "first");
    registry.register_provider("openai", "second");
    registry.register_full_turn_judge("panel", 7);

    assert_eq!(registry.provider("openai").expect("registered"), &"second");
    let missing = registry.provider("other").expect_err("not registered");
    assert!(missing.message.contains("other"));
    assert_eq!(registry.full_turn_judge("panel"), Some(&7));
    assert_eq!(registry.full_turn_judge("other"), None);
}

#[test]
fn keyed_values_replace_each_other_and_list_in_order() {
    let mut keyed: Keyed<u8> = Keyed::new();
    keyed.insert("b", 1);
    keyed.insert("a", 2);
    keyed.insert("ab", 3);
    keyed.insert("b", 4);

    assert_eq!(keyed.get("b"), Some(&4));
    assert_eq!(keyed.get("c"), None);
    assert_eq!(keyed.sorted_keys(), vec!["a", "ab", "b"]);
}

#[test]
fn fresh_identifiers_count_up() {
    let mut ids = IdSource::new("msg");
    assert_eq!(ids.mint(), "msg-0");
    assert_eq!(ids.mint(), "msg-1");
    for n in 2..1_000 {
        assert_eq!(ids.mint(), format!("msg-{n}"));
    }
    assert_eq!(ids.mint(), "msg-1000");
}

fn block(id: &str) -> BlockId {
    BlockId(id.to_owned())
}

#[test]
fn collector_joins_text_and_arguments() {
    let mut collector = MessageCollector::new();
    for event in [
        StreamEvent::TextDelta { id: block("t"), delta: "one ".to_owned() },
        StreamEvent::ToolCallStart {
            id: block("c"),
            tool_call_id: ToolCallId("call_1".to_owned()),
            name: ToolName("read".to_owned()),
        },
        StreamEvent::ToolArgsDelta { id: block("c"), delta: "{\"n\"".to_owned() },
        StreamEvent::ToolArgsDelta { id: block("elsewhere"), delta: "lost".to_owned() },
        StreamEvent::ToolArgsDelta { id: block("c"), delta: ":1}".to_owned() },
        StreamEvent::TextDelta { id: block("t"), delta: "two".to_owned() },
        StreamEvent::Keepalive,
    ] {
        collector.push(event).expect("collected");
    }

    let message = collector.finish();

    assert_eq!(message.text, "one two");
    assert_eq!(message.tool_calls.len(), 1);
    assert_eq!(message.tool_calls[0].id.0, "call_1");
    assert_eq!(message.tool_calls[0].arguments.get_u64("n"), Some(1));
}

#[test]
fn collector_stops_at_a_reported_error() {
    let mut collector = MessageCollector::new();
    let error = ProviderError::new("overloaded".to_owned(), true);

    let stopped = collector
        .push(StreamEvent::Error { error: error.clone() })
        .expect_err("reported error");

    assert_eq!(stopped, error);
}

#[test]
fn tool_arguments_survive_bad_json() {
    assert!(matches!(parse_tool_arguments("  "), Json::Object(fields) if fields.is_empty()));
    assert!(matches!(
        parse_tool_arguments(" 3 "),
        Json::Number(JsonNumber::Unsigned(3))
    ));
    let kept = parse_tool_arguments("{broken");
    assert_eq!(kept.get_str("_raw"), Some("{broken"));
}
