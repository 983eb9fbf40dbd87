use halter_providers::anthropic_codec::{
    decode_compaction_response, decode_response, encode_compaction_request, encode_request,
    encode_stream_request, COMPACTED_CONTEXT_TYPE,
};
use halter_providers::anthropic_stream::AnthropicStreamDecoder;
use halter_providers::ids::IdSource;
use halter_providers::json::{Json, JsonNumber};
use halter_providers::protocol::{
    ApiKind, AssembledPrompt, AssistantMessage, AssistantPart, CacheBreakpoints, MediaBytes,
    Message, MessageId, ProviderCompactionRequest, ProviderErrorKind, ProviderKind,
    ProviderRequest, ReasoningEffort, ResolvedModel, StopReason, StreamEvent, ThinkingBlock, ToolAlias, ToolCall, ToolCallId,
    ToolName, ToolResult, ToolResultMessage, ToolSpec, UserMessage, UserPart,
};
use halter_providers::time::Duration;
use serde_json::Value;

fn json(text: &str) -> Json {
    Json::parse(text).expect("valid json")
}

fn shown(body: &Json) -> Value {
    serde_json::from_str(&body.to_text()).expect("valid json")
}

/// The name of the model with this key.
fn named(key: &str) -> String {
    key.replace('_', "-")
}

fn text_part(text: &str) -> UserPart {
    UserPart::Text { text: text.to_owned() }
}

fn user(parts: Vec<UserPart>) -> Message {
    Message::User(UserMessage { id: MessageId("user_1".to_owned()), parts })
}

fn assistant(parts: Vec<AssistantPart>) -> Message {
    Message::Assistant(AssistantMessage { id: MessageId("assistant_1".to_owned()), parts })
}

fn tool_result(call_id: &str, text: &str) -> Message {
    Message::Tool(ToolResultMessage {
        call_id: ToolCallId(call_id.to_owned()),
        content: ToolResult::Text { text: text.to_owned() },
        error: None,
    })
}

fn compacted(text: &str) -> Json {
    json(&format!("{{\"type\":\"{COMPACTED_CONTEXT_TYPE}\",\"text\":\"{text}\"}}"))
}

fn sample_request(messages: Vec<Message>) -> ProviderRequest {
    ProviderRequest {
        model: ResolvedModel {
            id: "claude_default".to_owned(),
            provider: "anthropic".to_owned(),
            provider_kind: ProviderKind::Anthropic,
            api_kind: ApiKind::AnthropicMessages,
            model: named("claude_sonnet_4_5"),
            max_input_tokens: Some(200_000),
            max_output_tokens: Some(8_192),
            reasoning: None,
            tokens_per_minute: None,
        },
        prompt: AssembledPrompt {
            ordered_segments: Vec::new(),
            prefix_cache_key: "cache-key".to_owned(),
            rendered_prefix: "follow plan".to_owned(),
            cache_breakpoints: CacheBreakpoints {
                after_system: false,
                after_skills: false,
                after_tools: false,
                after_user_prompt: false,
            },
            system_segment_count: 0,
            skill_segment_count: 0,
        },
        compacted_prefix: Vec::new(),
        messages,
        tools: vec![ToolSpec {
            name: ToolName("read".to_owned()),
            description: "Read a file".to_owned(),
            input_schema: json(r#"{"type":"object"}"#),
            provider_aliases: vec![ToolAlias {
                provider_kind: ProviderKind::Anthropic,
                alias: "fs_read".to_owned(),
            }],
        }],
        previous_response_id: None,
        new_messages_start: 0,
    }
}

fn sample_compaction_request() -> ProviderCompactionRequest {
    let request = sample_request(vec![
        user(vec![text_part("inspect README")]),
        assistant(vec![AssistantPart::Text { text: "I inspected it.".to_owned() }]),
        tool_result("toolu_123", "README contents"),
    ]);
    ProviderCompactionRequest {
        session_id: String::new(),
        model: request.model,
        compacted_prefix: vec![compacted("Earlier summary")],
        messages: request.messages,
        tools: request.tools,
        instructions: "Summarize the session".to_owned(),
    }
}

#[test]
fn request_hoists_system_and_groups_tool_results() {
    let request = sample_request(vec![
        user(vec![
            text_part("look"),
            UserPart::Document {
                media_type: "application/pdf".to_owned(),
                data: MediaBytes::new(b"pdf".to_vec()).expect("few bytes"),
            },
        ]),
        assistant(vec![AssistantPart::ToolCall(ToolCall {
            id: ToolCallId("call with spaces".to_owned()),
            name: ToolName("read".to_owned()),
            arguments: json(r#"{"path":"README.md"}"#),
        })]),
        tool_result("call with spaces", "done"),
    ]);

    let body = shown(&encode_request(&request, &None).expect("encode request"));

    assert_eq!(body.get("system").and_then(Value::as_str), Some("follow plan"));
    assert_eq!(body["messages"].as_array().expect("messages").len(), 3);
    assert_eq!(body["messages"][1]["content"][0]["name"], "fs_read");
    assert_eq!(body["messages"][2]["content"][0]["tool_use_id"], "call_with_spaces");
    assert!(body.get("temperature").is_none());
    // The attached bytes travel as base64.
    assert_eq!(body["messages"][0]["content"][1]["source"]["data"], "cGRm");
}

#[test]
fn anthropic_request_forwards_configured_temperature_override() {
    let request = sample_request(Vec::new());
    let temperature = Some(JsonNumber::Float("0.25".to_owned()));
    let body = shown(&encode_request(&request, &temperature).expect("encode request"));

    assert_eq!(body["temperature"], 0.25_f32);
}

#[test]
fn stream_request_enables_sse_and_renders_compacted_prefix_after_cache_boundaries() {
    let mut request = sample_request(Vec::new());
    request.prompt.ordered_segments = vec!["follow plan".to_owned()];
    request.prompt.system_segment_count = 1;
    request.prompt.cache_breakpoints.after_system = true;
    request.compacted_prefix = vec![compacted("older decisions are summarized")];

    let body = shown(&encode_stream_request(&request, &None).expect("encode"));

    assert_eq!(body["stream"], true);
    let system = body["system"].as_array().expect("system blocks");
    assert_eq!(system[0]["cache_control"]["type"], "ephemeral");
    assert!(system
        .last()
        .and_then(|block| block.get("text"))
        .and_then(Value::as_str)
        .is_some_and(|text| text.contains("older decisions are summarized")));
}

#[test]
fn request_replays_thinking_blocks_with_signatures() {
    let request = sample_request(vec![assistant(vec![
        AssistantPart::Thinking(ThinkingBlock {
            text: "reasoned".to_owned(),
            signature: Some("sig-123".to_owned()),
        }),
        AssistantPart::Text { text: "answer".to_owned() },
    ])]);

    let body = shown(&encode_request(&request, &None).expect("encode"));

    assert_eq!(body["messages"][0]["content"][0]["type"], "thinking");
    assert_eq!(body["messages"][0]["content"][0]["thinking"], "reasoned");
    assert_eq!(body["messages"][0]["content"][0]["signature"], "sig-123");
}

#[test]
fn adaptive_models_use_current_anthropic_thinking_shape() {
    let mut request = sample_request(Vec::new());
    request.model.model = named("claude_opus_4_7_latest");
    request.model.reasoning = Some(ReasoningEffort::Xhigh);

    let body = shown(&encode_stream_request(&request, &None).expect("encode"));

    assert_eq!(body["thinking"]["type"], "adaptive");
    assert_eq!(body["thinking"]["display"], "summarized");
    assert_eq!(body["output_config"]["effort"], "xhigh");
}

#[test]
fn thinking_budget_stays_under_the_output_limit() {
    let mut request = sample_request(Vec::new());
    request.model.reasoning = Some(ReasoningEffort::Low);

    let body = shown(&encode_stream_request(&request, &None).expect("encode"));

    assert_eq!(body["thinking"]["type"], "enabled");
    let budget = body["thinking"]["budget_tokens"].as_u64().expect("budget");
    assert!(budget < body["max_tokens"].as_u64().expect("limit"));
}

#[test]
fn response_maps_text_and_tool_use_blocks() {
    let request = sample_request(Vec::new());
    let response = json(
        r#"{
            "id": "msg_123",
            "stop_reason": "tool_use",
            "usage": {"input_tokens": 11, "output_tokens": 7},
            "content": [
                {"type": "text", "text": "working"},
                {"type": "tool_use", "id": "toolu_123", "name": "fs_read",
                 "input": {"path": "README.md"}}
            ]
        }"#,
    );

    let mut ids = IdSource::new("block");
    let events = decode_response(&request, &response, &mut ids);

    assert!(events.iter().any(|event| matches!(
        event,
        StreamEvent::TextDelta { delta, .. } if delta == "working"
    )));
    assert!(events.iter().any(|event| matches!(
        event,
        StreamEvent::ToolCallStart { name, .. } if name.0 == "read"
    )));
    assert!(events.iter().any(|event| matches!(
        event,
        StreamEvent::MessageEnd { stop_reason: StopReason::ToolUse, .. }
    )));
}

#[test]
fn stream_decoder_maps_text_thinking_tool_use_usage_and_stop_reason() {
    let request = sample_request(Vec::new());
    let mut decoder = AnthropicStreamDecoder::new(&request);
    let mut ids = IdSource::new("block");
    let mut events = Vec::new();
    for event in [
        r#"{"type":"message_start","message":{"id":"msg_123","usage":{"input_tokens":11,"output_tokens":1,"cache_creation_input_tokens":2,"cache_read_input_tokens":3}}}"#,
        r#"{"type":"content_block_start","index":0,"content_block":{"type":"text","text":""}}"#,
        r#"{"type":"content_block_delta","index":0,"delta":{"type":"text_delta","text":"done"}}"#,
        r#"{"type":"content_block_stop","index":0}"#,
        r#"{"type":"content_block_start","index":1,"content_block":{"type":"thinking","thinking":""}}"#,
        r#"{"type":"content_block_delta","index":1,"delta":{"type":"thinking_delta","thinking":"think"}}"#,
        r#"{"type":"content_block_delta","index":1,"delta":{"type":"signature_delta","signature":"sig-123"}}"#,
        r#"{"type":"content_block_stop","index":1}"#,
        r#"{"type":"content_block_start","index":2,"content_block":{"type":"tool_use","id":"toolu_123","name":"fs_read","input":{}}}"#,
        r#"{"type":"content_block_delta","index":2,"delta":{"type":"input_json_delta","partial_json":"{\"path\""}}"#,
        r#"{"type":"content_block_delta","index":2,"delta":{"type":"input_json_delta","partial_json":":\"README.md\"}"}}"#,
        r#"{"type":"content_block_stop","index":2}"#,
        r#"{"type":"message_delta","delta":{"stop_reason":"tool_use"},"usage":{"output_tokens":7}}"#,
        r#"{"type":"message_stop"}"#,
    ] {
        events.extend(decoder.decode(&json(event), &mut ids).expect("decode event"));
    }

    assert!(events.iter().any(|event| matches!(
        event,
        StreamEvent::MessageStart { id } if id.0 == "msg_123"
    )));
    assert!(events.iter().any(|event| matches!(
        event,
        StreamEvent::TextDelta { delta, .. } if delta == "done"
    )));
    assert!(events.iter().any(|event| matches!(
        event,
        StreamEvent::ThinkingDelta { delta, .. } if delta == "think"
    )));
    assert!(events.iter().any(|event| matches!(
        event,
        StreamEvent::ThinkingEnd { signature, .. } if signature.as_deref() == Some("sig-123")
    )));
    assert!(events.iter().any(|event| matches!(
        event,
        StreamEvent::ToolCallStart { name, .. } if name.0 == "read"
    )));
    assert!(events.iter().any(|event| matches!(
        event,
        StreamEvent::ToolArgsDelta { delta, .. } if delta.contains("README.md")
    )));
    assert!(events.iter().any(|event| matches!(
        event,
        StreamEvent::UsageUpdate { usage } if usage.input_tokens == 11 && usage.output_tokens == 7
    )));
    assert!(events.iter().any(|event| matches!(
        event,
        StreamEvent::MessageEnd { stop_reason, .. } if *stop_reason == StopReason::ToolUse
    )));
}

#[test]
fn stream_events_without_an_index_are_refused() {
    let request = sample_request(Vec::new());
    let mut decoder = AnthropicStreamDecoder::new(&request);
    let mut ids = IdSource::new("block");

    let refused = decoder
        .decode(&json(r#"{"type":"content_block_stop"}"#), &mut ids)
        .expect_err("missing index");

    assert_eq!(
        refused.message,
        "failed to decode anthropic stream event: missing index"
    );
}

#[test]
fn compaction_request_and_response_use_anthropic_inline_summary_shape() {
    let request = sample_compaction_request();
    let body = shown(&encode_compaction_request(&request, &None).expect("encode compaction"));

    assert_eq!(body["model"], named("claude_sonnet_4_5"));
    assert!(body.get("temperature").is_none());
    assert!(body["messages"][0]["content"][0]["text"]
        .as_str()
        .is_some_and(|text| text.contains("assistant:")));

    let response = json(
        r#"{
            "id": "msg_summary",
            "content": [{"type": "text", "text": "Summary of the compacted turn"}],
            "usage": {"input_tokens": 30, "output_tokens": 9}
        }"#,
    );
    let decoded = decode_compaction_response(&response);

    assert_eq!(decoded.usage.input_tokens, 30);
    assert_eq!(shown(&decoded.output[0])["type"], COMPACTED_CONTEXT_TYPE);
    assert_eq!(shown(&decoded.output[0])["text"], "Summary of the compacted turn");
}

#[test]
fn reported_errors_are_treated_by_their_tags() {
    let mut ids = IdSource::new("block");
    let mut decoder = AnthropicStreamDecoder::new(&sample_request(Vec::new()));
    for (event, message, kind, hint) in [
        (
            r#"{"type":"error","error":{"type":"overloaded_error","message":"Overloaded"}}"#,
            "failed to execute provider request: Overloaded",
            ProviderErrorKind::Transient,
            Some(Duration::from_millis(750)),
        ),
        (
            r#"{"type":"error","error":{"type":"rate_limit_error","message":"slow down"}}"#,
            "failed to execute provider request: slow down",
            ProviderErrorKind::RateLimited,
            None,
        ),
        (
            r#"{"type":"error","error":{"type":"api_error","message":"internal server error"}}"#,
            "failed to execute provider request: internal server error",
            ProviderErrorKind::Transient,
            None,
        ),
        (
            r#"{"type":"error","error":{"type":"invalid_request_error","message":"too large"}}"#,
            "failed to execute provider request: too large",
            ProviderErrorKind::Fatal,
            None,
        ),
        (
            r#"{"type":"error"}"#,
            "failed to execute provider request: anthropic stream error",
            ProviderErrorKind::Fatal,
            None,
        ),
    ] {
        let events = decoder.decode(&json(event), &mut ids).expect("decode event");
        let [StreamEvent::Error { error }] = events.as_slice() else {
            panic!("one error");
        };
        assert_eq!(error.message, message);
        assert_eq!(error.kind, kind);
        assert_eq!(error.backoff_hint, hint);
    }
}

#[test]
fn model_of_another_family_is_given_a_budget() {
    let mut request = sample_request(Vec::new());
    request.model.model = "mythos".to_owned();
    request.model.reasoning = Some(ReasoningEffort::Low);
    request.model.max_output_tokens = Some(2048);
    let body = encode_request(&request, &None).expect("encode").to_text();
    assert!(body.contains(r#""thinking":{"budget_tokens":1024,"type":"enabled"}"#));
    assert!(!body.contains("output_config"));
}
