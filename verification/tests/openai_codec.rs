use halter_providers::ids::IdSource;
use halter_providers::json::{Json, JsonNumber};
use halter_providers::openai_chat::{decode_chat_response, encode_chat_request};
use halter_providers::openai_codec::{
    decode_openrouter_compact_response, decode_responses_compact_response,
    decode_responses_response, encode_openrouter_compact_request, encode_responses_compact_request,
    encode_responses_request, is_responses_message_item_id, synthesized_responses_message_id,
    validate_responses_input_item_ids, ResponsesRequestOptions, RESPONSES_ITEM_ID_MAX_LEN,
};
use halter_providers::openai_stream::{
    OutputItem, OutputMessageContent, Response, ResponseStreamEvent, ResponsesStreamDecoder,
};
use halter_providers::protocol::{
    ApiKind, AssembledPrompt, AssistantMessage, AssistantPart, CacheBreakpoints, Message, MessageId,
    ProviderCompactionRequest, ProviderKind, ProviderRequest, ReasoningEffort, ResolvedModel,
    StopReason, StreamEvent, ToolAlias, ToolCall, ToolCallId, ToolName, ToolResult,
    ToolResultMessage, ToolSpec, UserMessage, UserPart,
};
use halter_providers::response_events::{parse_reply_event, read_item};
use serde_json::Value;

fn json(text: &str) -> Json {
    Json::parse(text).expect("valid json")
}

fn value(text: &str) -> Value {
    serde_json::from_str(text).expect("valid json")
}

fn shown(body: &Json) -> Value {
    value(&body.to_text())
}

fn sample_request(api_kind: ApiKind, provider_kind: ProviderKind) -> ProviderRequest {
    ProviderRequest {
        model: ResolvedModel {
            id: "model".to_owned(),
            provider: "provider".to_owned(),
            provider_kind,
            api_kind,
            model: "gpt-5".to_owned(),
            max_input_tokens: Some(200_000),
            max_output_tokens: Some(8_192),
            reasoning: Some(ReasoningEffort::Medium),
            tokens_per_minute: None,
        },
        prompt: AssembledPrompt {
            ordered_segments: Vec::new(),
            prefix_cache_key: "cache-key".to_owned(),
            rendered_prefix: "follow plan".to_owned(),
            cache_breakpoints: CacheBreakpoints {
                after_system: false,
                after_skills: false,
                after_tools: false,
                after_user_prompt: false,
            },
            system_segment_count: 0,
            skill_segment_count: 0,
        },
        compacted_prefix: Vec::new(),
        messages: vec![
            Message::User(UserMessage {
                id: MessageId("user_1".to_owned()),
                parts: vec![UserPart::Text { text: "hello".to_owned() }],
            }),
            Message::Assistant(AssistantMessage {
                id: MessageId("msg_history_1".to_owned()),
                parts: vec![
                    AssistantPart::Text { text: "checked".to_owned() },
                    AssistantPart::ToolCall(ToolCall {
                        id: ToolCallId("call_123".to_owned()),
                        name: ToolName("read".to_owned()),
                        arguments: json(r#"{"path":"README.md"}"#),
                    }),
                ],
            }),
            Message::Tool(ToolResultMessage {
                call_id: ToolCallId("call_123".to_owned()),
                content: ToolResult::Json { value: json(r#"{"ok":true}"#) },
                error: None,
            }),
        ],
        tools: vec![ToolSpec {
            name: ToolName("read".to_owned()),
            description: "Read a file".to_owned(),
            input_schema: json(r#"{"type":"object"}"#),
            provider_aliases: vec![ToolAlias { provider_kind, alias: "fs_read".to_owned() }],
        }],
        previous_response_id: None,
        new_messages_start: 0,
    }
}

fn sample_compaction_request(provider_kind: ProviderKind) -> ProviderCompactionRequest {
    let request = sample_request(ApiKind::OpenAiResponses, provider_kind);
    ProviderCompactionRequest {
        session_id: String::new(),
        model: request.model,
        compacted_prefix: vec![json(
            r#"{
                "type": "message",
                "role": "developer",
                "content": [
                    {"type": "input_text", "text": "[Compacted context]\n\nEarlier summary"}
                ]
            }"#,
        )],
        messages: request.messages,
        tools: request.tools,
        instructions: "Summarize the session".to_owned(),
    }
}

fn plain_options<'a>() -> ResponsesRequestOptions<'a> {
    ResponsesRequestOptions {
        stream: false,
        store: Some(false),
        prompt_cache_key: None,
        include_encrypted_reasoning: false,
        reasoning_summary: None,
        temperature: None,
    }
}

#[test]
fn is_responses_message_item_id_rejects_cross_provider_shapes() {
    assert!(is_responses_message_item_id("msg_abc123"));
    assert!(is_responses_message_item_id("msg_abcdef0123456789"));
    assert!(is_responses_message_item_id("msg_abc-123_xyz"));

    // Anthropic-style ids contain uppercase letters.
    assert!(!is_responses_message_item_id("msg_01ABC"));
    assert!(!is_responses_message_item_id("msg_01AbCdEf"));

    // Missing prefix or empty body.
    assert!(!is_responses_message_item_id("msg_"));
    assert!(!is_responses_message_item_id("resp_abc"));
    assert!(!is_responses_message_item_id(""));

    // Disallowed punctuation.
    assert!(!is_responses_message_item_id("msg_abc.def"));
}

fn structured_history_body(temperature: Option<&JsonNumber>) -> Value {
    let request = sample_request(ApiKind::OpenAiResponses, ProviderKind::OpenAi);
    let body = shown(
        &encode_responses_request(
            &request,
            &ResponsesRequestOptions {
                stream: false,
                store: Some(false),
                prompt_cache_key: Some(request.prompt.prefix_cache_key.as_str()),
                include_encrypted_reasoning: true,
                reasoning_summary: Some("auto"),
                temperature,
            },
        )
        .expect("encode request"),
    );

    assert_eq!(body["prompt_cache_key"], "cache-key");
    assert_eq!(body["store"], false);
    assert_eq!(body["stream"], false);
    assert_eq!(body["include"], value(r#"["reasoning.encrypted_content"]"#));
    assert_eq!(body["reasoning"]["effort"], "medium");
    assert_eq!(body["reasoning"]["summary"], "auto");
    assert!(body["input"]
        .as_array()
        .expect("input")
        .iter()
        .any(|item| item["type"] == "function_call_output"));
    assert!(body["input"].as_array().expect("input").iter().any(|item| {
        item["type"] == "message"
            && item["role"] == "assistant"
            && item["id"] == "msg_history_1"
            && item["status"] == "completed"
    }));
    assert!(body["tools"]
        .as_array()
        .expect("tools")
        .iter()
        .any(|tool| tool["name"] == "fs_read"));
    body
}

#[test]
fn openai_codec_openai_responses_request_includes_prompt_cache_key_and_structured_history() {
    let body = structured_history_body(Some(&JsonNumber::Float("0.5".to_owned())));
    assert_eq!(body["temperature"], 0.5_f32);
}

#[test]
fn mod_openai_responses_request_includes_prompt_cache_key_and_structured_history() {
    let body = structured_history_body(None);
    assert!(body.get("temperature").is_none());
}

fn invalid_assistant_id_is_left_out(temperature: Option<&JsonNumber>) {
    let mut request = sample_request(ApiKind::OpenAiResponses, ProviderKind::OpenAi);
    let Message::Assistant(assistant) = &mut request.messages[1] else {
        panic!("expected assistant history");
    };
    assistant.id = MessageId("resp_123".to_owned());

    let options = ResponsesRequestOptions { temperature, ..plain_options() };
    let body = shown(&encode_responses_request(&request, &options).expect("encode request"));

    let assistant_message = body["input"]
        .as_array()
        .expect("input")
        .iter()
        .find(|item| item["type"] == "message" && item["role"] == "assistant")
        .expect("assistant message");
    assert!(assistant_message.get("id").is_none());
}

#[test]
fn openai_codec_openai_responses_request_omits_invalid_assistant_message_ids() {
    invalid_assistant_id_is_left_out(Some(&JsonNumber::Float("1.0".to_owned())));
}

#[test]
fn mod_openai_responses_request_omits_invalid_assistant_message_ids() {
    invalid_assistant_id_is_left_out(None);
}

fn openai_only_fields_are_left_out(temperature: Option<&JsonNumber>) {
    let request = sample_request(ApiKind::OpenAiResponses, ProviderKind::OpenRouter);
    let options =
        ResponsesRequestOptions { stream: true, store: None, temperature, ..plain_options() };
    let body = shown(&encode_responses_request(&request, &options).expect("encode request"));
    let input = body["input"].as_array().expect("input");

    assert!(body.get("store").is_none());
    assert!(body.get("prompt_cache_key").is_none());
    assert!(body.get("include").is_none());
    assert_eq!(body["reasoning"]["effort"], "medium");
    assert!(body["reasoning"].get("summary").is_none());
    assert!(input.iter().any(|item| {
        item["type"] == "function_call"
            && item["id"] == "fc_call_123"
            && item["call_id"] == "call_123"
    }));
    assert!(input.iter().any(|item| {
        item["type"] == "function_call_output"
            && item["id"] == "fc_output_call_123"
            && item["call_id"] == "call_123"
    }));
}

#[test]
fn openai_codec_openrouter_responses_request_omits_openai_only_fields() {
    openai_only_fields_are_left_out(Some(&JsonNumber::Float("1.0".to_owned())));
}

#[test]
fn mod_openrouter_responses_request_omits_openai_only_fields() {
    openai_only_fields_are_left_out(None);
}

fn compaction_request_has_responses_shape() {
    let request = sample_compaction_request(ProviderKind::OpenRouter);
    let body =
        shown(&encode_openrouter_compact_request(&request).expect("encode compaction request"));
    let input = body["input"].as_array().expect("input");

    assert_eq!(body["model"], "gpt-5");
    assert_eq!(body["instructions"], "Summarize the session");
    assert_eq!(body["stream"], false);
    assert_eq!(body["store"], false);
    assert!(input.iter().any(|item| item["role"] == "developer"));
    assert!(input.iter().any(|item| item["role"] == "user"));
    assert!(input.iter().any(|item| item["type"] == "function_call"));
    assert!(input.iter().any(|item| item["type"] == "function_call_output"));
}

#[test]
fn openai_codec_openrouter_compaction_request_uses_responses_shape() {
    compaction_request_has_responses_shape();
}

#[test]
fn mod_openrouter_compaction_request_uses_responses_shape() {
    compaction_request_has_responses_shape();
}

#[test]
fn openai_codec_openrouter_compaction_response_wraps_summary_in_developer_message() {
    let response = json(
        r###"{
            "output": [
                {"type": "reasoning", "summary": [{"text": "ignore reasoning"}]},
                {
                    "type": "message",
                    "content": [
                        {"type": "output_text", "text": "## User Intent"},
                        {"type": "output_text", "text": "\n- finish the fix"}
                    ]
                },
                {
                    "type": "message",
                    "content": [{"type": "output_text", "text": "## Completed Work"}]
                }
            ],
            "usage": {
                "input_tokens": 17,
                "output_tokens": 9,
                "input_tokens_details": {"cache_creation_tokens": 0, "cached_tokens": 0}
            }
        }"###,
    );

    let decoded = decode_openrouter_compact_response(&response).expect("decode compaction response");

    assert_eq!(decoded.usage.input_tokens, 17);
    assert_eq!(decoded.usage.output_tokens, 9);
    assert_eq!(decoded.output.len(), 1);
    assert_eq!(
        shown(&decoded.output[0]),
        value(
            r###"{
                "type": "message",
                "role": "developer",
                "content": [
                    {
                        "type": "input_text",
                        "text": "<compaction>\n## User Intent\n- finish the fix\n\n## Completed Work\n</compaction>"
                    }
                ]
            }"###
        )
    );
}

fn empty_compaction_text_gives_empty_output() {
    let response = json(
        r#"{
            "output": [
                {"type": "reasoning", "summary": [{"text": "ignore"}]},
                {"type": "function_call", "name": "read"}
            ],
            "usage": {"input_tokens": 1, "output_tokens": 0}
        }"#,
    );

    let decoded = decode_openrouter_compact_response(&response).expect("decode compaction response");

    assert!(decoded.output.is_empty());
    assert_eq!(decoded.usage.input_tokens, 1);
}

#[test]
fn openai_codec_openrouter_compaction_response_returns_empty_output_for_empty_text() {
    empty_compaction_text_gives_empty_output();
}

#[test]
fn mod_openrouter_compaction_response_returns_empty_output_for_empty_text() {
    empty_compaction_text_gives_empty_output();
}

fn legacy_ids_are_bounded(temperature: Option<&JsonNumber>) {
    let mut request = sample_request(ApiKind::OpenAiResponses, ProviderKind::OpenAi);
    let long_response_id = "resp_06e44240522f2cae0169ddd62f88908190a4bc4203232681a5";
    let long_call_id = "call_1234567890abcdef1234567890abcdef1234567890abcdef12345".to_owned();
    let legacy_message_id = format!("msg_response_{long_response_id}");

    let Message::Assistant(assistant) = &mut request.messages[1] else {
        panic!("expected assistant history");
    };
    assistant.id = MessageId(legacy_message_id.clone());
    let tool_call = assistant
        .parts
        .iter_mut()
        .find_map(|part| match part {
            AssistantPart::ToolCall(call) => Some(call),
            _ => None,
        })
        .expect("assistant tool call");
    tool_call.id = ToolCallId(long_call_id.clone());

    let Message::Tool(tool) = &mut request.messages[2] else {
        panic!("expected tool message");
    };
    tool.call_id = ToolCallId(long_call_id.clone());

    let options = ResponsesRequestOptions { temperature, ..plain_options() };
    let body = shown(&encode_responses_request(&request, &options).expect("encode request"));

    let input = body["input"].as_array().expect("input");
    for item in input {
        if let Some(id) = item.get("id").and_then(Value::as_str) {
            assert!(id.len() <= RESPONSES_ITEM_ID_MAX_LEN, "expected bounded input id, got {id}");
        }
    }

    let assistant_message = input
        .iter()
        .find(|item| item["type"] == "message" && item["role"] == "assistant")
        .expect("assistant message");
    let assistant_id = assistant_message["id"].as_str().expect("assistant message id");
    assert!(assistant_id.starts_with("msg_response_"));
    assert!(assistant_id.len() <= RESPONSES_ITEM_ID_MAX_LEN);
    assert_ne!(assistant_id, legacy_message_id);

    let function_call =
        input.iter().find(|item| item["type"] == "function_call").expect("function call");
    assert_eq!(function_call["call_id"], long_call_id);
    let call_item_id = function_call["id"].as_str().expect("function call id");
    assert!(call_item_id.starts_with("fc_"));
    assert!(call_item_id.len() <= RESPONSES_ITEM_ID_MAX_LEN);

    let function_call_output = input
        .iter()
        .find(|item| item["type"] == "function_call_output")
        .expect("function call output");
    assert_eq!(function_call_output["call_id"], long_call_id);
    let output_item_id = function_call_output["id"].as_str().expect("function call output id");
    assert!(output_item_id.starts_with("fc_output_"));
    assert!(output_item_id.len() <= RESPONSES_ITEM_ID_MAX_LEN);
}

#[test]
fn openai_codec_openai_responses_request_bounds_legacy_message_and_tool_item_ids() {
    legacy_ids_are_bounded(Some(&JsonNumber::Float("1.0".to_owned())));
}

#[test]
fn mod_openai_responses_request_bounds_legacy_message_and_tool_item_ids() {
    legacy_ids_are_bounded(None);
}

fn synthesized_id_is_bounded() {
    let response_id = "resp_06e44240522f2cae0169ddd62f88908190a4bc4203232681a5";

    let message_id = synthesized_responses_message_id(response_id);

    assert!(message_id.0.starts_with("msg_response_"));
    assert!(message_id.0.len() <= RESPONSES_ITEM_ID_MAX_LEN);
}

#[test]
fn openai_codec_synthesized_responses_message_id_stays_within_limit() {
    synthesized_id_is_bounded();
}

#[test]
fn mod_synthesized_responses_message_id_stays_within_limit() {
    synthesized_id_is_bounded();
}

fn overlong_ids_are_refused() {
    let overlong_id = "x".repeat(RESPONSES_ITEM_ID_MAX_LEN + 1);
    let input = vec![json(&format!("{{\"type\":\"message\",\"id\":\"{overlong_id}\"}}"))];

    let error = validate_responses_input_item_ids(&input).expect_err("expected validation failure");

    assert_eq!(
        error.message,
        "failed to encode openai responses request: input[0].id length 65 exceeds 64"
    );
}

#[test]
fn openai_codec_validate_responses_input_item_ids_rejects_overlong_ids() {
    overlong_ids_are_refused();
}

#[test]
fn mod_validate_responses_input_item_ids_rejects_overlong_ids() {
    overlong_ids_are_refused();
}

#[test]
fn ids_of_the_longest_length_are_accepted() {
    let longest_id = "x".repeat(RESPONSES_ITEM_ID_MAX_LEN);
    let input = vec![json(&format!("{{\"type\":\"message\",\"id\":\"{longest_id}\"}}"))];

    assert!(validate_responses_input_item_ids(&input).is_ok());
}

fn any_text(events: &[StreamEvent], text: &str) -> bool {
    events
        .iter()
        .any(|event| matches!(event, StreamEvent::TextDelta { delta, .. } if delta == text))
}

fn any_tool(events: &[StreamEvent], tool: &str) -> bool {
    events
        .iter()
        .any(|event| matches!(event, StreamEvent::ToolCallStart { name, .. } if name.0 == tool))
}

fn any_cached(events: &[StreamEvent], tokens: u64) -> bool {
    events.iter().any(|event| {
        matches!(
            event,
            StreamEvent::UsageUpdate { usage } if usage.cache_read_input_tokens == tokens
        )
    })
}

fn any_start(events: &[StreamEvent], message: &str) -> bool {
    events
        .iter()
        .any(|event| matches!(event, StreamEvent::MessageStart { id } if id.0 == message))
}

fn ends_with_tool_use(events: &[StreamEvent]) -> bool {
    events.iter().any(|event| {
        matches!(
            event,
            StreamEvent::MessageEnd { stop_reason, .. } if *stop_reason == StopReason::ToolUse
        )
    })
}

#[test]
fn chat_response_maps_text_and_function_calls() {
    let request = sample_request(ApiKind::OpenAiChat, ProviderKind::OpenRouter);
    let response = json(
        r#"{
            "id": "chatcmpl_123",
            "choices": [
                {
                    "finish_reason": "tool_calls",
                    "message": {
                        "role": "assistant",
                        "content": "done",
                        "tool_calls": [
                            {
                                "id": "call_123",
                                "type": "function",
                                "function": {
                                    "name": "fs_read",
                                    "arguments": "{\"path\":\"README.md\"}"
                                }
                            }
                        ]
                    }
                }
            ],
            "usage": {
                "prompt_tokens": 12,
                "completion_tokens": 4,
                "prompt_tokens_details": {"cached_tokens": 3}
            }
        }"#,
    );

    let mut ids = IdSource::new("block");
    let events = decode_chat_response(&request, &response, &mut ids).expect("decode response");

    assert!(any_text(&events, "done"));
    assert!(any_tool(&events, "read"));
    assert!(any_cached(&events, 3));
    assert!(ends_with_tool_use(&events));
}

#[test]
fn chat_request_uses_tool_messages_and_aliases() {
    let request = sample_request(ApiKind::OpenAiChat, ProviderKind::OpenRouter);
    let body = shown(&encode_chat_request(&request, false).expect("encode chat"));
    let messages = body["messages"].as_array().expect("messages");

    assert_eq!(messages[0]["role"], "system");
    assert!(messages.iter().any(|message| message["role"] == "tool"));
    assert!(body["tools"]
        .as_array()
        .expect("tools")
        .iter()
        .any(|tool| tool["function"]["name"] == "fs_read"));
}

fn whole_reply_is_mapped() {
    let request = sample_request(ApiKind::OpenAiResponses, ProviderKind::OpenAi);
    let response = json(
        r#"{
            "id": "resp_123",
            "output": [
                {
                    "type": "message",
                    "content": [{"type": "output_text", "text": "done"}]
                },
                {
                    "type": "function_call",
                    "call_id": "call_123",
                    "name": "fs_read",
                    "arguments": "{\"path\":\"README.md\"}"
                }
            ],
            "usage": {
                "input_tokens": 12,
                "output_tokens": 4,
                "input_tokens_details": {"cached_tokens": 3}
            }
        }"#,
    );

    let mut ids = IdSource::new("block");
    let events = decode_responses_response(&request, &response, &mut ids);

    assert!(any_text(&events, "done"));
    assert!(any_tool(&events, "read"));
    assert!(any_cached(&events, 3));
}

#[test]
fn openai_codec_responses_response_maps_text_and_function_calls() {
    whole_reply_is_mapped();
}

#[test]
fn mod_responses_response_maps_text_and_function_calls() {
    whole_reply_is_mapped();
}

fn tool_only_reply_has_a_stable_id() {
    let request = sample_request(ApiKind::OpenAiResponses, ProviderKind::OpenAi);
    let response = json(
        r#"{
            "id": "resp_123",
            "output": [
                {
                    "type": "function_call",
                    "call_id": "call_123",
                    "name": "fs_read",
                    "arguments": "{\"path\":\"README.md\"}"
                }
            ],
            "usage": {"input_tokens": 1, "output_tokens": 1}
        }"#,
    );

    let mut ids = IdSource::new("block");
    let events = decode_responses_response(&request, &response, &mut ids);

    assert!(any_start(&events, "msg_response_resp_123"));
}

#[test]
fn openai_codec_responses_response_uses_stable_tool_only_message_id() {
    tool_only_reply_has_a_stable_id();
}

#[test]
fn mod_responses_response_uses_stable_tool_only_message_id() {
    tool_only_reply_has_a_stable_id();
}

#[test]
fn native_compaction_output_is_passed_on() {
    let response = json(
        r#"{
            "output": [{"type": "compaction", "encrypted_content": "enc"}],
            "usage": {"input_tokens": 8, "output_tokens": 2}
        }"#,
    );

    let decoded = decode_responses_compact_response(&response).expect("decode compaction");

    assert_eq!(decoded.usage.input_tokens, 8);
    assert_eq!(
        shown(&decoded.output[0]),
        value(r#"{"type": "compaction", "encrypted_content": "enc"}"#)
    );
    assert!(decode_responses_compact_response(&json("{}")).is_err());
}

#[test]
fn native_compaction_request_keeps_the_compacted_prefix_first() {
    let request = sample_compaction_request(ProviderKind::OpenAi);
    let body = shown(&encode_responses_compact_request(&request).expect("encode compaction"));

    assert_eq!(body["model"], "gpt-5");
    assert_eq!(body["input"][0]["role"], "developer");
    assert_eq!(body["input"][1]["role"], "user");
}

const CREATED: &str = r#"{
    "type": "response.created",
    "sequence_number": 0,
    "response": {
        "id": "resp_123",
        "created_at": 0,
        "model": "gpt-5",
        "object": "response",
        "output": [],
        "status": "in_progress"
    }
}"#;

fn completed(sequence_number: u64, cached_tokens: u64, reasoning_tokens: u64) -> String {
    format!(
        r#"{{
            "type": "response.completed",
            "sequence_number": {sequence_number},
            "response": {{
                "id": "resp_123",
                "created_at": 0,
                "model": "gpt-5",
                "object": "response",
                "output": [],
                "status": "completed",
                "usage": {{
                    "input_tokens": 12,
                    "input_tokens_details": {{"cached_tokens": {cached_tokens}}},
                    "output_tokens": 4,
                    "output_tokens_details": {{"reasoning_tokens": {reasoning_tokens}}},
                    "total_tokens": 16
                }}
            }}
        }}"#
    )
}

fn tool_added(sequence_number: u64, output_index: u32) -> String {
    format!(
        r#"{{
            "type": "response.output_item.added",
            "sequence_number": {sequence_number},
            "output_index": {output_index},
            "item": {{
                "type": "function_call",
                "id": "fc_1",
                "call_id": "call_123",
                "name": "fs_read",
                "arguments": "",
                "status": "in_progress"
            }}
        }}"#
    )
}

fn tool_done(sequence_number: u64, output_index: u32) -> String {
    format!(
        r#"{{
            "type": "response.output_item.done",
            "sequence_number": {sequence_number},
            "output_index": {output_index},
            "item": {{
                "type": "function_call",
                "id": "fc_1",
                "call_id": "call_123",
                "name": "fs_read",
                "arguments": "{{\"path\":\"README.md\"}}",
                "status": "completed"
            }}
        }}"#
    )
}

fn arguments_delta(sequence_number: u64, output_index: u32) -> String {
    format!(
        r#"{{
            "type": "response.function_call_arguments.delta",
            "sequence_number": {sequence_number},
            "item_id": "fc_1",
            "output_index": {output_index},
            "delta": "{{\"path\":"
        }}"#
    )
}

fn arguments_done(sequence_number: u64, output_index: u32) -> String {
    format!(
        r#"{{
            "type": "response.function_call_arguments.done",
            "sequence_number": {sequence_number},
            "item_id": "fc_1",
            "output_index": {output_index},
            "arguments": "{{\"path\":\"README.md\"}}"
        }}"#
    )
}

fn decode_all(stream_events: &[String]) -> Vec<StreamEvent> {
    let request = sample_request(ApiKind::OpenAiResponses, ProviderKind::OpenAi);
    let mut decoder = ResponsesStreamDecoder::new(&request, true);
    let mut ids = IdSource::new("block");
    let mut decoded = Vec::new();
    for event in stream_events {
        let event = parse_reply_event(event).expect("parse stream event");
        decoded.extend(decoder.decode(&event, &mut ids).expect("decode stream event"));
    }
    decoded
}

fn streamed_reply_is_mapped() {
    let message_added = r#"{
        "type": "response.output_item.added",
        "sequence_number": 1,
        "output_index": 0,
        "item": {
            "type": "message",
            "id": "msg_1",
            "role": "assistant",
            "status": "in_progress",
            "content": []
        }
    }"#;
    let text_delta = r#"{
        "type": "response.output_text.delta",
        "sequence_number": 2,
        "item_id": "msg_1",
        "output_index": 0,
        "content_index": 0,
        "delta": "done"
    }"#;
    let message_done = r#"{
        "type": "response.output_item.done",
        "sequence_number": 3,
        "output_index": 0,
        "item": {
            "type": "message",
            "id": "msg_1",
            "role": "assistant",
            "status": "completed",
            "content": [{"type": "output_text", "text": "done", "annotations": []}]
        }
    }"#;
    let reasoning_added = r#"{
        "type": "response.output_item.added",
        "sequence_number": 4,
        "output_index": 1,
        "item": {"type": "reasoning", "id": "rs_1", "summary": [], "status": "in_progress"}
    }"#;
    let summary_part_added = r#"{
        "type": "response.reasoning_summary_part.added",
        "sequence_number": 5,
        "item_id": "rs_1",
        "output_index": 1,
        "summary_index": 0,
        "part": {"type": "summary_text", "text": ""}
    }"#;
    let summary_delta = r#"{
        "type": "response.reasoning_summary_text.delta",
        "sequence_number": 6,
        "item_id": "rs_1",
        "output_index": 1,
        "summary_index": 0,
        "delta": "think"
    }"#;
    let reasoning_done = r#"{
        "type": "response.output_item.done",
        "sequence_number": 7,
        "output_index": 1,
        "item": {
            "type": "reasoning",
            "id": "rs_1",
            "summary": [{"type": "summary_text", "text": "think"}],
            "encrypted_content": "enc_123",
            "status": "completed"
        }
    }"#;
    let decoded = decode_all(&[
        CREATED.to_owned(),
        message_added.to_owned(),
        text_delta.to_owned(),
        message_done.to_owned(),
        reasoning_added.to_owned(),
        summary_part_added.to_owned(),
        summary_delta.to_owned(),
        reasoning_done.to_owned(),
        tool_added(8, 2),
        arguments_delta(9, 2),
        arguments_done(10, 2),
        tool_done(11, 2),
        completed(12, 3, 1),
    ]);

    assert!(any_start(&decoded, "msg_1"));
    assert!(any_text(&decoded, "done"));
    assert!(decoded.iter().any(|event| matches!(
        event,
        StreamEvent::ThinkingDelta { delta, .. } if delta == "think"
    )));
    assert!(decoded.iter().any(|event| matches!(
        event,
        StreamEvent::ThinkingEnd { signature, .. } if signature.as_deref() == Some("enc_123")
    )));
    assert!(any_tool(&decoded, "read"));
    assert!(decoded.iter().any(|event| matches!(
        event,
        StreamEvent::ToolArgsDelta { delta, .. } if delta.contains("README.md")
    )));
    assert!(any_cached(&decoded, 3));
    assert!(ends_with_tool_use(&decoded));
}

#[test]
fn openai_codec_responses_stream_decoder_maps_text_reasoning_tool_calls_and_usage() {
    streamed_reply_is_mapped();
}

#[test]
fn mod_responses_stream_decoder_maps_text_reasoning_tool_calls_and_usage() {
    streamed_reply_is_mapped();
}

fn tool_only_stream_has_its_own_message_id() {
    let decoded = decode_all(&[
        CREATED.to_owned(),
        tool_added(1, 0),
        arguments_done(2, 0),
        tool_done(3, 0),
        completed(4, 0, 0),
    ]);

    assert!(any_start(&decoded, "msg_response_resp_123"));
    assert!(any_tool(&decoded, "read"));
}

#[test]
fn openai_codec_responses_stream_decoder_does_not_reuse_response_id_for_tool_only_turns() {
    tool_only_stream_has_its_own_message_id();
}

#[test]
fn mod_responses_stream_decoder_does_not_reuse_response_id_for_tool_only_turns() {
    tool_only_stream_has_its_own_message_id();
}

fn tool_call_is_reported_once(stream_events: &[String]) {
    let decoded = decode_all(stream_events);
    let count = |wanted: fn(&StreamEvent) -> bool| {
        decoded.iter().filter(|event| wanted(event)).count()
    };

    assert_eq!(count(|event| matches!(event, StreamEvent::ToolCallStart { .. })), 1);
    assert_eq!(count(|event| matches!(event, StreamEvent::ToolArgsDelta { .. })), 2);
    assert_eq!(count(|event| matches!(event, StreamEvent::ToolCallEnd { .. })), 1);
}

#[test]
fn openai_codec_responses_stream_decoder_ignores_duplicate_tool_completion_events() {
    tool_call_is_reported_once(&[
        CREATED.to_owned(),
        tool_added(1, 0),
        arguments_delta(2, 0),
        arguments_done(3, 0),
        tool_done(4, 0),
    ]);
}

#[test]
fn mod_responses_stream_decoder_ignores_duplicate_tool_completion_events() {
    tool_call_is_reported_once(&[
        CREATED.to_owned(),
        tool_added(1, 0),
        arguments_delta(2, 0),
        arguments_done(3, 0),
        tool_done(4, 0),
        tool_done(5, 0),
    ]);
}

#[test]
fn reply_events_keep_what_the_decoder_reads() {
    let incomplete = r#"{
        "type": "response.incomplete",
        "sequence_number": 3,
        "response": {
            "id": "resp_9",
            "created_at": 0,
            "model": "gpt-5",
            "object": "response",
            "output": [],
            "status": "incomplete",
            "incomplete_details": {"reason": "max_output_tokens"}
        }
    }"#;
    let event = parse_reply_event(incomplete).expect("parse stream event");
    let ResponseStreamEvent::ResponseIncomplete { response } = event else {
        panic!("incomplete response");
    };
    assert_eq!(response.id, "resp_9");
    assert_eq!(response.incomplete_reason.as_deref(), Some("max_output_tokens"));
    assert!(response.usage.is_none());
    assert!(response.error_message.is_none());

    let reasoning = read_item(&json(
        r#"{"type":"reasoning","summary":[],"content":[{"text":"first"},{"text":"second"}]}"#,
    ));
    let OutputItem::Reasoning(reasoning) = reasoning else {
        panic!("reasoning item");
    };
    assert_eq!(reasoning.content, Some(vec!["first".to_owned(), "second".to_owned()]));

    let refusal = read_item(&json(
        r#"{"type":"message","id":"msg_1","content":[{"type":"refusal","refusal":"no"}]}"#,
    ));
    let OutputItem::Message(message) = refusal else {
        panic!("message item");
    };
    assert!(matches!(&message.content[0], OutputMessageContent::Refusal(text) if text == "no"));
    assert!(matches!(read_item(&json(r#"{"type":"web_search_call"}"#)), OutputItem::Other));
}

#[test]
fn failed_and_reported_errors_end_the_stream() {
    let failed = ResponseStreamEvent::ResponseFailed {
        response: Response {
            id: "resp_123".to_owned(),
            usage: None,
            incomplete_reason: None,
            error_message: Some("model overheated".to_owned()),
        },
    };
    let request = sample_request(ApiKind::OpenAiResponses, ProviderKind::OpenAi);
    let mut decoder = ResponsesStreamDecoder::new(&request, true);
    let mut ids = IdSource::new("block");

    let outcome = decoder.decode(&failed, &mut ids).expect_err("failed response");
    assert!(outcome.message.contains("model overheated"));

    let reported = ResponseStreamEvent::ResponseError { message: "broken pipe".to_owned() };
    let outcome = decoder.decode(&reported, &mut ids).expect_err("reported error");
    assert!(outcome.message.contains("broken pipe"));
}
