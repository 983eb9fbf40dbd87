use std::collections::{BTreeMap, BTreeSet};

use halter_providers::anthropic_codec::{
    decode_compaction_response, decode_response, encode_stream_request,
};
use halter_providers::anthropic_stream::AnthropicStreamDecoder;
use halter_providers::fake::FakeProvider;
use halter_providers::ids::IdSource;
use halter_providers::json::Json;
use halter_providers::message_collector::MessageCollector;
use halter_providers::openai_chat::decode_chat_response;
use halter_providers::openai_codec::{
    decode_openrouter_compact_response, decode_responses_response, encode_responses_request,
    ResponsesRequestOptions,
};
use halter_providers::openai_stream::{
    FunctionToolCall, OutputItem, OutputMessage, OutputMessageContent, Response,
    ResponseStreamEvent, ResponsesStreamDecoder,
};
use halter_providers::protocol::{
    ApiKind, AssembledPrompt, AssistantMessage, AssistantPart, BlockId, CacheBreakpoints, Message,
    MessageId, ProviderKind, ProviderRequest, ResolvedModel, StreamEvent, ToolCall, ToolCallId,
    ToolName, ToolResult, ToolResultMessage, UserMessage, UserPart,
};
use serde_json::Value;

fn json(text: &str) -> Json {
    Json::parse(text).expect("valid json")
}

fn shown(body: &Json) -> Value {
    serde_json::from_str(&body.to_text()).expect("valid json")
}

fn user(text: &str) -> Message {
    Message::User(UserMessage {
        id: MessageId("user".to_owned()),
        parts: vec![UserPart::Text { text: text.to_owned() }],
    })
}

fn request(api_kind: ApiKind, provider_kind: ProviderKind) -> ProviderRequest {
    ProviderRequest {
        model: ResolvedModel {
            id: "model".to_owned(),
            provider: "provider".to_owned(),
            provider_kind,
            api_kind,
            model: "model-1".to_owned(),
            max_input_tokens: None,
            max_output_tokens: None,
            reasoning: None,
            tokens_per_minute: None,
        },
        prompt: AssembledPrompt {
            ordered_segments: Vec::new(),
            prefix_cache_key: String::new(),
            rendered_prefix: "follow plan".to_owned(),
            cache_breakpoints: CacheBreakpoints {
                after_system: false,
                after_skills: false,
                after_tools: false,
                after_user_prompt: false,
            },
            system_segment_count: 0,
            skill_segment_count: 0,
        },
        compacted_prefix: Vec::new(),
        messages: vec![
            user("first"),
            Message::Assistant(AssistantMessage {
                id: MessageId("msg_a1".to_owned()),
                parts: vec![AssistantPart::ToolCall(ToolCall {
                    id: ToolCallId("call one".to_owned()),
                    name: ToolName("read".to_owned()),
                    arguments: json("{}"),
                })],
            }),
            Message::Tool(ToolResultMessage {
                call_id: ToolCallId("call one".to_owned()),
                content: ToolResult::Text { text: "done".to_owned() },
                error: None,
            }),
            user("second"),
        ],
        tools: Vec::new(),
        previous_response_id: None,
        new_messages_start: 0,
    }
}

fn messages_request() -> ProviderRequest {
    request(ApiKind::AnthropicMessages, ProviderKind::Anthropic)
}

fn responses_request() -> ProviderRequest {
    request(ApiKind::OpenAiResponses, ProviderKind::OpenAi)
}

fn responses_body(request: &ProviderRequest) -> Value {
    let options = ResponsesRequestOptions {
        stream: true,
        store: None,
        prompt_cache_key: None,
        include_encrypted_reasoning: false,
        reasoning_summary: None,
        temperature: None,
    };
    shown(&encode_responses_request(request, &options).expect("encode request"))
}

/// The blocks that are still open, if every event was allowed: no block is opened
/// twice, not even after it was closed.
fn open_blocks(events: &[StreamEvent]) -> Option<BTreeMap<String, &'static str>> {
    let mut open: BTreeMap<String, &'static str> = BTreeMap::new();
    let mut closed: BTreeSet<String> = BTreeSet::new();
    for event in events {
        let (id, kind, step): (&BlockId, &'static str, u8) = match event {
            StreamEvent::TextStart { id } => (id, "text", 0),
            StreamEvent::TextDelta { id, .. } => (id, "text", 1),
            StreamEvent::TextEnd { id } => (id, "text", 2),
            StreamEvent::ThinkingStart { id } => (id, "thinking", 0),
            StreamEvent::ThinkingDelta { id, .. } => (id, "thinking", 1),
            StreamEvent::ThinkingEnd { id, .. } => (id, "thinking", 2),
            StreamEvent::ToolCallStart { id, .. } => (id, "tool", 0),
            StreamEvent::ToolArgsDelta { id, .. } => (id, "tool", 1),
            StreamEvent::ToolCallEnd { id } => (id, "tool", 2),
            _ => continue,
        };
        let known = open.get(&id.0).copied();
        match step {
            0 if known.is_none() && !closed.contains(&id.0) => {
                open.insert(id.0.clone(), kind);
            }
            1 if known == Some(kind) => {}
            2 if known == Some(kind) => {
                open.remove(&id.0);
                closed.insert(id.0.clone());
            }
            _ => return None,
        }
    }
    Some(open)
}

/// Every end of a message comes after its start and goes by its name.
fn ends_match(events: &[StreamEvent]) -> bool {
    let mut started = None;
    events.iter().all(|event| match event {
        StreamEvent::MessageStart { id } => started.replace(id).is_none(),
        StreamEvent::MessageEnd { id, .. } => started == Some(id),
        _ => true,
    })
}

fn starts(events: &[StreamEvent]) -> usize {
    events.iter().filter(|event| matches!(event, StreamEvent::MessageStart { .. })).count()
}

#[test]
fn anthropic_streams_are_bracketed() {
    let mut decoder = AnthropicStreamDecoder::new(&messages_request());
    let mut ids = IdSource::new("block");
    let mut events = Vec::new();
    for event in [
        r#"{"type":"message_start","message":{"id":"msg_1"}}"#,
        r#"{"type":"content_block_start","index":0,"content_block":{"type":"text","text":"a"}}"#,
        r#"{"type":"content_block_start","index":0,"content_block":{"type":"text","text":"b"}}"#,
        r#"{"type":"content_block_delta","index":0,"delta":{"type":"text_delta","text":"c"}}"#,
        r#"{"type":"content_block_delta","index":7,"delta":{"type":"text_delta","text":"d"}}"#,
        r#"{"type":"content_block_start","index":1,"content_block":{"type":"tool_use","id":"t","name":"read","input":{"k":1}}}"#,
        r#"{"type":"content_block_stop","index":0}"#,
        r#"{"type":"content_block_stop","index":0}"#,
    ] {
        if let Ok(decoded) = decoder.decode(&json(event), &mut ids) {
            events.extend(decoded);
        }
    }

    assert!(open_blocks(&events).is_some());
}

fn call(arguments: &str) -> OutputItem {
    OutputItem::FunctionCall(FunctionToolCall {
        id: Some("fc_1".to_owned()),
        call_id: "call_1".to_owned(),
        name: "read".to_owned(),
        arguments: arguments.to_owned(),
    })
}

fn message(text: &str) -> OutputItem {
    OutputItem::Message(OutputMessage {
        id: "msg_1".to_owned(),
        content: vec![OutputMessageContent::OutputText(text.to_owned())],
    })
}

fn completed() -> ResponseStreamEvent {
    ResponseStreamEvent::ResponseCompleted {
        response: Response {
            id: "resp_1".to_owned(),
            usage: None,
            incomplete_reason: None,
            error_message: None,
        },
    }
}

#[test]
fn responses_streams_are_bracketed_and_start_once() {
    let mut decoder = ResponsesStreamDecoder::new(&responses_request(), true);
    let mut ids = IdSource::new("block");
    let mut events = Vec::new();
    for event in [
        ResponseStreamEvent::ResponseOutputItemAdded { output_index: 0, item: message("he") },
        ResponseStreamEvent::ResponseOutputTextDelta { delta: "ll".to_owned() },
        ResponseStreamEvent::ResponseReasoningSummaryPartAdded,
        ResponseStreamEvent::ResponseReasoningSummaryTextDelta { delta: "why".to_owned() },
        ResponseStreamEvent::ResponseReasoningTextDelta { delta: "dropped".to_owned() },
        ResponseStreamEvent::ResponseOutputItemAdded { output_index: 1, item: call("{") },
        ResponseStreamEvent::ResponseFunctionCallArgumentsDelta {
            item_id: "elsewhere".to_owned(),
            delta: "x".to_owned(),
        },
        ResponseStreamEvent::ResponseOutputItemDone { output_index: 0, item: message("hello") },
        ResponseStreamEvent::ResponseOutputItemDone { output_index: 1, item: call("{}") },
        ResponseStreamEvent::ResponseOutputItemAdded { output_index: 1, item: call("{}") },
        completed(),
        completed(),
    ] {
        if let Ok(decoded) = decoder.decode(&event, &mut ids) {
            events.extend(decoded);
        }
    }

    assert!(open_blocks(&events).is_some());
    assert_eq!(starts(&events), 1);
    assert!(ends_match(&events));
    let text: String = events
        .iter()
        .filter_map(|event| match event {
            StreamEvent::TextDelta { delta, .. } => Some(delta.as_str()),
            _ => None,
        })
        .collect();
    assert_eq!(text, "hello", "a finished text is complete");
}

#[test]
fn whole_replies_close_their_blocks() {
    let mut ids = IdSource::new("block");
    let anthropic = decode_response(
        &messages_request(),
        &json(
            r#"{"content":[{"type":"thinking","thinking":"hm"},{"type":"text","text":"hi"},
                {"type":"tool_use","name":"read"},{"type":"image"}]}"#,
        ),
        &mut ids,
    );
    let responses = decode_responses_response(
        &responses_request(),
        &json(
            r#"{"output":[{"type":"reasoning","summary":["hm"]},
                {"type":"message","content":[{"text":"hi"},{"output_text":"ho"}]},
                {"type":"function_call","name":"read"}]}"#,
        ),
        &mut ids,
    );
    let chat = decode_chat_response(
        &request(ApiKind::OpenAiChat, ProviderKind::OpenRouter),
        &json(
            r#"{"choices":[{"message":{"content":"hi","tool_calls":[{"function":{"name":"read"}}]}}]}"#,
        ),
        &mut ids,
    )
    .expect("decode chat");

    for events in [&anthropic, &responses, &chat] {
        assert_eq!(open_blocks(events), Some(BTreeMap::new()));
        assert_eq!(starts(events), 1);
        assert!(events.len() > 6);
    }
}

#[test]
fn chat_replies_without_a_message_are_refused() {
    let mut ids = IdSource::new("block");
    let request = request(ApiKind::OpenAiChat, ProviderKind::OpenRouter);

    let refused = decode_chat_response(&request, &json("{}"), &mut ids).expect_err("no choice");
    assert_eq!(refused.message, "failed to decode openai chat response: missing first choice");

    let refused = decode_chat_response(&request, &json(r#"{"choices":[{}]}"#), &mut ids)
        .expect_err("no message");
    assert_eq!(refused.message, "failed to decode openai chat response: missing message");
}

#[test]
fn echo_is_collected() {
    let mut ids = IdSource::new("fake");
    let mut collector = MessageCollector::new();
    for event in FakeProvider::default().stream(&responses_request(), &mut ids) {
        collector.push(event).expect("collected");
    }

    let collected = collector.finish();

    assert_eq!(collected.text, "fake> second [model-1]");
    assert!(collected.tool_calls.is_empty());
}

#[test]
fn tool_results_answer_their_calls() {
    let body = shown(&encode_stream_request(&messages_request(), &None).expect("encode"));
    let call = &body["messages"][1]["content"][0];
    let result = &body["messages"][2]["content"][0];
    assert_eq!(call["id"], "call_one");
    assert_eq!(result["tool_use_id"], call["id"]);

    let body = responses_body(&responses_request());
    let input = body["input"].as_array().expect("input");
    let call = input.iter().find(|item| item["type"] == "function_call").expect("call");
    let result = input.iter().find(|item| item["type"] == "function_call_output").expect("result");
    assert_eq!(call["call_id"], "call one");
    assert_eq!(result["call_id"], call["call_id"]);
}

#[test]
fn compacted_history_is_replayed() {
    let summary = decode_openrouter_compact_response(&json(
        r#"{"output":[{"type":"message","content":[{"type":"output_text","text":"so far"}]}]}"#,
    ))
    .expect("decode compaction");
    let mut request = responses_request();
    request.compacted_prefix = summary.output;

    let body = responses_body(&request);

    assert_eq!(body["input"][0]["content"][0]["text"], "follow plan");
    assert_eq!(
        body["input"][1]["content"][0]["text"],
        "<compaction>\nso far\n</compaction>"
    );
    assert_eq!(body["input"][2]["content"][0]["text"], "first");

    let summary = decode_compaction_response(&json(
        r#"{"content":[{"type":"text","text":"so far"}]}"#,
    ));
    let mut request = messages_request();
    request.compacted_prefix = summary.output;
    request.prompt.cache_breakpoints.after_system = true;
    let body = shown(&encode_stream_request(&request, &None).expect("encode"));
    assert_eq!(
        body["system"][0]["text"],
        "<compacted_context>\nso far\n</compacted_context>"
    );
}

#[test]
fn continuation_sends_new_messages() {
    let mut request = responses_request();
    request.previous_response_id = Some("resp_1".to_owned());
    request.new_messages_start = 3;
    request.compacted_prefix = vec![json(r#"{"type":"message"}"#)];

    let body = responses_body(&request);

    assert_eq!(body["previous_response_id"], "resp_1");
    let input = body["input"].as_array().expect("input");
    assert_eq!(input.len(), 1);
    assert_eq!(input[0]["content"][0]["text"], "second");
}
