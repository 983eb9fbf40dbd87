use halter_providers::anthropic::AnthropicProvider;
use halter_providers::capabilities::{
    ProviderCapabilities, ProviderCompactionStrategy, WindowKind,
};
use halter_providers::fake::FakeProvider;
use halter_providers::ids::IdSource;
use halter_providers::json::{Json, JsonNumber};
use halter_providers::openai::OpenAiProvider;
use halter_providers::openai_error::OpenAIError;
use halter_providers::openai_stream::{ResponseStreamEvent, ResponsesStreamDecoder};
use halter_providers::openrouter::OpenRouterProvider;
use halter_providers::protocol::{
    ApiKind, AssembledPrompt, AssistantMessage, AssistantPart, CacheBreakpoints, Message, MessageId,
    ProviderCompactionRequest, ProviderErrorKind, ProviderKind, ProviderRequest, ReasoningEffort,
    ResolvedModel, StreamEvent, ToolCall, ToolCallId, ToolName, ToolResult, ToolResultMessage,
    ToolSpec, UserMessage, UserPart,
};
use halter_providers::responses_provider::{
    decode_stream_item, validate_responses_request, ResponsesProvider,
};
use halter_providers::secret::SecretString;
use halter_providers::unsupported::UnsupportedProvider;
use serde_json::Value;

fn json(text: &str) -> Json {
    Json::parse(text).expect("valid json")
}

fn shown(body: &Json) -> Value {
    serde_json::from_str(&body.to_text()).expect("valid json")
}

fn user(text: &str) -> Message {
    Message::User(UserMessage {
        id: MessageId("user".to_owned()),
        parts: vec![UserPart::Text { text: text.to_owned() }],
    })
}

fn assistant(parts: Vec<AssistantPart>) -> Message {
    Message::Assistant(AssistantMessage { id: MessageId("assistant".to_owned()), parts })
}

fn sample_request(provider_kind: ProviderKind, api_kind: ApiKind) -> ProviderRequest {
    ProviderRequest {
        model: ResolvedModel {
            id: "model".to_owned(),
            provider: "provider".to_owned(),
            provider_kind,
            api_kind,
            model: "gpt-5".to_owned(),
            max_input_tokens: None,
            max_output_tokens: Some(100),
            reasoning: None,
            tokens_per_minute: Some(1_000),
        },
        prompt: AssembledPrompt {
            ordered_segments: Vec::new(),
            prefix_cache_key: "cache-key".to_owned(),
            rendered_prefix: String::new(),
            cache_breakpoints: CacheBreakpoints {
                after_system: false,
                after_skills: false,
                after_tools: false,
                after_user_prompt: false,
            },
            system_segment_count: 0,
            skill_segment_count: 0,
        },
        compacted_prefix: Vec::new(),
        messages: vec![user("hello")],
        tools: Vec::new(),
        previous_response_id: None,
        new_messages_start: 0,
    }
}

fn compaction(provider_kind: ProviderKind, api_kind: ApiKind) -> ProviderCompactionRequest {
    let request = sample_request(provider_kind, api_kind);
    ProviderCompactionRequest {
        session_id: "session".to_owned(),
        model: request.model,
        compacted_prefix: Vec::new(),
        messages: request.messages,
        tools: request.tools,
        instructions: "Summarize".to_owned(),
    }
}

fn anthropic() -> AnthropicProvider {
    AnthropicProvider::new(
        SecretString::from("test-key"),
        "https://api.anthropic.com".to_owned(),
    )
    .expect("anthropic provider")
}

fn openai() -> OpenAiProvider {
    OpenAiProvider::new(SecretString::from("test-key"), "https://api.openai.com".to_owned())
        .expect("openai provider")
}

fn openrouter() -> OpenRouterProvider {
    OpenRouterProvider::new(
        SecretString::from("test-key"),
        "https://openrouter.ai/api".to_owned(),
        JsonNumber::Float("1.0".to_owned()),
    )
    .expect("openrouter provider")
}

#[test]
fn anthropic_provider_reports_current_feature_support() {
    let capabilities = anthropic().capabilities();

    assert!(capabilities.supports_streaming);
    assert!(capabilities.supports_prompt_cache);
    assert!(capabilities.supports_compaction);
    assert_eq!(capabilities.compaction_strategy, Some(ProviderCompactionStrategy::Inline));
    assert!(capabilities.supports_interleaved_reasoning);
}

#[test]
fn anthropic_provider_compaction_window_preserves_through_latest_user() {
    let provider = anthropic();
    let messages = vec![
        user("first"),
        assistant(vec![AssistantPart::Text { text: "answer".to_owned() }]),
        user("latest"),
        assistant(vec![AssistantPart::ToolCall(ToolCall {
            id: ToolCallId("call_1".to_owned()),
            name: ToolName("read".to_owned()),
            arguments: json("{}"),
        })]),
        Message::Tool(ToolResultMessage {
            call_id: ToolCallId("call_1".to_owned()),
            content: ToolResult::Text { text: "tail".to_owned() },
            error: None,
        }),
    ];

    let window = provider.compaction_window(&messages).expect("compaction window");

    assert_eq!(window.preserved_messages.len(), 3);
    assert!(matches!(window.preserved_messages.last(), Some(Message::User(_))));
    assert_eq!(window.eligible_messages.len(), 2);
    assert!(!window.reserved_response_block);
}

#[test]
fn anthropic_refuses_other_api_kinds() {
    let provider = anthropic();
    let request = sample_request(ProviderKind::Anthropic, ApiKind::OpenAiResponses);

    let refused = provider.check_request(&request).expect_err("wrong api kind");
    assert!(refused
        .message
        .contains("anthropic provider requires anthropic_messages api kind"));

    let refused = provider.stream_request(&request).expect_err("wrong api kind");
    assert_eq!(refused.kind, ProviderErrorKind::Fatal);

    let compaction = compaction(ProviderKind::Anthropic, ApiKind::OpenAiResponses);
    let refused = provider.compaction_request(&compaction).expect_err("wrong api kind");
    assert!(refused.message.starts_with("failed to compact session: anthropic provider"));
}

#[test]
fn anthropic_requests_are_addressed() {
    let provider = anthropic();
    let mut request = sample_request(ProviderKind::Anthropic, ApiKind::AnthropicMessages);

    let http = provider.stream_request(&request).expect("stream request");
    assert_eq!(http.url, "https://api.anthropic.com/v1/messages");
    assert_eq!(
        http.headers,
        vec![
            ("x-api-key".to_owned(), "test-key".to_owned()),
            ("anthropic-version".to_owned(), "2023-06-01".to_owned()),
        ]
    );
    assert_eq!(shown(&http.body)["stream"], true);

    request.model.reasoning = Some(ReasoningEffort::Low);
    request.tools.push(ToolSpec {
        name: ToolName("read".to_owned()),
        description: "Read a file".to_owned(),
        input_schema: json("{}"),
        provider_aliases: Vec::new(),
    });
    let http = provider.stream_request(&request).expect("stream request");
    assert_eq!(
        http.headers[2],
        ("anthropic-beta".to_owned(), "interleaved-thinking-2025-05-14".to_owned())
    );

    let compaction = compaction(ProviderKind::Anthropic, ApiKind::AnthropicMessages);
    let http = provider.compaction_request(&compaction).expect("compaction request");
    assert_eq!(http.headers.len(), 2);
    let reply = json(r#"{"content":[{"type":"text","text":"short"}]}"#);
    assert_eq!(shown(&provider.compaction_response(&reply).output[0])["text"], "short");
}

#[test]
fn anthropic_overrides_replace_default_headers() {
    let provider = AnthropicProvider::new_with_headers(
        SecretString::from("test-key"),
        "https://proxy.example/".to_owned(),
        &[("X-Api-Key".to_owned(), "other".to_owned())],
        None,
    )
    .expect("anthropic provider");
    let request = sample_request(ProviderKind::Anthropic, ApiKind::AnthropicMessages);

    let http = provider.stream_request(&request).expect("stream request");

    assert_eq!(http.url, "https://proxy.example/v1/messages");
    assert_eq!(
        http.headers,
        vec![
            ("anthropic-version".to_owned(), "2023-06-01".to_owned()),
            ("x-api-key".to_owned(), "other".to_owned()),
        ]
    );
}

#[test]
fn another_api_is_refused_before_overrides_are_merged() {
    let provider = AnthropicProvider::new_with_headers(
        SecretString::from("test-key"),
        "https://proxy.example/".to_owned(),
        &[("x-note".to_owned(), "caf\u{e9}".to_owned())],
        None,
    )
    .expect("anthropic provider");
    let request = sample_request(ProviderKind::OpenAi, ApiKind::OpenAiResponses);

    let error = provider.stream_request(&request).err().expect("another api");

    assert!(error.message.starts_with("failed to encode anthropic request: "));
}

#[test]
fn anthropic_stream_items_become_outcomes() {
    let request = sample_request(ProviderKind::Anthropic, ApiKind::AnthropicMessages);
    let mut decoder = halter_providers::anthropic_stream::AnthropicStreamDecoder::new(&request);
    let mut ids = IdSource::new("block");
    let mut read = |item: Result<Json, String>| {
        halter_providers::anthropic::decode_stream_item(&mut decoder, &mut ids, item)
    };

    let broken = read(Err("connection reset".to_owned()));
    let error = broken[0].as_ref().expect_err("broken stream");
    assert_eq!(error.kind, ProviderErrorKind::Transient);
    assert_eq!(error.message, "connection reset");

    let unreadable = read(Ok(json(r#"{"type":"content_block_delta"}"#)));
    let error = unreadable[0].as_ref().expect_err("no index");
    assert_eq!(error.kind, ProviderErrorKind::Fatal);

    let started = read(Ok(json(r#"{"type":"message_start","message":{"id":"msg_1"}}"#)));
    assert!(started
        .iter()
        .any(|outcome| matches!(outcome, Ok(StreamEvent::MessageStart { id }) if id.0 == "msg_1")));
}

#[test]
fn openrouter_provider_reports_compaction_and_prompt_cache_support() {
    let capabilities = openrouter().capabilities();

    assert!(capabilities.supports_prompt_cache);
    assert!(capabilities.supports_compaction);
}

#[test]
fn responses_providers_refuse_other_api_kinds() {
    let openai = openai();
    let openrouter = openrouter();

    let request = sample_request(ProviderKind::OpenAi, ApiKind::OpenAiChat);
    let refused =
        validate_responses_request(openai.inner.config.label, &request).expect_err("chat request");
    assert!(refused.message.contains("openai provider requires openai_responses api kind"));
    let refused = openai.inner.stream_call(&request).expect_err("chat request");
    assert_eq!(refused.kind, ProviderErrorKind::Fatal);
    assert!(refused.message.contains("openai provider requires openai_responses api kind"));

    let request = sample_request(ProviderKind::OpenRouter, ApiKind::OpenAiChat);
    let refused = openrouter.inner.stream_call(&request).expect_err("chat request");
    assert!(refused.message.contains("openrouter provider requires openai_responses api kind"));

    let compaction = compaction(ProviderKind::OpenAi, ApiKind::OpenAiChat);
    let refused = openai.inner.compaction_call(&compaction).expect_err("chat compaction");
    assert_eq!(
        refused.message,
        "failed to compact session: openai provider requires openai_responses api kind"
    );
}

#[test]
fn provider_without_strategy_refuses_compaction() {
    let mut config = halter_providers::openai::config();
    config.compact_strategy = None;
    let provider = ResponsesProvider::try_new(
        config,
        SecretString::from("test-key"),
        "https://api.openai.com".to_owned(),
        &[],
        None,
    )
    .expect("provider");

    assert!(!provider.capabilities().supports_compaction);
    assert_eq!(provider.compaction_window_kind(), None);
    let compaction = compaction(ProviderKind::OpenAi, ApiKind::OpenAiResponses);
    let refused = provider.compaction_call(&compaction).expect_err("no strategy");
    assert_eq!(
        refused.message,
        "failed to compact session: openai provider does not support compaction"
    );
    assert!(provider.compaction_response(&json("{}")).is_err());
}

#[test]
fn openai_call_carries_its_cost_and_options() {
    let provider = openai();
    let request = sample_request(ProviderKind::OpenAi, ApiKind::OpenAiResponses);

    let call = provider.inner.stream_call(&request).expect("stream call");

    assert_eq!(call.path, "/v1/responses");
    let body = shown(&call.body);
    assert_eq!(body["prompt_cache_key"], "cache-key");
    assert_eq!(body["stream"], true);
    assert_eq!(call.meta.model, "gpt-5");
    assert_eq!(call.meta.tokens_per_minute, Some(1_000));
    assert_eq!(call.meta.reservation.requests, 1);
    let bytes = call.body.to_text().len() as u64;
    assert_eq!(call.meta.reservation.tokens, (bytes + 3) / 4 + 100);

    let compaction = compaction(ProviderKind::OpenAi, ApiKind::OpenAiResponses);
    let call = provider.inner.compaction_call(&compaction).expect("compaction call");
    assert_eq!(call.path, "/v1/responses/compact");
    assert_eq!(
        provider.inner.compaction_window_kind(),
        Some(WindowKind::LatestAssistantResponse)
    );
}

#[test]
fn openrouter_compacts_in_band() {
    let provider = openrouter();
    let compaction = compaction(ProviderKind::OpenRouter, ApiKind::OpenAiResponses);

    let call = provider.inner.compaction_call(&compaction).expect("compaction call");

    assert_eq!(call.path, "/v1/responses");
    assert_eq!(shown(&call.body)["instructions"], "Summarize");
    assert_eq!(provider.inner.compaction_window_kind(), Some(WindowKind::ThroughLatestUser));
    assert!(!provider.inner.tracks_responses());
}

#[test]
fn responses_transport_headers_carry_the_credential_and_the_overrides() {
    let provider = OpenRouterProvider::new_with_headers(
        SecretString::from("test-key"),
        "https://openrouter.ai/api".to_owned(),
        &[("X-Title".to_owned(), "halter".to_owned())],
        JsonNumber::Float("1.0".to_owned()),
    )
    .expect("openrouter provider");

    let headers = provider.inner.transport_headers().expect("headers");

    assert_eq!(headers["authorization"], "Bearer test-key");
    assert_eq!(headers["x-title"], "halter");
    assert_eq!(headers["content-type"], "application/json");

    let unsendable = OpenRouterProvider::new_with_headers(
        SecretString::from("test-key"),
        "https://openrouter.ai/api".to_owned(),
        &[("bad name".to_owned(), "value".to_owned())],
        JsonNumber::Float("1.0".to_owned()),
    );
    assert!(unsendable.is_err());
}

#[test]
fn responses_stream_items_become_outcomes() {
    let request = sample_request(ProviderKind::OpenAi, ApiKind::OpenAiResponses);
    let mut decoder = ResponsesStreamDecoder::new(&request, false);
    let mut ids = IdSource::new("block");

    let item = Ok(ResponseStreamEvent::ResponseOutputTextDelta { delta: "hi".to_owned() });
    let outcomes = decode_stream_item(&mut decoder, &mut ids, item);
    assert!(outcomes
        .iter()
        .any(|outcome| matches!(outcome, Ok(StreamEvent::TextDelta { delta, .. }) if delta == "hi")));

    let item = Err(OpenAIError::StreamError("reset by peer".to_owned()));
    let outcomes = decode_stream_item(&mut decoder, &mut ids, item);
    assert_eq!(outcomes.len(), 1);
    assert!(outcomes[0].is_err());
}

#[test]
fn fake_provider_echoes_the_latest_words_of_the_user() {
    let mut request = sample_request(ProviderKind::OpenAi, ApiKind::OpenAiResponses);
    request.messages.push(assistant(vec![AssistantPart::Text { text: "later".to_owned() }]));
    let mut ids = IdSource::new("fake");

    let events = FakeProvider::default().stream(&request, &mut ids);

    assert_eq!(
        events[2],
        StreamEvent::TextDelta {
            id: halter_providers::protocol::BlockId("fake-1".to_owned()),
            delta: "fake> hello [gpt-5]".to_owned(),
        }
    );
    assert!(events.iter().any(|event| matches!(
        event,
        StreamEvent::UsageUpdate { usage } if usage.input_tokens == 16 && usage.output_tokens == 3
    )));

    request.messages.clear();
    let provider = FakeProvider::with_prefix("echo:".to_owned());
    let events = provider.stream(&request, &mut ids);
    assert!(events.iter().any(|event| matches!(
        event,
        StreamEvent::TextDelta { delta, .. } if delta == "echo: empty turn [gpt-5]"
    )));
    assert!(provider.capabilities().supports_compaction);
}

#[test]
fn fake_provider_compacts_to_one_item() {
    let request = compaction(ProviderKind::OpenAi, ApiKind::OpenAiResponses);

    let compaction = FakeProvider::default().compact(&request);

    let item = shown(&compaction.output[0]);
    assert_eq!(item["type"], "compaction");
    assert_eq!(item["id"], "cmp_session");
    assert!(item["encrypted_content"].as_str().is_some_and(|text| text.contains("hello")));
    assert_eq!(compaction.usage.input_tokens, 8);
    assert_eq!(compaction.usage.output_tokens, 8);
}

#[test]
fn unsupported_provider_fails_for_good() {
    let provider = UnsupportedProvider::new(ProviderKind::Anthropic);

    let outcomes = provider.stream();

    assert_eq!(outcomes.len(), 1);
    let error = outcomes[0].as_ref().expect_err("not available");
    assert_eq!(error.kind, ProviderErrorKind::Fatal);
    assert_eq!(
        error.message,
        "failed to execute provider request: Anthropic transport is not wired in this build"
    );
    assert_eq!(provider.capabilities(), ProviderCapabilities::default());
}
