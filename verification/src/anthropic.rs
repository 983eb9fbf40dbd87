//! The Anthropic Messages provider: what it asks for and what it makes of the
//! replies.

use vstd::prelude::*;

use crate::anthropic_codec::{
    compacted, compaction_value, decode_compaction_response, encode_compaction_request,
    encode_stream_request, request_value, unsupported_api_kind,
};
use crate::anthropic_stream::{decoded, AnthropicStreamDecoder};
use crate::capabilities::{
    CompactionWindow, ProviderCapabilities, ProviderCompactionStrategy, ToolCallIdPolicy,
};
use crate::header_overrides::{
    all_plain, first_pair_error, not_overridden, pairs_view, push_pair, small_names,
    HeaderOverrides,
};
use crate::http_client::{join_url, JsonRequest};
use crate::ids::IdSource;
use crate::json::{Json, JsonNumber};
use crate::protocol::{
    outcomes_of, outcomes_view, single_error, with_errors_raised, ApiKind, CodecError, ErrorView,
    EventView, Message, ProviderCompactionRequest, ProviderCompactionResponse, ProviderError,
    ProviderErrorKind, ProviderRequest, StreamEvent,
};
use crate::resilience::{is_default_policy, ResiliencePolicy};
use crate::secret::SecretString;
use crate::text::{concat2, trim_end_any_spec};

verus! {

pub const ANTHROPIC_MESSAGES_PATH: &'static str = "/v1/messages";

pub const ANTHROPIC_LABEL: &'static str = "anthropic";

/// The Anthropic Messages provider.
pub struct AnthropicProvider {
    pub api_key: SecretString,
    pub base_url: String,
    pub header_overrides: HeaderOverrides,
    /// Forwarded into every request body where it is set.
    pub temperature: Option<JsonNumber>,
    pub resilience_policy: ResiliencePolicy,
}

/// The headers that go with a request unless they are overridden.
pub open spec fn default_headers_spec(api_key: Seq<char>, interleaved_thinking: bool) -> Seq<
    (Seq<char>, Seq<char>),
> {
    let headers = seq![
        ("x-api-key"@, api_key),
        ("anthropic-version"@, "2023-06-01"@),
    ];
    if interleaved_thinking {
        headers.push(("anthropic-beta"@, "interleaved-thinking-2025-05-14"@))
    } else {
        headers
    }
}

pub open spec fn anthropic_capabilities() -> ProviderCapabilities {
    ProviderCapabilities {
        supports_tools: true,
        supports_streaming: true,
        supports_reasoning: true,
        supports_interleaved_reasoning: true,
        supports_images: true,
        supports_documents: true,
        supports_prompt_cache: true,
        supports_compaction: true,
        compaction_strategy: Some(ProviderCompactionStrategy::Inline),
        supports_tool_result_media: false,
        requires_non_empty_assistant_content: true,
        tool_call_id_policy: ToolCallIdPolicy::StableReplayNormalized,
        max_input_tokens: 200_000,
        max_output_tokens: 8_192,
    }
}

/// A Messages request holds this of its provider, whatever its body.
pub open spec fn is_addressed(
    http: JsonRequest,
    provider: AnthropicProvider,
    interleaved_thinking: bool,
) -> bool {
    &&& http.provider_label@ == ANTHROPIC_LABEL@
    &&& http.url@ == trim_end_any_spec(provider.base_url@, "/"@) + ANTHROPIC_MESSAGES_PATH@
    &&& pairs_view(http.headers@) == not_overridden(
        default_headers_spec(provider.api_key@, interleaved_thinking),
        provider.header_overrides@,
    ) + provider.header_overrides@
}

impl AnthropicProvider {
    /// A provider without header overrides and without a temperature of its own.
    pub fn new(api_key: SecretString, base_url: String) -> (provider: Result<
        AnthropicProvider,
        CodecError,
    >)
        ensures
            provider matches Ok(provider) && provider.api_key@ == api_key@ && provider.base_url
                == base_url && provider.header_overrides@.len() == 0 && provider.temperature is None
                && is_default_policy(provider.resilience_policy),
    {
        let none: [(String, String); 0] = [];
        assert(pairs_view(none@) =~= Seq::empty());
        AnthropicProvider::new_with_headers(api_key, base_url, &none, None)
    }

    /// A provider with header overrides, which replace any default header
    /// whatever the capitals.
    pub fn new_with_headers(
        api_key: SecretString,
        base_url: String,
        header_overrides: &[(String, String)],
        temperature: Option<JsonNumber>,
    ) -> (provider: Result<AnthropicProvider, CodecError>)
        ensures
            match provider {
                Ok(provider) => {
                    &&& first_pair_error(pairs_view(header_overrides@)) is None
                    &&& provider.api_key@ == api_key@
                    &&& provider.base_url == base_url
                    &&& provider.header_overrides@ == small_names(pairs_view(header_overrides@))
                    &&& provider.temperature == temperature
                    &&& is_default_policy(provider.resilience_policy)
                },
                Err(error) => first_pair_error(pairs_view(header_overrides@)) == Some(error@),
            },
    {
        AnthropicProvider::new_with_headers_and_resilience(
            api_key,
            base_url,
            header_overrides,
            temperature,
            ResiliencePolicy::default(),
        )
    }

    /// A provider with header overrides and a policy for timeouts and retries.
    pub fn new_with_headers_and_resilience(
        api_key: SecretString,
        base_url: String,
        header_overrides: &[(String, String)],
        temperature: Option<JsonNumber>,
        resilience_policy: ResiliencePolicy,
    ) -> (provider: Result<AnthropicProvider, CodecError>)
        ensures
            match provider {
                Ok(provider) => {
                    &&& first_pair_error(pairs_view(header_overrides@)) is None
                    &&& provider.api_key@ == api_key@
                    &&& provider.base_url == base_url
                    &&& provider.header_overrides@ == small_names(pairs_view(header_overrides@))
                    &&& provider.temperature == temperature
                    &&& provider.resilience_policy == resilience_policy
                },
                Err(error) => first_pair_error(pairs_view(header_overrides@)) == Some(error@),
            },
    {
        match HeaderOverrides::new(header_overrides) {
            Ok(header_overrides) => Ok(
                AnthropicProvider {
                    api_key,
                    base_url,
                    header_overrides,
                    temperature,
                    resilience_policy,
                },
            ),
            Err(error) => Err(error),
        }
    }

    pub fn capabilities(&self) -> (capabilities: ProviderCapabilities)
        ensures
            capabilities == anthropic_capabilities(),
    {
        ProviderCapabilities {
            supports_tools: true,
            supports_streaming: true,
            supports_reasoning: true,
            supports_interleaved_reasoning: true,
            supports_images: true,
            supports_documents: true,
            supports_prompt_cache: true,
            supports_compaction: true,
            compaction_strategy: Some(ProviderCompactionStrategy::Inline),
            supports_tool_result_media: false,
            requires_non_empty_assistant_content: true,
            tool_call_id_policy: ToolCallIdPolicy::StableReplayNormalized,
            max_input_tokens: 200_000,
            max_output_tokens: 8_192,
        }
    }

    /// A compaction leaves all messages up to the user's latest one alone.
    pub fn compaction_window<'a>(&self, messages: &'a [Message]) -> (window: Option<
        CompactionWindow<'a>,
    >)
        ensures
            window matches Some(window) && {
                let at = crate::capabilities::through_latest_user(messages@) as int;
                &&& window.preserved_messages@ == messages@.subrange(0, at)
                &&& window.eligible_messages@ == messages@.subrange(at, messages@.len() as int)
                &&& !window.reserved_response_block
            },
    {
        Some(CompactionWindow::preserve_through_latest_user(messages))
    }

    /// Refuses a request that is not for the Messages API.
    pub fn check_request(&self, request: &ProviderRequest) -> (checked: Result<(), CodecError>)
        ensures
            match checked {
                Ok(_) => request.model.api_kind == ApiKind::AnthropicMessages,
                Err(error) => request.model.api_kind != ApiKind::AnthropicMessages && error@
                    == "failed to execute provider request: anthropic provider requires anthropic_messages api kind"@,
            },
    {
        if request.model.api_kind != ApiKind::AnthropicMessages {
            return Err(
                CodecError::new(
                    "failed to execute provider request: anthropic provider requires anthropic_messages api kind",
                ),
            );
        }
        Ok(())
    }

    fn default_headers(&self, interleaved_thinking: bool) -> (headers: Vec<(String, String)>)
        ensures
            pairs_view(headers@) == default_headers_spec(self.api_key@, interleaved_thinking),
    {
        let mut headers: Vec<(String, String)> = Vec::new();
        assert(pairs_view(headers@) =~= Seq::empty());
        push_pair(
            &mut headers,
            "x-api-key".to_owned(),
            self.api_key.expose_secret().to_owned(),
        );
        push_pair(&mut headers, "anthropic-version".to_owned(), "2023-06-01".to_owned());
        if interleaved_thinking {
            push_pair(
                &mut headers,
                "anthropic-beta".to_owned(),
                "interleaved-thinking-2025-05-14".to_owned(),
            );
        }
        assert(pairs_view(headers@) =~= default_headers_spec(self.api_key@, interleaved_thinking));
        headers
    }

    fn address(&self, body: Json, interleaved_thinking: bool) -> (http: JsonRequest)
        requires
            all_plain(self.header_overrides@),
        ensures
            is_addressed(http, *self, interleaved_thinking),
            http.body == body,
    {
        JsonRequest {
            provider_label: ANTHROPIC_LABEL,
            url: join_url(&self.base_url, ANTHROPIC_MESSAGES_PATH),
            headers: self.header_overrides.merge_string_pairs(
                self.default_headers(interleaved_thinking),
            ),
            body,
        }
    }

    /// The request that streams a reply. What cannot be encoded will not be
    /// encoded the next time either, so that error is final.
    pub fn stream_request(&self, request: &ProviderRequest) -> (http: Result<
        JsonRequest,
        ProviderError,
    >)
        requires
            request.model.api_kind == ApiKind::AnthropicMessages ==> all_plain(
                self.header_overrides@,
            ),
        ensures
            match http {
                Ok(http) => {
                    &&& request.model.api_kind == ApiKind::AnthropicMessages
                    &&& http.body@ == request_value(*request, self.temperature, true)
                    &&& is_addressed(
                        http,
                        *self,
                        request.model.reasoning is Some && request.tools@.len() > 0,
                    )
                },
                Err(error) => {
                    &&& request.model.api_kind != ApiKind::AnthropicMessages
                    &&& error@ == (ErrorView {
                        message: "failed to encode anthropic request: "@ + unsupported_api_kind(
                            request.model.api_kind,
                        ),
                        kind: ProviderErrorKind::Fatal,
                        backoff_hint: None,
                    })
                },
            },
    {
        match encode_stream_request(request, &self.temperature) {
            Ok(body) => {
                let interleaved_thinking = request.model.reasoning.is_some()
                    && request.tools.len() > 0;
                Ok(self.address(body, interleaved_thinking))
            },
            Err(error) => Err(
                ProviderError::with_kind(
                    concat2("failed to encode anthropic request: ", &error.message),
                    ProviderErrorKind::Fatal,
                ),
            ),
        }
    }

    /// The request that asks for a summary.
    pub fn compaction_request(&self, request: &ProviderCompactionRequest) -> (http: Result<
        JsonRequest,
        CodecError,
    >)
        requires
            request.model.api_kind == ApiKind::AnthropicMessages ==> all_plain(
                self.header_overrides@,
            ),
        ensures
            match http {
                Ok(http) => {
                    &&& request.model.api_kind == ApiKind::AnthropicMessages
                    &&& http.body@ == compaction_value(*request, self.temperature)
                    &&& is_addressed(http, *self, false)
                },
                Err(error) => request.model.api_kind != ApiKind::AnthropicMessages && error@
                    == "failed to compact session: anthropic provider requires anthropic_messages api kind"@,
            },
    {
        if request.model.api_kind != ApiKind::AnthropicMessages {
            return Err(
                CodecError::new(
                    "failed to compact session: anthropic provider requires anthropic_messages api kind",
                ),
            );
        }
        match encode_compaction_request(request, &self.temperature) {
            Ok(body) => Ok(self.address(body, false)),
            Err(error) => Err(error),
        }
    }

    /// Reads the reply to a request for a summary.
    pub fn compaction_response(&self, response: &Json) -> (compaction: ProviderCompactionResponse)
        ensures
            compaction@ == compacted(response@),
    {
        decode_compaction_response(response)
    }
}

/// Reads one item of the stream: a decoded event, with reported errors raised;
/// a final error where it cannot be read; a passing fault where the stream
/// broke.
pub fn decode_stream_item(
    decoder: &mut AnthropicStreamDecoder,
    ids: &mut IdSource,
    item: Result<Json, String>,
) -> (outcomes: Vec<Result<StreamEvent, ProviderError>>)
    ensures
        match item {
            Ok(event) => {
                let after = decoded(old(decoder)@, old(ids)@, event@);
                &&& final(decoder)@ == after.state
                &&& final(ids)@ == after.ids
                &&& outcomes_view(outcomes@) == match after.events {
                    Ok(events) => with_errors_raised(events),
                    Err(reason) => seq![
                        Err::<EventView, ErrorView>(
                            ErrorView {
                                message: "failed to decode anthropic stream: "@ + reason,
                                kind: ProviderErrorKind::Fatal,
                                backoff_hint: None,
                            },
                        ),
                    ],
                }
            },
            Err(reason) => {
                &&& final(decoder)@ == old(decoder)@
                &&& final(ids)@ == old(ids)@
                &&& outcomes_view(outcomes@) == seq![
                    Err::<EventView, ErrorView>(
                        ErrorView {
                            message: reason@,
                            kind: ProviderErrorKind::Transient,
                            backoff_hint: None,
                        },
                    ),
                ]
            },
        },
{
    match item {
        Ok(event) => match decoder.decode(&event, ids) {
            Ok(events) => outcomes_of(events, true),
            Err(error) => single_error(
                ProviderError::with_kind(
                    concat2("failed to decode anthropic stream: ", &error.message),
                    ProviderErrorKind::Fatal,
                ),
            ),
        },
        Err(reason) => single_error(ProviderError::with_kind(reason, ProviderErrorKind::Transient)),
    }
}

/// A request goes to the Messages endpoint of its base, however many slashes that ends
/// in, with the key and the version among its headers, unless they are overridden.
pub proof fn law_request_is_addressed(
    http: JsonRequest,
    provider: AnthropicProvider,
    interleaved_thinking: bool,
)
    requires
        is_addressed(http, provider, interleaved_thinking),
    ensures
        http.provider_label@ == "anthropic"@,
        http.url@ == trim_end_any_spec(provider.base_url@, "/"@) + "/v1/messages"@,
        provider.header_overrides@.len() == 0 ==> {
            let headers = pairs_view(http.headers@);
            &&& headers.len() == if interleaved_thinking {
                3nat
            } else {
                2nat
            }
            &&& headers[0] == ("x-api-key"@, provider.api_key@)
            &&& headers[1] == ("anthropic-version"@, "2023-06-01"@)
            &&& interleaved_thinking ==> headers[2] == (
                "anthropic-beta"@,
                "interleaved-thinking-2025-05-14"@,
            )
        },
        forall|i: int|
            #![trigger provider.header_overrides@[i]]
            0 <= i < provider.header_overrides@.len() ==> pairs_view(http.headers@).contains(
                provider.header_overrides@[i],
            ),
{
    let defaults = default_headers_spec(provider.api_key@, interleaved_thinking);
    let overrides = provider.header_overrides@;
    let kept = not_overridden(defaults, overrides);
    assert forall|i: int|
        #![trigger overrides[i]]
        0 <= i < overrides.len() implies pairs_view(http.headers@).contains(overrides[i]) by {
        assert((kept + overrides)[kept.len() + i] == overrides[i]);
    }
    if overrides.len() == 0 {
        lemma_all_kept(defaults, overrides);
        assert(kept + overrides =~= defaults);
    }
}

proof fn lemma_all_kept(
    defaults: Seq<(Seq<char>, Seq<char>)>,
    overrides: Seq<(Seq<char>, Seq<char>)>,
)
    requires
        overrides.len() == 0,
    ensures
        not_overridden(defaults, overrides) == defaults,
    decreases defaults.len(),
{
    if defaults.len() > 0 {
        lemma_all_kept(defaults.drop_last(), overrides);
        assert(defaults.drop_last().push(defaults.last()) =~= defaults);
    }
}

/// What the provider can do.
pub proof fn law_capabilities_of_the_provider()
    ensures
        ({
            let known = anthropic_capabilities();
            &&& known.supports_tools && known.supports_streaming && known.supports_reasoning
            &&& known.supports_interleaved_reasoning && known.supports_images
            &&& known.supports_documents && known.supports_prompt_cache
            &&& known.supports_compaction && !known.supports_tool_result_media
            &&& known.requires_non_empty_assistant_content
            &&& known.compaction_strategy == Some(ProviderCompactionStrategy::Inline)
            &&& known.tool_call_id_policy == ToolCallIdPolicy::StableReplayNormalized
            &&& known.max_input_tokens == 200_000 && known.max_output_tokens == 8_192
        }),
{
}

} // verus!
