//! Providers that speak the Responses API: what they ask for and what they make
//! of the replies.

use reqwest::header::{HeaderMap, HeaderValue};
use vstd::prelude::*;

use crate::capabilities::{ProviderCapabilities, ProviderCompactionStrategy, WindowKind};
use crate::codec_common::{byte_len, byte_length};
use crate::header_overrides::{
    first_pair_error, pairs_view, push_pair, small_names, with_pairs, HeaderOverrides,
};
use crate::headers::{header_entries, HEADER_MAP_ROOM};
use crate::http_client::{first_header_error, request_entries, request_headers};
use crate::ids::IdSource;
use crate::json::{json_text, Json, JsonNumber, JsonView};
use crate::openai_codec::{
    compact_input, compact_value, decode_openrouter_compact_response,
    decode_responses_compact_response, encode_openrouter_compact_request,
    encode_responses_compact_request, encode_responses_request, first_overlong, openai_usage,
    openrouter_compact_value, openrouter_summary, overlong_message, request_input,
    responses_request_value, ResponsesRequestOptions,
};
use crate::openai_error::OpenAIError;
use crate::openai_rate_limit_policy::{estimate_openai_request_cost, sat_add, OpenAiReservation};
use crate::openai_stream::{coherent, decoded, run_of, ResponseStreamEvent, ResponsesStreamDecoder};
use crate::protocol::{
    as_outcomes, outcomes_of, outcomes_view, single_error, ApiKind, CodecError, CompactionView,
    ErrorView, EventView, ProviderCompactionRequest, ProviderCompactionResponse, ProviderError,
    ProviderErrorKind, ProviderRequest, StreamEvent,
};
use crate::resilience::ResiliencePolicy;
use crate::responses_transport::{
    openai_provider_error, provider_error_from_openai, ResponsesRateLimitStrategy,
    ResponsesTransportRequest, RESPONSES_COMPACT_PATH, RESPONSES_PATH,
};
use crate::secret::SecretString;
use crate::text::{concat2, concat3};

verus! {

/// How a provider compacts.
#[derive(Debug, Clone, Copy, PartialEq, Eq, Structural)]
pub enum CompactStrategy {
    DedicatedEndpoint,
    InlineResponses,
}

/// What a provider asks of every request.
#[derive(Debug, Clone, Copy)]
pub struct ResponsesProviderRequestConfig {
    pub store: Option<bool>,
    pub include_prompt_cache_key: bool,
    pub include_encrypted_reasoning: bool,
    pub reasoning_summary: Option<&'static str>,
}

/// What tells one Responses provider from another.
#[derive(Debug, Clone, Copy)]
pub struct ResponsesProviderConfig {
    pub label: &'static str,
    pub capabilities: ProviderCapabilities,
    pub request: ResponsesProviderRequestConfig,
    pub compact_strategy: Option<CompactStrategy>,
    pub rate_limit_strategy: Option<ResponsesRateLimitStrategy>,
    pub resilience_policy: ResiliencePolicy,
}

/// The capabilities of a provider, with those of compaction as its strategy has
/// them.
pub open spec fn effective(config: ResponsesProviderConfig) -> ProviderCapabilities {
    ProviderCapabilities {
        supports_compaction: config.compact_strategy is Some,
        compaction_strategy: match config.compact_strategy {
            Some(CompactStrategy::DedicatedEndpoint) => Some(ProviderCompactionStrategy::Dedicated),
            Some(CompactStrategy::InlineResponses) => Some(ProviderCompactionStrategy::Inline),
            None => None,
        },
        ..config.capabilities
    }
}

pub fn effective_capabilities(config: &ResponsesProviderConfig) -> (capabilities:
    ProviderCapabilities)
    ensures
        capabilities == effective(*config),
{
    let mut capabilities = config.capabilities;
    capabilities.supports_compaction = config.compact_strategy.is_some();
    capabilities.compaction_strategy = match config.compact_strategy {
        Some(CompactStrategy::DedicatedEndpoint) => Some(ProviderCompactionStrategy::Dedicated),
        Some(CompactStrategy::InlineResponses) => Some(ProviderCompactionStrategy::Inline),
        None => None,
    };
    capabilities
}

pub open spec fn wrong_stream_kind(label: Seq<char>) -> Seq<char> {
    "failed to execute provider request: "@ + label
        + " provider requires openai_responses api kind"@
}

pub open spec fn wrong_compaction_kind(label: Seq<char>) -> Seq<char> {
    "failed to compact session: "@ + label + " provider requires openai_responses api kind"@
}

pub open spec fn no_compaction(label: Seq<char>) -> Seq<char> {
    "failed to compact session: "@ + label + " provider does not support compaction"@
}

/// Refuses a request that is not for the Responses API.
pub fn validate_responses_request(label: &str, request: &ProviderRequest) -> (checked: Result<
    (),
    CodecError,
>)
    ensures
        match checked {
            Ok(_) => request.model.api_kind == ApiKind::OpenAiResponses,
            Err(error) => request.model.api_kind != ApiKind::OpenAiResponses && error@
                == wrong_stream_kind(label@),
        },
{
    if request.model.api_kind != ApiKind::OpenAiResponses {
        return Err(
            CodecError {
                message: concat3(
                    "failed to execute provider request: ",
                    label,
                    " provider requires openai_responses api kind",
                ),
            },
        );
    }
    Ok(())
}

/// Refuses a compaction that is not for the Responses API, or for which the
/// provider has no strategy.
pub fn validate_responses_compaction_request(
    label: &str,
    config: &ResponsesProviderConfig,
    request: &ProviderCompactionRequest,
) -> (checked: Result<(), CodecError>)
    ensures
        match checked {
            Ok(_) => request.model.api_kind == ApiKind::OpenAiResponses
                && config.compact_strategy is Some,
            Err(error) => if request.model.api_kind != ApiKind::OpenAiResponses {
                error@ == wrong_compaction_kind(label@)
            } else {
                config.compact_strategy is None && error@ == no_compaction(label@)
            },
        },
{
    if request.model.api_kind != ApiKind::OpenAiResponses {
        return Err(
            CodecError {
                message: concat3(
                    "failed to compact session: ",
                    label,
                    " provider requires openai_responses api kind",
                ),
            },
        );
    }
    if config.compact_strategy.is_none() {
        return Err(
            CodecError {
                message: concat3(
                    "failed to compact session: ",
                    label,
                    " provider does not support compaction",
                ),
            },
        );
    }
    Ok(())
}

/// A provider that speaks the Responses API.
pub struct ResponsesProvider {
    pub config: ResponsesProviderConfig,
    pub api_key: SecretString,
    pub base_url: String,
    pub header_overrides: HeaderOverrides,
    /// Sampling temperature; left out of requests where it is not set.
    pub temperature: Option<JsonNumber>,
}

/// A request that is ready to be sent.
#[derive(Debug)]
pub struct ResponsesCall {
    pub path: &'static str,
    pub body: Json,
    pub meta: ResponsesTransportRequest,
}

/// The budget that a request with this body takes up.
pub open spec fn body_cost(body: JsonView, max_output_tokens: Option<u32>) -> OpenAiReservation {
    OpenAiReservation {
        requests: 1,
        tokens: sat_add(
            (sat_add(byte_length(json_text(body)) as u64, 3) / 4) as u64,
            match max_output_tokens {
                Some(tokens) => tokens as u64,
                None => 0,
            },
        ),
    }
}

/// What the transport is told of a call.
pub open spec fn is_meta(
    meta: ResponsesTransportRequest,
    config: ResponsesProviderConfig,
    model: crate::protocol::ResolvedModel,
    body: JsonView,
) -> bool {
    &&& meta.provider_label == config.label
    &&& meta.model@ == model.model@
    &&& meta.reservation == body_cost(body, model.max_output_tokens)
    &&& meta.rate_limit_strategy == config.rate_limit_strategy
    &&& meta.tokens_per_minute == model.tokens_per_minute
}

/// What a provider asks of one request beyond the conversation itself.
pub open spec fn is_options(
    options: ResponsesRequestOptions<'_>,
    provider: ResponsesProvider,
    request: ProviderRequest,
) -> bool {
    let config = provider.config.request;
    &&& options.stream
    &&& options.store == config.store
    &&& match options.prompt_cache_key {
        Some(key) => config.include_prompt_cache_key && key@ == request.prompt.prefix_cache_key@,
        None => !config.include_prompt_cache_key,
    }
    &&& options.include_encrypted_reasoning == config.include_encrypted_reasoning
    &&& options.reasoning_summary == config.reasoning_summary
    &&& match (options.temperature, provider.temperature) {
        (Some(given), Some(wanted)) => *given == wanted,
        (None, None) => true,
        _ => false,
    }
}

/// An error of setting a request up: it will fail the same way the next time, so
/// it is final.
pub open spec fn setup_error(message: Seq<char>) -> ErrorView {
    ErrorView { message, kind: ProviderErrorKind::Fatal, backoff_hint: None }
}

/// Why a request cannot be encoded.
pub open spec fn encode_refusal(label: Seq<char>, request: ProviderRequest) -> Option<Seq<char>> {
    if request.model.api_kind != ApiKind::OpenAiResponses {
        Some(wrong_stream_kind(label))
    } else {
        match first_overlong(request_input(request)) {
            Some(at) => Some(overlong_message(request_input(request), at)),
            None => None,
        }
    }
}

/// Why a compaction cannot be encoded.
pub open spec fn compaction_refusal(
    config: ResponsesProviderConfig,
    request: ProviderCompactionRequest,
) -> Option<Seq<char>> {
    if request.model.api_kind != ApiKind::OpenAiResponses {
        Some(wrong_compaction_kind(config.label@))
    } else if config.compact_strategy is None {
        Some(no_compaction(config.label@))
    } else {
        match first_overlong(compact_input(request)) {
            Some(at) => Some(overlong_message(compact_input(request), at)),
            None => None,
        }
    }
}

impl ResponsesProvider {
    /// A provider, unless one of its header overrides cannot be sent.
    pub fn try_new(
        config: ResponsesProviderConfig,
        api_key: SecretString,
        base_url: String,
        header_overrides: &[(String, String)],
        temperature: Option<JsonNumber>,
    ) -> (provider: Result<ResponsesProvider, CodecError>)
        ensures
            match provider {
                Ok(provider) => {
                    &&& first_pair_error(pairs_view(header_overrides@)) is None
                    &&& provider.config == config
                    &&& provider.api_key@ == api_key@
                    &&& provider.base_url == base_url
                    &&& provider.header_overrides@ == small_names(pairs_view(header_overrides@))
                    &&& provider.temperature == temperature
                },
                Err(error) => first_pair_error(pairs_view(header_overrides@)) == Some(error@),
            },
    {
        match HeaderOverrides::new(header_overrides) {
            Ok(header_overrides) => Ok(
                ResponsesProvider { config, api_key, base_url, header_overrides, temperature },
            ),
            Err(error) => Err(error),
        }
    }

    pub fn capabilities(&self) -> (capabilities: ProviderCapabilities)
        ensures
            capabilities == effective(self.config),
    {
        effective_capabilities(&self.config)
    }

    /// Which messages a compaction leaves alone.
    pub fn compaction_window_kind(&self) -> (kind: Option<WindowKind>)
        ensures
            kind == match self.config.compact_strategy {
                Some(CompactStrategy::DedicatedEndpoint) => Some(
                    WindowKind::LatestAssistantResponse,
                ),
                Some(CompactStrategy::InlineResponses) => Some(WindowKind::ThroughLatestUser),
                None => None,
            },
    {
        match self.config.compact_strategy {
            Some(CompactStrategy::DedicatedEndpoint) => Some(WindowKind::LatestAssistantResponse),
            Some(CompactStrategy::InlineResponses) => Some(WindowKind::ThroughLatestUser),
            None => None,
        }
    }

    /// The header fields of every request: the credential, then the overrides.
    /// The overrides have to leave room for both.
    pub fn transport_headers(&self) -> (headers: Result<HeaderMap<HeaderValue>, ProviderError>)
        requires
            self.header_overrides@.len() + 1 <= HEADER_MAP_ROOM,
        ensures
            ({
                let pairs = seq![("authorization"@, "Bearer "@ + self.api_key@)];
                match headers {
                    Ok(headers) => first_header_error(self.config.label@, pairs) is None
                        && header_entries(headers) == with_pairs(
                        request_entries(pairs),
                        self.header_overrides@,
                    ),
                    Err(error) => first_header_error(self.config.label@, pairs) == Some(
                        error@.message,
                    ) && error@.kind == ProviderErrorKind::Fatal && error@.backoff_hint is None,
                }
            }),
    {
        let mut pairs: Vec<(String, String)> = Vec::new();
        assert(pairs_view(pairs@) =~= Seq::empty());
        push_pair(
            &mut pairs,
            "authorization".to_owned(),
            concat2("Bearer ", self.api_key.expose_secret()),
        );
        let ghost given = pairs_view(pairs@);
        assert(given =~= seq![("authorization"@, "Bearer "@ + self.api_key@)]);
        match request_headers(self.config.label, pairs) {
            Ok(headers) => {
                proof {
                    lemma_request_entries_finite(given);
                }
                let mut headers = headers;
                self.header_overrides.apply_to_map(&mut headers);
                Ok(headers)
            },
            Err(error) => Err(error),
        }
    }

    fn meta(&self, model: &crate::protocol::ResolvedModel, body: &Json) -> (meta:
        ResponsesTransportRequest)
        ensures
            is_meta(meta, self.config, *model, body@),
    {
        let text = body.to_text();
        ResponsesTransportRequest {
            provider_label: self.config.label,
            model: model.model.clone(),
            reservation: estimate_openai_request_cost(byte_len(&text), model.max_output_tokens),
            rate_limit_strategy: self.config.rate_limit_strategy,
            tokens_per_minute: model.tokens_per_minute,
        }
    }

    /// The request that streams a reply. A request that continues an earlier
    /// reply has to say which of its messages are new.
    pub fn stream_call(&self, request: &ProviderRequest) -> (call: Result<
        ResponsesCall,
        ProviderError,
    >)
        requires
            request.model.api_kind == ApiKind::OpenAiResponses
                && request.previous_response_id is Some ==> request.new_messages_start
                <= request.messages@.len(),
        ensures
            match call {
                Ok(call) => {
                    &&& encode_refusal(self.config.label@, *request) is None
                    &&& call.path@ == RESPONSES_PATH@
                    &&& is_meta(call.meta, self.config, request.model, call.body@)
                    &&& exists|options: ResponsesRequestOptions<'_>|
                        is_options(options, *self, *request) && call.body@
                            == #[trigger] responses_request_value(*request, options)
                },
                Err(error) => match encode_refusal(self.config.label@, *request) {
                    Some(message) => error@ == setup_error(message),
                    None => false,
                },
            },
    {
        if let Err(error) = validate_responses_request(self.config.label, request) {
            return Err(ProviderError::with_kind(error.message, ProviderErrorKind::Fatal));
        }
        let options = ResponsesRequestOptions {
            stream: true,
            store: self.config.request.store,
            prompt_cache_key: if self.config.request.include_prompt_cache_key {
                Some(request.prompt.prefix_cache_key.as_str())
            } else {
                None
            },
            include_encrypted_reasoning: self.config.request.include_encrypted_reasoning,
            reasoning_summary: self.config.request.reasoning_summary,
            temperature: match &self.temperature {
                Some(temperature) => Some(temperature),
                None => None,
            },
        };
        match encode_responses_request(request, &options) {
            Ok(body) => {
                assert(is_options(options, *self, *request) && body@ == responses_request_value(
                    *request,
                    options,
                ));
                let meta = self.meta(&request.model, &body);
                Ok(ResponsesCall { path: RESPONSES_PATH, body, meta })
            },
            Err(error) => Err(ProviderError::with_kind(error.message, ProviderErrorKind::Fatal)),
        }
    }

    /// Whether replies are kept on the server, so that later requests can
    /// continue them.
    pub fn tracks_responses(&self) -> (yes: bool)
        ensures
            yes == (self.config.request.store != Some(false)),
    {
        match self.config.request.store {
            Some(store) => store,
            None => true,
        }
    }

    /// The request that compacts a conversation.
    pub fn compaction_call(&self, request: &ProviderCompactionRequest) -> (call: Result<
        ResponsesCall,
        CodecError,
    >)
        ensures
            match call {
                Ok(call) => {
                    &&& compaction_refusal(self.config, *request) is None
                    &&& is_meta(call.meta, self.config, request.model, call.body@)
                    &&& match self.config.compact_strategy {
                        Some(CompactStrategy::DedicatedEndpoint) => call.path@
                            == RESPONSES_COMPACT_PATH@ && call.body@ == JsonView::Object(
                            compact_value(*request),
                        ),
                        Some(CompactStrategy::InlineResponses) => call.path@ == RESPONSES_PATH@
                            && call.body@ == JsonView::Object(openrouter_compact_value(*request)),
                        None => false,
                    }
                },
                Err(error) => compaction_refusal(self.config, *request) == Some(error@),
            },
    {
        if let Err(error) = validate_responses_compaction_request(
            self.config.label,
            &self.config,
            request,
        ) {
            return Err(error);
        }
        let (path, body) = match self.config.compact_strategy {
            Some(CompactStrategy::DedicatedEndpoint) => (
                RESPONSES_COMPACT_PATH,
                encode_responses_compact_request(request),
            ),
            _ => (RESPONSES_PATH, encode_openrouter_compact_request(request)),
        };
        match body {
            Ok(body) => {
                let meta = self.meta(&request.model, &body);
                Ok(ResponsesCall { path, body, meta })
            },
            Err(error) => Err(error),
        }
    }

    /// Reads the reply to a compaction.
    pub fn compaction_response(&self, response: &Json) -> (compaction: Result<
        ProviderCompactionResponse,
        CodecError,
    >)
        ensures
            match self.config.compact_strategy {
                Some(CompactStrategy::DedicatedEndpoint) => match (
                    response@.get_array("output"@),
                    compaction,
                ) {
                    (Some(output), Ok(compaction)) => compaction@ == (CompactionView {
                        output,
                        usage: openai_usage(response@),
                    }),
                    (None, Err(error)) => error@
                        == "failed to decode openai compaction response: missing output array"@,
                    _ => false,
                },
                Some(CompactStrategy::InlineResponses) => match (
                    response@.get_array("output"@),
                    compaction,
                ) {
                    (Some(output), Ok(compaction)) => compaction@ == (CompactionView {
                        output: openrouter_summary(output),
                        usage: openai_usage(response@),
                    }),
                    (None, Err(error)) => error@
                        == "failed to decode openrouter compaction response: missing output array"@,
                    _ => false,
                },
                None => compaction matches Err(error) && error@ == no_compaction(
                    self.config.label@,
                ),
            },
    {
        match self.config.compact_strategy {
            Some(CompactStrategy::DedicatedEndpoint) => decode_responses_compact_response(response),
            Some(CompactStrategy::InlineResponses) => decode_openrouter_compact_response(response),
            None => Err(
                CodecError {
                    message: concat3(
                        "failed to compact session: ",
                        self.config.label,
                        " provider does not support compaction",
                    ),
                },
            ),
        }
    }
}

proof fn lemma_request_entries_finite(pairs: Seq<(Seq<char>, Seq<char>)>)
    ensures
        request_entries(pairs).dom().finite(),
        request_entries(pairs).dom().len() <= pairs.len() + 1,
    decreases pairs.len(),
{
    let none = crate::headers::no_entries();
    if pairs.len() > 0 {
        lemma_request_entries_finite(pairs.drop_last());
        let rest = request_entries(pairs.drop_last());
        let name = crate::text::lower_ascii(pairs.last().0);
        assert(request_entries(pairs).dom() =~= rest.dom().insert(name));
    } else {
        assert(request_entries(pairs).dom() =~= none.dom().insert(
            crate::text::lower_ascii("content-type"@),
        ));
    }
}

/// Reads one item of the stream: the decoded events, or what the item's failure
/// amounts to. What cannot be decoded is final.
pub fn decode_stream_item(
    decoder: &mut ResponsesStreamDecoder,
    ids: &mut IdSource,
    item: Result<ResponseStreamEvent, OpenAIError>,
) -> (outcomes: Vec<Result<StreamEvent, ProviderError>>)
    requires
        coherent(old(decoder)@),
    ensures
        coherent(final(decoder)@),
        match item {
            Ok(event) => match decoded(run_of(old(decoder)@, old(ids)@, Seq::empty()), event@) {
                Ok(run) => outcomes_view(outcomes@) == as_outcomes(run.events) && final(decoder)@
                    == run.state && final(ids)@ == run.ids,
                Err(message) => outcomes_view(outcomes@) == seq![
                    Err::<EventView, ErrorView>(setup_error(message)),
                ] && final(decoder)@ == old(decoder)@ && final(ids)@ == old(ids)@,
            },
            Err(error) => outcomes_view(outcomes@) == seq![
                Err::<EventView, ErrorView>(openai_provider_error(error)),
            ] && final(decoder)@ == old(decoder)@ && final(ids)@ == old(ids)@,
        },
{
    match item {
        Ok(event) => match decoder.decode(&event, ids) {
            Ok(events) => outcomes_of(events, false),
            Err(error) => single_error(
                ProviderError::with_kind(error.message, ProviderErrorKind::Fatal),
            ),
        },
        Err(error) => single_error(provider_error_from_openai(error)),
    }
}

/// The cost of a request is one request, a token for every four bytes of its body, begun
/// ones included, and the tokens that it may be answered with.
pub proof fn law_cost_of_a_request(body: JsonView, max_output_tokens: Option<u32>)
    requires
        byte_length(json_text(body)) <= u64::MAX - 3,
    ensures
        body_cost(body, max_output_tokens).requests == 1,
        ({
            let answer: int = match max_output_tokens {
                Some(tokens) => tokens as int,
                None => 0,
            };
            let words = body_cost(body, max_output_tokens).tokens - answer;
            4 * words >= byte_length(json_text(body)) && 4 * words < byte_length(json_text(body)) + 4
        }),
{
}

/// A request for another API is refused under the provider's name, and so is a compaction
/// where the provider has none.
pub proof fn law_refused_requests_are_told(
    config: ResponsesProviderConfig,
    request: ProviderRequest,
    compaction: ProviderCompactionRequest,
)
    ensures
        request.model.api_kind != ApiKind::OpenAiResponses ==> encode_refusal(
            config.label@,
            request,
        ) == Some(
            "failed to execute provider request: "@ + config.label@
                + " provider requires openai_responses api kind"@,
        ),
        compaction.model.api_kind != ApiKind::OpenAiResponses ==> compaction_refusal(
            config,
            compaction,
        ) == Some(
            "failed to compact session: "@ + config.label@
                + " provider requires openai_responses api kind"@,
        ),
        compaction.model.api_kind == ApiKind::OpenAiResponses && config.compact_strategy is None
            ==> compaction_refusal(config, compaction) == Some(
            "failed to compact session: "@ + config.label@
                + " provider does not support compaction"@,
        ),
        request.model.api_kind == ApiKind::OpenAiResponses && first_overlong(
            request_input(request),
        ) is None ==> encode_refusal(config.label@, request) is None,
        compaction.model.api_kind == ApiKind::OpenAiResponses && config.compact_strategy is Some
            && first_overlong(compact_input(compaction)) is None ==> compaction_refusal(
            config,
            compaction,
        ) is None,
{
}

/// A provider compacts as its strategy says: at the endpoint for that, or inline. Its
/// other capabilities are those it was given.
pub proof fn law_capabilities_follow_the_strategy(config: ResponsesProviderConfig)
    ensures
        ({
            let known = effective(config);
            &&& known.supports_compaction <==> config.compact_strategy is Some
            &&& config.compact_strategy == Some(CompactStrategy::DedicatedEndpoint)
                ==> known.compaction_strategy == Some(ProviderCompactionStrategy::Dedicated)
            &&& config.compact_strategy == Some(CompactStrategy::InlineResponses)
                ==> known.compaction_strategy == Some(ProviderCompactionStrategy::Inline)
            &&& config.compact_strategy is None ==> known.compaction_strategy is None
            &&& known.supports_tools == config.capabilities.supports_tools
            &&& known.supports_streaming == config.capabilities.supports_streaming
            &&& known.supports_reasoning == config.capabilities.supports_reasoning
            &&& known.supports_images == config.capabilities.supports_images
            &&& known.supports_documents == config.capabilities.supports_documents
            &&& known.supports_prompt_cache == config.capabilities.supports_prompt_cache
            &&& known.max_input_tokens == config.capabilities.max_input_tokens
            &&& known.max_output_tokens == config.capabilities.max_output_tokens
        }),
{
}

/// What the transport is told of a request: the provider, the model and its budgets, and
/// what the request costs.
pub proof fn law_request_is_described(
    meta: ResponsesTransportRequest,
    config: ResponsesProviderConfig,
    model: crate::protocol::ResolvedModel,
    body: JsonView,
)
    requires
        is_meta(meta, config, model, body),
    ensures
        meta.provider_label@ == config.label@,
        meta.model@ == model.model@,
        meta.tokens_per_minute == model.tokens_per_minute,
        meta.rate_limit_strategy == config.rate_limit_strategy,
        meta.reservation.requests == 1,
        meta.reservation == body_cost(body, model.max_output_tokens),
{
}

/// A request is made as the provider was set up: always as a stream, with its store, its
/// key, its reasoning and its temperature.
pub proof fn law_options_are_those_of_the_provider(
    options: ResponsesRequestOptions<'_>,
    provider: ResponsesProvider,
    request: ProviderRequest,
)
    requires
        is_options(options, provider, request),
    ensures
        options.stream,
        options.store == provider.config.request.store,
        provider.config.request.include_prompt_cache_key ==> options.prompt_cache_key is Some
            && options.prompt_cache_key->0@ == request.prompt.prefix_cache_key@,
        !provider.config.request.include_prompt_cache_key ==> options.prompt_cache_key is None,
        options.include_encrypted_reasoning == provider.config.request.include_encrypted_reasoning,
        options.reasoning_summary == provider.config.request.reasoning_summary,
        options.temperature is Some <==> provider.temperature is Some,
        options.temperature is Some ==> *options.temperature->0 == provider.temperature->0,
{
}

} // verus!
