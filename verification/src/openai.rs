//! The OpenAI provider.

use vstd::prelude::*;

use crate::capabilities::{ProviderCapabilities, ProviderCompactionStrategy, ToolCallIdPolicy};
use crate::header_overrides::{first_pair_error, pairs_view, small_names};
use crate::protocol::CodecError;
use crate::resilience::{is_default_policy, ResiliencePolicy};
use crate::responses_provider::{
    effective, CompactStrategy, ResponsesProvider, ResponsesProviderConfig,
    ResponsesProviderRequestConfig,
};
use crate::responses_transport::ResponsesRateLimitStrategy;
use crate::secret::SecretString;

verus! {

/// Streams through the Responses API, compacts through its own endpoint and
/// keeps to the budgets that the server reports.
pub struct OpenAiProvider {
    pub inner: ResponsesProvider,
}

/// What tells OpenAI from other Responses providers.
pub open spec fn is_openai_config(config: ResponsesProviderConfig) -> bool {
    &&& config.label@ == "openai"@
    &&& config.capabilities == (ProviderCapabilities {
        supports_tools: true,
        supports_streaming: true,
        supports_reasoning: true,
        supports_interleaved_reasoning: false,
        supports_images: true,
        supports_documents: true,
        supports_prompt_cache: true,
        supports_compaction: true,
        compaction_strategy: None,
        supports_tool_result_media: false,
        requires_non_empty_assistant_content: false,
        tool_call_id_policy: ToolCallIdPolicy::ProviderSupplied,
        max_input_tokens: 200_000,
        max_output_tokens: 8_192,
    })
    &&& config.request.store is None
    &&& config.request.include_prompt_cache_key
    &&& config.request.include_encrypted_reasoning
    &&& config.request.reasoning_summary matches Some(summary) && summary@ == "auto"@
    &&& config.compact_strategy == Some(CompactStrategy::DedicatedEndpoint)
    &&& config.rate_limit_strategy == Some(ResponsesRateLimitStrategy::OpenAiHeaders)
    &&& is_default_policy(config.resilience_policy)
}

pub fn config() -> (config: ResponsesProviderConfig)
    ensures
        is_openai_config(config),
{
    ResponsesProviderConfig {
        label: "openai",
        capabilities: ProviderCapabilities {
            supports_tools: true,
            supports_streaming: true,
            supports_reasoning: true,
            supports_interleaved_reasoning: false,
            supports_images: true,
            supports_documents: true,
            supports_prompt_cache: true,
            supports_compaction: true,
            compaction_strategy: None,
            supports_tool_result_media: false,
            requires_non_empty_assistant_content: false,
            tool_call_id_policy: ToolCallIdPolicy::ProviderSupplied,
            max_input_tokens: 200_000,
            max_output_tokens: 8_192,
        },
        request: ResponsesProviderRequestConfig {
            store: None,
            include_prompt_cache_key: true,
            include_encrypted_reasoning: true,
            reasoning_summary: Some("auto"),
        },
        compact_strategy: Some(CompactStrategy::DedicatedEndpoint),
        rate_limit_strategy: Some(ResponsesRateLimitStrategy::OpenAiHeaders),
        resilience_policy: ResiliencePolicy::default(),
    }
}

impl OpenAiProvider {
    pub fn new(api_key: SecretString, base_url: String) -> (provider: Result<
        OpenAiProvider,
        CodecError,
    >)
        ensures
            provider matches Ok(provider) && is_openai_config(provider.inner.config)
                && provider.inner.api_key@ == api_key@ && provider.inner.base_url == base_url
                && provider.inner.header_overrides@.len() == 0
                && provider.inner.temperature is None,
    {
        let none: [(String, String); 0] = [];
        assert(pairs_view(none@) =~= Seq::empty());
        OpenAiProvider::new_with_headers(api_key, base_url, &none)
    }

    /// A provider with header overrides, which replace any default header
    /// whatever the capitals.
    pub fn new_with_headers(
        api_key: SecretString,
        base_url: String,
        header_overrides: &[(String, String)],
    ) -> (provider: Result<OpenAiProvider, CodecError>)
        ensures
            match provider {
                Ok(provider) => {
                    &&& first_pair_error(pairs_view(header_overrides@)) is None
                    &&& is_openai_config(provider.inner.config)
                    &&& provider.inner.api_key@ == api_key@
                    &&& provider.inner.base_url == base_url
                    &&& provider.inner.header_overrides@ == small_names(
                        pairs_view(header_overrides@),
                    )
                    &&& provider.inner.temperature is None
                },
                Err(error) => first_pair_error(pairs_view(header_overrides@)) == Some(error@),
            },
    {
        match ResponsesProvider::try_new(config(), api_key, base_url, header_overrides, None) {
            Ok(inner) => Ok(OpenAiProvider { inner }),
            Err(error) => Err(error),
        }
    }

    pub fn capabilities(&self) -> (capabilities: ProviderCapabilities)
        ensures
            capabilities == effective(self.inner.config),
    {
        self.inner.capabilities()
    }
}

/// The provider may keep replies, has its reasoning handed back, takes documents, compacts
/// at an endpoint of its own and keeps to the budgets that the server reports.
pub proof fn law_openai_is_set_up(config: ResponsesProviderConfig)
    requires
        is_openai_config(config),
    ensures
        config.label@ == "openai"@,
        config.request.store is None,
        config.request.include_encrypted_reasoning,
        effective(config).supports_documents,
        effective(config).compaction_strategy == Some(ProviderCompactionStrategy::Dedicated),
        config.rate_limit_strategy is Some,
        config.request.include_prompt_cache_key,
        config.request.reasoning_summary matches Some(summary) && summary@ == "auto"@,
        effective(config).supports_tools && effective(config).supports_streaming,
        effective(config).supports_reasoning && effective(config).supports_images,
        effective(config).supports_prompt_cache && effective(config).supports_compaction,
        !effective(config).supports_interleaved_reasoning,
        !effective(config).supports_tool_result_media,
        !effective(config).requires_non_empty_assistant_content,
        effective(config).tool_call_id_policy == ToolCallIdPolicy::ProviderSupplied,
        effective(config).max_input_tokens == 200_000,
        effective(config).max_output_tokens == 8_192,
{
}

} // verus!
