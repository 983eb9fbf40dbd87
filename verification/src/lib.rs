//! Provider-side logic for talking to model APIs: wire codecs, retry and
//! rate-limit policies, error classification and provider bookkeeping.

pub mod anthropic;
pub mod anthropic_codec;
pub mod anthropic_laws;
pub mod anthropic_stream;
pub mod brackets;
pub mod capabilities;
pub mod codec_common;
pub mod compaction_laws;
pub mod content;
pub mod decimals;
pub mod doubles;
pub mod fake;
pub mod hash;
pub mod header_overrides;
pub mod headers;
pub mod http_client;
pub mod http_message;
pub mod ids;
pub mod json;
pub mod keyed;
pub mod message_collector;
pub mod model_judge;
pub mod naturals;
pub mod openai;
pub mod openai_chat;
pub mod openai_codec;
pub mod openai_error;
pub mod openai_laws;
pub mod openai_message_laws;
pub mod openai_rate_limit;
pub mod openai_rate_limit_policy;
pub mod openai_stream;
pub mod openrouter;
pub mod protocol;
pub mod registry;
pub mod reply_laws;
pub mod request_laws;
pub mod resilience;
pub mod resilience_laws;
pub mod response_events;
pub mod responses_provider;
pub mod responses_transport;
pub mod retry;
pub mod secret;
pub mod text;
pub mod time;
pub mod unsupported;

pub use anthropic::AnthropicProvider;
pub use fake::FakeProvider;
pub use model_judge::{
    Candidate, ModelJudgeMember, ModelJudgeProvider, MODEL_JUDGE_RANK_TOOL,
    MODEL_JUDGE_TRACE_TARGET,
};
pub use openai::OpenAiProvider;
pub use openrouter::OpenRouterProvider;
pub use protocol::ProviderErrorKind;
pub use registry::ModelRegistry;
pub use resilience::{
    DefaultProviderErrorClassifier, ProviderErrorClassifier, ProviderTimeouts, ResiliencePolicy,
    ResilientProvider,
};
pub use retry::RetryPolicy;
pub use secret::SecretString;
pub use unsupported::UnsupportedProvider;
