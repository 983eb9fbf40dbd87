//! Stands in for a provider that is configured but not available.

use vstd::prelude::*;

use crate::capabilities::{no_capabilities, ProviderCapabilities};
use crate::protocol::{
    outcomes_view, single_error, ErrorView, EventView, ProviderError, ProviderErrorKind,
    ProviderKind, StreamEvent,
};
use crate::text::concat3;

verus! {

#[derive(Debug, Clone, Copy)]
pub struct UnsupportedProvider {
    pub kind: ProviderKind,
}

pub open spec fn kind_name(kind: ProviderKind) -> Seq<char> {
    match kind {
        ProviderKind::OpenAi => "OpenAi"@,
        ProviderKind::Anthropic => "Anthropic"@,
        ProviderKind::OpenRouter => "OpenRouter"@,
    }
}

pub open spec fn unsupported_error(kind: ProviderKind) -> ErrorView {
    ErrorView {
        message: "failed to execute provider request: "@ + kind_name(kind)
            + " transport is not wired in this build"@,
        kind: ProviderErrorKind::Fatal,
        backoff_hint: None,
    }
}

fn shown_kind(kind: ProviderKind) -> (name: &'static str)
    ensures
        name@ == kind_name(kind),
{
    match kind {
        ProviderKind::OpenAi => "OpenAi",
        ProviderKind::Anthropic => "Anthropic",
        ProviderKind::OpenRouter => "OpenRouter",
    }
}

impl UnsupportedProvider {
    pub fn new(kind: ProviderKind) -> (provider: UnsupportedProvider)
        ensures
            provider.kind == kind,
    {
        UnsupportedProvider { kind }
    }

    pub fn capabilities(&self) -> (capabilities: ProviderCapabilities)
        ensures
            capabilities == no_capabilities(),
    {
        ProviderCapabilities::default()
    }

    /// The stream that answers any request: a final error.
    pub fn stream(&self) -> (outcomes: Vec<Result<StreamEvent, ProviderError>>)
        ensures
            outcomes_view(outcomes@) == seq![
                Err::<EventView, ErrorView>(unsupported_error(self.kind)),
            ],
    {
        single_error(
            ProviderError::new(
                concat3(
                    "failed to execute provider request: ",
                    shown_kind(self.kind),
                    " transport is not wired in this build",
                ),
                false,
            ),
        )
    }
}

/// A provider without a transport says so under its name, and is not asked again.
pub proof fn law_unsupported_provider_is_named(kind: ProviderKind)
    ensures
        unsupported_error(kind).kind == ProviderErrorKind::Fatal,
        unsupported_error(kind).backoff_hint is None,
        kind == ProviderKind::OpenAi ==> unsupported_error(kind).message
            == "failed to execute provider request: OpenAi transport is not wired in this build"@,
        kind == ProviderKind::Anthropic ==> unsupported_error(kind).message
            == "failed to execute provider request: Anthropic transport is not wired in this build"@,
        kind == ProviderKind::OpenRouter ==> unsupported_error(kind).message
            == "failed to execute provider request: OpenRouter transport is not wired in this build"@,
{
    reveal_strlit("failed to execute provider request: ");
    reveal_strlit("OpenAi");
    reveal_strlit("Anthropic");
    reveal_strlit("OpenRouter");
    reveal_strlit(" transport is not wired in this build");
    reveal_strlit("failed to execute provider request: OpenAi transport is not wired in this build");
    reveal_strlit(
        "failed to execute provider request: Anthropic transport is not wired in this build",
    );
    reveal_strlit(
        "failed to execute provider request: OpenRouter transport is not wired in this build",
    );
}

} // verus!
