//! Reading error payloads and deciding whether a failed request is worth
//! another attempt.

use vstd::prelude::*;

use crate::decimals::{read_double, text_double};
use crate::doubles::{double_of, in_units, is_double, Double};
use crate::json::{json_parsed, json_parsed_bytes, str_view, string_view, Json, JsonView};
use crate::protocol::ProviderErrorKind;
use crate::text::{
    before_suffix, concat2, concat3, concat4, concat5, contains, contains_text, cut, first_word,
    has_prefix, lower_ascii, next_word, rest_after, same_text, split_once, starts_with,
    strip_suffix, text_after, to_ascii_lowercase, trim, trim_end_any, trim_end_any_spec, trimmed,
};
use crate::time::{Duration, MAX_NANOS, NANOS_PER_MILLI, NANOS_PER_SEC};

verus! {

pub const RATE_LIMIT_CODE: &'static str = "rate_limit_exceeded";

pub const RETRY_AFTER_PREFIX: &'static str = "Please try again in ";

pub const INFERRED_CAPACITY_BACKOFF_MS: u64 = 750;

/// How OpenRouter's message begins where a provider behind it failed. Such
/// failures mostly pass by themselves.
pub const OPENROUTER_UPSTREAM_WRAPPER: &'static str = "Provider returned error";

/// The code given to a server failure whose body holds no error object.
pub const SYNTHETIC_SERVER_ERROR_CODE: &'static str = "transport.server_error";

/// The code given to OpenRouter's report of a failed provider behind it.
pub const UPSTREAM_PROVIDER_ERROR_CODE: &'static str = "transport.upstream_provider_error";

/// Whether a failure is worth another attempt, and after what wait, where the
/// server suggested one.
#[derive(Debug, Clone, Copy, PartialEq, Eq, Structural)]
pub struct Retryability {
    pub kind: ProviderErrorKind,
    pub backoff_hint: Option<Duration>,
}

impl Retryability {
    pub open spec fn transient_spec(backoff_hint: Option<Duration>) -> Retryability {
        Retryability { kind: ProviderErrorKind::Transient, backoff_hint }
    }

    pub open spec fn rate_limited_spec(backoff_hint: Option<Duration>) -> Retryability {
        Retryability { kind: ProviderErrorKind::RateLimited, backoff_hint }
    }

    pub open spec fn fatal_spec() -> Retryability {
        Retryability { kind: ProviderErrorKind::Fatal, backoff_hint: None }
    }

    pub fn transient(backoff_hint: Option<Duration>) -> (retryability: Retryability)
        ensures
            retryability == Retryability::transient_spec(backoff_hint),
    {
        Retryability { kind: ProviderErrorKind::Transient, backoff_hint }
    }

    pub fn rate_limited(backoff_hint: Option<Duration>) -> (retryability: Retryability)
        ensures
            retryability == Retryability::rate_limited_spec(backoff_hint),
    {
        Retryability { kind: ProviderErrorKind::RateLimited, backoff_hint }
    }

    pub fn fatal() -> (retryability: Retryability)
        ensures
            retryability == Retryability::fatal_spec(),
    {
        Retryability { kind: ProviderErrorKind::Fatal, backoff_hint: None }
    }

    pub fn is_retryable(&self) -> (yes: bool)
        ensures
            yes == self.kind.is_retryable(),
    {
        self.kind == ProviderErrorKind::Transient || self.kind == ProviderErrorKind::RateLimited
    }

    pub fn backoff_hint(&self) -> (hint: Option<Duration>)
        ensures
            hint == self.backoff_hint,
    {
        self.backoff_hint
    }
}

/// The error object of a reply.
#[derive(Debug, PartialEq, Eq)]
pub struct ApiError {
    pub message: String,
    pub kind: Option<String>,
    pub param: Option<String>,
    pub code: Option<String>,
}

pub ghost struct ApiErrorView {
    pub message: Seq<char>,
    pub kind: Option<Seq<char>>,
    pub param: Option<Seq<char>>,
    pub code: Option<Seq<char>>,
}

impl ApiError {
    pub open spec fn view(&self) -> ApiErrorView {
        ApiErrorView {
            message: self.message@,
            kind: string_view(self.kind),
            param: string_view(self.param),
            code: string_view(self.code),
        }
    }
}

pub open spec fn api_error_view(error: Option<ApiError>) -> Option<ApiErrorView> {
    match error {
        Some(error) => Some(error@),
        None => None,
    }
}

/// What can go wrong with a request.
#[derive(Debug, PartialEq, Eq)]
pub enum OpenAIError {
    /// The connection failed.
    Reqwest(String),
    /// The server answered with an error object.
    ApiError(ApiError),
    /// The server answered with something else than was expected: what was
    /// wrong, and the answer.
    JSONDeserialize(String, String),
    FileSaveError(String),
    FileReadError(String),
    /// The event stream broke.
    StreamError(String),
    InvalidArgument(String),
}

/// The code or the type of the error is `tag`.
pub open spec fn has_tag(api: ApiErrorView, tag: Seq<char>) -> bool {
    api.code == Some(tag) || api.kind == Some(tag)
}

pub open spec fn is_rate_limit(api: ApiErrorView) -> bool {
    ||| api.code == Some(RATE_LIMIT_CODE@)
    ||| api.kind == Some("requests"@)
    ||| api.kind == Some("tokens"@)
    ||| api.kind == Some("rate_limit_error"@)
}

/// The server failed, whatever was asked of it.
pub open spec fn is_server_failure(api: ApiErrorView) -> bool {
    ||| api.code == Some(SYNTHETIC_SERVER_ERROR_CODE@)
    ||| api.code == Some(UPSTREAM_PROVIDER_ERROR_CODE@)
    ||| has_tag(api, "overloaded_error"@)
    ||| has_tag(api, "api_error"@)
    ||| has_tag(api, "server_error"@)
}

/// The server rejected what was asked of it.
pub open spec fn is_rejection(api: ApiErrorView) -> bool {
    ||| has_tag(api, "invalid_request_error"@)
    ||| has_tag(api, "invalid_request"@)
    ||| has_tag(api, "authentication_error"@)
    ||| has_tag(api, "permission_error"@)
    ||| has_tag(api, "insufficient_quota"@)
    ||| has_tag(api, "model_not_found"@)
    ||| has_tag(api, "not_found_error"@)
    ||| has_tag(api, "request_too_large"@)
    ||| has_tag(api, "context_length_exceeded"@)
    ||| has_tag(api, "content_policy_violation"@)
    ||| has_tag(api, "invalid_api_key"@)
}

/// The text speaks of an overloaded server, in capitals or not.
pub open spec fn tells_overload(text: Seq<char>) -> bool {
    contains_text(lower_ascii(text), "overloaded"@) || contains_text(
        lower_ascii(text),
        "capacity"@,
    )
}

pub open spec fn tag_tells_overload(tag: Option<Seq<char>>) -> bool {
    match tag {
        Some(tag) => tells_overload(tag),
        None => false,
    }
}

pub open spec fn error_tells_overload(api: ApiErrorView) -> bool {
    tells_overload(api.message) || tag_tells_overload(api.kind) || tag_tells_overload(api.code)
}

pub open spec fn overload_hint(overloaded: bool) -> Option<Duration> {
    if overloaded {
        Some(Duration { nanos: (INFERRED_CAPACITY_BACKOFF_MS * NANOS_PER_MILLI) as u128 })
    } else {
        None
    }
}

/// How an error object is to be treated. What tells of too many requests comes
/// first, then what tells of a failed server, then what tells of a rejection;
/// any other error is worth another attempt only where it speaks of overload.
pub open spec fn api_retryability(api: ApiErrorView) -> Retryability {
    if is_rate_limit(api) {
        Retryability::rate_limited_spec(told_wait(api.message))
    } else if is_server_failure(api) {
        Retryability::transient_spec(overload_hint(error_tells_overload(api)))
    } else if !is_rejection(api) && error_tells_overload(api) {
        Retryability::transient_spec(overload_hint(true))
    } else {
        Retryability::fatal_spec()
    }
}

pub open spec fn retryability_of(error: OpenAIError) -> Retryability {
    match error {
        OpenAIError::ApiError(api) => api_retryability(api@),
        OpenAIError::JSONDeserialize(_, content) => stream_error_retryability(
            json_parsed(content@),
        ),
        OpenAIError::Reqwest(text) => Retryability::transient_spec(
            overload_hint(tells_overload(text@)),
        ),
        OpenAIError::StreamError(text) => Retryability::transient_spec(
            overload_hint(tells_overload(text@)),
        ),
        OpenAIError::FileSaveError(_) => Retryability::fatal_spec(),
        OpenAIError::FileReadError(_) => Retryability::fatal_spec(),
        OpenAIError::InvalidArgument(_) => Retryability::fatal_spec(),
    }
}

/// How a payload is to be treated that may hold an error object.
pub open spec fn stream_error_retryability(payload: Option<JsonView>) -> Retryability {
    match payload_error(payload) {
        Some(api) => api_retryability(api),
        None => Retryability::fatal_spec(),
    }
}

/// How an error payload is to be treated: the status counts before the tags
/// where it says too many requests or a failed server.
pub open spec fn payload_retryability(
    status: Option<u16>,
    error_type: Option<Seq<char>>,
    message: Seq<char>,
) -> Retryability {
    let by_tags = api_retryability(
        ApiErrorView { message, kind: error_type, param: None, code: None },
    );
    match status {
        Some(status) => if status == 429 {
            Retryability::rate_limited_spec(by_tags.backoff_hint)
        } else if status >= 500 {
            Retryability::transient_spec(by_tags.backoff_hint)
        } else {
            by_tags
        },
        None => by_tags,
    }
}

/// The span of so many seconds, rounded to the nearest nanosecond; none where it
/// is negative or too long.
pub open spec fn span_of(seconds: Option<int>) -> Option<Duration> {
    match seconds {
        Some(seconds) => if seconds < 0 || in_units(seconds as nat, NANOS_PER_SEC as nat)
            > MAX_NANOS {
            None
        } else {
            Some(Duration { nanos: in_units(seconds as nat, NANOS_PER_SEC as nat) as u128 })
        },
        None => None,
    }
}

/// The span of so many milliseconds.
pub open spec fn millis_span(millis: Option<int>) -> Option<Duration> {
    match millis {
        Some(millis) => if millis < 0 {
            None
        } else {
            span_of(double_of(millis, 1000))
        },
        None => None,
    }
}

/// So many minutes in seconds.
pub open spec fn minutes_in_seconds(minutes: Option<int>) -> Option<int> {
    match minutes {
        Some(minutes) => double_of(minutes * 60, 1),
        None => None,
    }
}

/// The seconds after the minutes; none given means none.
pub open spec fn seconds_part(text: Seq<char>) -> Option<int> {
    if text.len() == 0 {
        Some(0)
    } else {
        text_double(text)
    }
}

pub open spec fn minutes_and_seconds(minutes: Seq<char>, seconds: Seq<char>) -> Option<Duration> {
    match (minutes_in_seconds(text_double(minutes)), seconds_part(seconds)) {
        (Some(minutes), Some(seconds)) => span_of(double_of(minutes + seconds, 1)),
        _ => None,
    }
}

/// The span that a token such as `250ms`, `1.25s`, `1m`, `2min` or `6m59.6s`
/// stands for. Its numbers are doubles, and what is reckoned with them is
/// rounded to doubles at every step.
pub open spec fn token_span(token: Seq<char>) -> Option<Duration> {
    let token = trim_end_any_spec(token, ".,;"@);
    if let Some(millis) = before_suffix(token, "ms"@) {
        millis_span(text_double(millis))
    } else if let Some(rest) = before_suffix(token, "s"@) {
        match cut(rest, 'm') {
            Some((minutes, seconds)) => minutes_and_seconds(minutes, seconds),
            None => span_of(text_double(rest)),
        }
    } else if let Some(minutes) = before_suffix(token, "min"@) {
        span_of(minutes_in_seconds(text_double(minutes)))
    } else if let Some(minutes) = before_suffix(token, "m"@) {
        span_of(minutes_in_seconds(text_double(minutes)))
    } else {
        None
    }
}

/// The wait that a message asks for in words.
pub open spec fn told_wait(message: Seq<char>) -> Option<Duration> {
    match text_after(message, RETRY_AFTER_PREFIX@) {
        Some(rest) => match first_word(rest) {
            Some(token) => token_span(token),
            None => None,
        },
        None => None,
    }
}

/// A text with something in it but white space, without the white space around
/// it.
pub open spec fn said(text: Option<Seq<char>>) -> Option<Seq<char>> {
    match text {
        Some(text) => if trimmed(text).len() > 0 {
            Some(trimmed(text))
        } else {
            None
        },
        None => None,
    }
}

/// The message together with what a provider behind OpenRouter said.
pub open spec fn composed_message(
    message: Seq<char>,
    provider: Option<Seq<char>>,
    raw: Option<Seq<char>>,
) -> Seq<char> {
    match (provider, raw) {
        (Some(provider), Some(raw)) => message + " ("@ + provider + ": "@ + raw + ")"@,
        (None, Some(raw)) => message + ": "@ + raw,
        (Some(provider), None) => message + " ("@ + provider + ")"@,
        (None, None) => message,
    }
}

/// The error that an object with a message stands for.
pub open spec fn object_error(value: JsonView) -> Option<ApiErrorView> {
    match said(value.get_str("message"@)) {
        Some(message) => Some(
            ApiErrorView {
                message: composed_message(
                    message,
                    said(value.get_in_str("metadata"@, "provider_name"@)),
                    said(value.get_in_str("metadata"@, "raw"@)),
                ),
                kind: if value.get_str("type"@) == Some("error"@) {
                    None
                } else {
                    value.get_str("type"@)
                },
                param: value.get_str("param"@),
                code: match value.get_str("code"@) {
                    Some(code) => Some(code),
                    None => if has_prefix(message, OPENROUTER_UPSTREAM_WRAPPER@) {
                        Some(UPSTREAM_PROVIDER_ERROR_CODE@)
                    } else {
                        None
                    },
                },
            },
        ),
        None => None,
    }
}

/// The error that a payload reports: in its `error` member, or in itself where
/// its type says so.
pub open spec fn value_error(value: JsonView) -> Option<ApiErrorView> {
    let wrapped = match value.get("error"@) {
        Some(inner) => object_error(inner),
        None => None,
    };
    if wrapped is Some {
        wrapped
    } else if value.get_str("type"@) == Some("error"@) {
        object_error(value)
    } else {
        None
    }
}

pub open spec fn payload_error(payload: Option<JsonView>) -> Option<ApiErrorView> {
    match payload {
        Some(value) => value_error(value),
        None => None,
    }
}

fn is_text(text: &Option<String>, wanted: &str) -> (same: bool)
    ensures
        same == (string_view(*text) == Some(wanted@)),
{
    match text {
        Some(text) => same_text(text, wanted),
        None => false,
    }
}

fn tagged(error: &ApiError, tag: &str) -> (yes: bool)
    ensures
        yes == has_tag(error@, tag@),
{
    is_text(&error.code, tag) || is_text(&error.kind, tag)
}

pub fn openai_api_error_is_rate_limit(error: &ApiError) -> (yes: bool)
    ensures
        yes == is_rate_limit(error@),
{
    is_text(&error.code, RATE_LIMIT_CODE) || is_text(&error.kind, "requests") || is_text(
        &error.kind,
        "tokens",
    ) || is_text(&error.kind, "rate_limit_error")
}

fn api_error_is_server_failure(error: &ApiError) -> (yes: bool)
    ensures
        yes == is_server_failure(error@),
{
    is_text(&error.code, SYNTHETIC_SERVER_ERROR_CODE) || is_text(
        &error.code,
        UPSTREAM_PROVIDER_ERROR_CODE,
    ) || tagged(error, "overloaded_error") || tagged(error, "api_error") || tagged(
        error,
        "server_error",
    )
}

fn openai_api_error_is_explicit_fatal(error: &ApiError) -> (yes: bool)
    ensures
        yes == is_rejection(error@),
{
    tagged(error, "invalid_request_error") || tagged(error, "invalid_request") || tagged(
        error,
        "authentication_error",
    ) || tagged(error, "permission_error") || tagged(error, "insufficient_quota") || tagged(
        error,
        "model_not_found",
    ) || tagged(error, "not_found_error") || tagged(error, "request_too_large") || tagged(
        error,
        "context_length_exceeded",
    ) || tagged(error, "content_policy_violation") || tagged(error, "invalid_api_key")
}

fn capacity_backoff_hint(message: &str) -> (hint: Option<Duration>)
    ensures
        hint == overload_hint(tells_overload(message@)),
{
    let lower = to_ascii_lowercase(message);
    if contains(&lower, "overloaded") || contains(&lower, "capacity") {
        Some(Duration::from_millis(INFERRED_CAPACITY_BACKOFF_MS))
    } else {
        None
    }
}

fn tag_backoff_hint(tag: &Option<String>) -> (hint: Option<Duration>)
    ensures
        hint == overload_hint(tag_tells_overload(string_view(*tag))),
{
    match tag {
        Some(tag) => capacity_backoff_hint(tag),
        None => None,
    }
}

fn api_capacity_backoff_hint(error: &ApiError) -> (hint: Option<Duration>)
    ensures
        hint == overload_hint(error_tells_overload(error@)),
{
    let by_message = capacity_backoff_hint(&error.message);
    if by_message.is_some() {
        return by_message;
    }
    let by_kind = tag_backoff_hint(&error.kind);
    if by_kind.is_some() {
        return by_kind;
    }
    tag_backoff_hint(&error.code)
}

/// The wait that a rate-limit error asks for.
pub fn openai_api_error_retry_after(error: &ApiError) -> (wait: Option<Duration>)
    ensures
        wait == if is_rate_limit(error@) {
            told_wait(error.message@)
        } else {
            None
        },
{
    if openai_api_error_is_rate_limit(error) {
        parse_openai_retry_after_message(&error.message)
    } else {
        None
    }
}

/// How an error object is to be treated.
pub fn classify_api_error(api: &ApiError) -> (retryability: Retryability)
    ensures
        retryability == api_retryability(api@),
{
    if openai_api_error_is_rate_limit(api) {
        return Retryability::rate_limited(openai_api_error_retry_after(api));
    }
    let hint = api_capacity_backoff_hint(api);
    if api_error_is_server_failure(api) {
        return Retryability::transient(hint);
    }
    if openai_api_error_is_explicit_fatal(api) {
        return Retryability::fatal();
    }
    if hint.is_some() {
        Retryability::transient(hint)
    } else {
        Retryability::fatal()
    }
}

/// How a failure is to be treated. The one classifier for what fails before a
/// stream begins and for what fails in it.
pub fn classify(error: &OpenAIError) -> (retryability: Retryability)
    ensures
        retryability == retryability_of(*error),
{
    match error {
        OpenAIError::ApiError(api) => classify_api_error(api),
        OpenAIError::JSONDeserialize(_, content) => match parse_openai_stream_error(content) {
            Some(api) => classify_api_error(&api),
            None => Retryability::fatal(),
        },
        OpenAIError::Reqwest(text) => Retryability::transient(capacity_backoff_hint(text)),
        OpenAIError::StreamError(text) => Retryability::transient(capacity_backoff_hint(text)),
        OpenAIError::FileSaveError(_) => Retryability::fatal(),
        OpenAIError::FileReadError(_) => Retryability::fatal(),
        OpenAIError::InvalidArgument(_) => Retryability::fatal(),
    }
}

/// How an error payload is to be treated that has a type and a message, and
/// perhaps a status.
pub fn classify_error_payload(status: Option<u16>, error_type: Option<&str>, message: &str) -> (
retryability: Retryability)
    ensures
        retryability == payload_retryability(status, str_view(error_type), message@),
{
    let kind = match error_type {
        Some(kind) => Some(kind.to_owned()),
        None => None,
    };
    let api = ApiError { message: message.to_owned(), kind, param: None, code: None };
    let by_tags = classify_api_error(&api);
    match status {
        Some(status) => {
            if status == 429 {
                Retryability::rate_limited(by_tags.backoff_hint)
            } else if status >= 500 {
                Retryability::transient(by_tags.backoff_hint)
            } else {
                by_tags
            }
        },
        None => by_tags,
    }
}

fn said_text(text: Option<&str>) -> (kept: Option<String>)
    ensures
        string_view(kept) == said(str_view(text)),
{
    match text {
        Some(text) => {
            let kept = trim(text);
            if kept.as_str().is_empty() {
                None
            } else {
                Some(kept)
            }
        },
        None => None,
    }
}

fn owned_text(text: Option<&str>) -> (owned: Option<String>)
    ensures
        string_view(owned) == str_view(text),
{
    match text {
        Some(text) => Some(text.to_owned()),
        None => None,
    }
}

/// Reads an error object.
pub fn parse_api_error_object(value: &Json) -> (error: Option<ApiError>)
    ensures
        api_error_view(error) == object_error(value@),
{
    let message = match said_text(value.get_str("message")) {
        Some(message) => message,
        None => {
            return None;
        },
    };
    let provider = said_text(value.get_in_str("metadata", "provider_name"));
    let raw = said_text(value.get_in_str("metadata", "raw"));
    let composed = match (&provider, &raw) {
        (Some(provider), Some(raw)) => concat2(
            &concat5(&message, " (", provider, ": ", raw),
            ")",
        ),
        (None, Some(raw)) => concat3(&message, ": ", raw),
        (Some(provider), None) => concat4(&message, " (", provider, ")"),
        (None, None) => message.clone(),
    };
    let kind = match value.get_str("type") {
        Some(kind) => if same_text(kind, "error") {
            None
        } else {
            Some(kind.to_owned())
        },
        None => None,
    };
    let code = match value.get_str("code") {
        Some(code) => Some(code.to_owned()),
        None => if starts_with(&message, OPENROUTER_UPSTREAM_WRAPPER) {
            Some(UPSTREAM_PROVIDER_ERROR_CODE.to_owned())
        } else {
            None
        },
    };
    Some(ApiError { message: composed, kind, param: owned_text(value.get_str("param")), code })
}

/// Reads the error that a payload reports.
pub fn parse_openai_error_value(value: &Json) -> (error: Option<ApiError>)
    ensures
        api_error_view(error) == value_error(value@),
{
    if let Some(inner) = value.get("error") {
        let wrapped = parse_api_error_object(inner);
        if wrapped.is_some() {
            return wrapped;
        }
    }
    match value.get_str("type") {
        Some(kind) => if same_text(kind, "error") {
            parse_api_error_object(value)
        } else {
            None
        },
        None => None,
    }
}

/// Reads the error of a reply's body.
pub fn parse_openai_http_error(body: &[u8]) -> (error: Option<ApiError>)
    ensures
        api_error_view(error) == payload_error(json_parsed_bytes(body@)),
{
    match Json::parse_bytes(body) {
        Some(value) => parse_openai_error_value(&value),
        None => None,
    }
}

/// Reads the error of a stream event.
pub fn parse_openai_stream_error(data: &str) -> (error: Option<ApiError>)
    ensures
        api_error_view(error) == payload_error(json_parsed(data@)),
{
    match Json::parse(data) {
        Some(value) => parse_openai_error_value(&value),
        None => None,
    }
}

fn duration_from_secs(value: Option<Double>) -> (span: Option<Duration>)
    requires
        value matches Some(value) ==> value.well_formed(),
    ensures
        span == span_of(
            match value {
                Some(value) => Some(value@),
                None => None,
            },
        ),
{
    match value {
        Some(value) => if value.is_negative() {
            None
        } else {
            match value.in_billionths(MAX_NANOS) {
                Some(nanos) => Some(Duration { nanos }),
                None => None,
            }
        },
        None => None,
    }
}

fn duration_from_millis(millis: &str) -> (span: Option<Duration>)
    ensures
        span == millis_span(text_double(millis@)),
{
    match read_double(millis) {
        Some(value) => if value.is_negative() {
            None
        } else {
            duration_from_secs(value.thousandth())
        },
        None => None,
    }
}

fn read_minutes(minutes: &str) -> (seconds: Option<Double>)
    ensures
        is_double(seconds, minutes_in_seconds(text_double(minutes@))),
{
    match read_double(minutes) {
        Some(minutes) => minutes.times(60),
        None => None,
    }
}

fn minutes_and_seconds_from(minutes: &str, seconds: &str) -> (span: Option<Duration>)
    ensures
        span == minutes_and_seconds(minutes@, seconds@),
{
    let seconds = if seconds.is_empty() {
        Some(Double::nought())
    } else {
        read_double(seconds)
    };
    match (read_minutes(minutes), seconds) {
        (Some(minutes), Some(seconds)) => duration_from_secs(minutes.plus(&seconds)),
        _ => None,
    }
}

/// Reads a token such as `250ms`, `1.25s`, `1m`, `2min` or `6m59.6s`.
fn parse_duration_token(token: &str) -> (span: Option<Duration>)
    ensures
        span == token_span(token@),
{
    let token = trim_end_any(token, ".,;");
    if let Some(millis) = strip_suffix(&token, "ms") {
        return duration_from_millis(&millis);
    }
    if let Some(rest) = strip_suffix(&token, "s") {
        return match split_once(&rest, 'm') {
            Some((minutes, seconds)) => minutes_and_seconds_from(&minutes, &seconds),
            None => duration_from_secs(read_double(&rest)),
        };
    }
    if let Some(minutes) = strip_suffix(&token, "min") {
        return duration_from_secs(read_minutes(&minutes));
    }
    if let Some(minutes) = strip_suffix(&token, "m") {
        return duration_from_secs(read_minutes(&minutes));
    }
    None
}

/// The wait that a message asks for in words, such as
/// `Please try again in 1.25s`.
pub fn parse_openai_retry_after_message(message: &str) -> (wait: Option<Duration>)
    ensures
        wait == told_wait(message@),
{
    let rest = match rest_after(message, RETRY_AFTER_PREFIX) {
        Some(rest) => rest,
        None => {
            return None;
        },
    };
    match next_word(&rest) {
        Some(token) => parse_duration_token(&token),
        None => None,
    }
}

/// Too many requests and failed servers are always worth another attempt,
/// whatever the payload says.
pub proof fn law_server_status_is_retryable(
    status: u16,
    error_type: Option<Seq<char>>,
    message: Seq<char>,
)
    requires
        status == 429 || status >= 500,
    ensures
        payload_retryability(Some(status), error_type, message).kind.is_retryable(),
{
}

/// A rejection that nothing else overrides is final, even where its words speak
/// of capacity.
pub proof fn law_rejection_stays_fatal(api: ApiErrorView)
    requires
        is_rejection(api),
        !is_rate_limit(api),
        !is_server_failure(api),
    ensures
        api_retryability(api) == Retryability::fatal_spec(),
{
}

/// OpenRouter's report of a failed provider behind it is worth another attempt,
/// with or without details, unless it brings a code of its own.
pub proof fn law_upstream_failure_is_retryable(value: JsonView)
    requires
        value.get_str("message"@) is Some,
        has_prefix(trimmed(value.get_str("message"@)->0), OPENROUTER_UPSTREAM_WRAPPER@),
        value.get_str("code"@) is None,
    ensures
        object_error(value) is Some,
        api_retryability(object_error(value)->0).kind.is_retryable(),
{
    reveal_strlit("Provider returned error");
}

/// A wait is only suggested where another attempt is worth it.
pub proof fn law_no_hint_without_retry(api: ApiErrorView)
    ensures
        api_retryability(api).backoff_hint is Some ==> api_retryability(api).kind.is_retryable(),
{
}

/// How an error object is shown: its type, message, parameter and code, as far
/// as there are any.
pub open spec fn shown_api_error(api: ApiErrorView) -> Seq<char> {
    let kind = match api.kind {
        Some(kind) => kind + ": "@,
        None => Seq::empty(),
    };
    let param = match api.param {
        Some(param) => " (param: "@ + param + ")"@,
        None => Seq::empty(),
    };
    let code = match api.code {
        Some(code) => " (code: "@ + code + ")"@,
        None => Seq::empty(),
    };
    kind + api.message + param + code
}

pub open spec fn shown_error(error: OpenAIError) -> Seq<char> {
    match error {
        OpenAIError::Reqwest(text) => "http error: "@ + text@,
        OpenAIError::ApiError(api) => shown_api_error(api@),
        OpenAIError::JSONDeserialize(reason, content) => {
            "failed to deserialize api response: error:"@ + reason@ + " content:"@ + content@
        },
        OpenAIError::FileSaveError(text) => "failed to save file: "@ + text@,
        OpenAIError::FileReadError(text) => "failed to read file: "@ + text@,
        OpenAIError::StreamError(text) => "stream failed: "@ + text@,
        OpenAIError::InvalidArgument(text) => "invalid args: "@ + text@,
    }
}

impl ApiError {
    /// The error in words.
    pub fn display_text(&self) -> (text: String)
        ensures
            text@ == shown_api_error(self@),
    {
        let mut text = match &self.kind {
            Some(kind) => concat2(kind, ": "),
            None => String::new(),
        };
        text.append(&self.message);
        if let Some(param) = &self.param {
            text.append(&concat3(" (param: ", param, ")"));
        }
        let ghost so_far = text@;
        assert(so_far == so_far + Seq::<char>::empty());
        if let Some(code) = &self.code {
            text.append(&concat3(" (code: ", code, ")"));
        }
        assert(text@ =~= shown_api_error(self@));
        text
    }
}

impl OpenAIError {
    /// The error in words.
    pub fn display_text(&self) -> (text: String)
        ensures
            text@ == shown_error(*self),
    {
        match self {
            OpenAIError::Reqwest(text) => concat2("http error: ", text),
            OpenAIError::ApiError(api) => api.display_text(),
            OpenAIError::JSONDeserialize(reason, content) => concat4(
                "failed to deserialize api response: error:",
                reason,
                " content:",
                content,
            ),
            OpenAIError::FileSaveError(text) => concat2("failed to save file: ", text),
            OpenAIError::FileReadError(text) => concat2("failed to read file: ", text),
            OpenAIError::StreamError(text) => concat2("stream failed: ", text),
            OpenAIError::InvalidArgument(text) => concat2("invalid args: ", text),
        }
    }
}

// ---------------------------------------------------------------------------
// What failures are worth

/// The error goes by that tag: as its code or as its type.
pub open spec fn goes_by(api: ApiErrorView, tag: Seq<char>) -> bool {
    api.code == Some(tag) || api.kind == Some(tag)
}

/// What tells of too many requests is worth another attempt as such, after the wait
/// that the message asks for.
pub proof fn law_too_many_requests_are_waited_for(api: ApiErrorView)
    requires
        api.code == Some("rate_limit_exceeded"@) || api.kind == Some("requests"@) || api.kind
            == Some("tokens"@) || api.kind == Some("rate_limit_error"@),
    ensures
        api_retryability(api).kind == ProviderErrorKind::RateLimited,
        api_retryability(api).backoff_hint == told_wait(api.message),
{
}

/// The text has that word, in capitals or not.
pub open spec fn has_word(text: Option<Seq<char>>, word: Seq<char>) -> bool {
    text is Some && contains_text(lower_ascii(text->0), word)
}

/// Some of what the error says speaks of overload or capacity.
pub open spec fn speaks_of_overload(api: ApiErrorView) -> bool {
    ||| has_word(Some(api.message), "overloaded"@)
    ||| has_word(Some(api.message), "capacity"@)
    ||| has_word(api.kind, "overloaded"@)
    ||| has_word(api.kind, "capacity"@)
    ||| has_word(api.code, "overloaded"@)
    ||| has_word(api.code, "capacity"@)
}

/// A failed server is worth another attempt: at once, or after three quarters of a
/// second where it is overloaded.
pub proof fn law_failed_server_is_asked_again(api: ApiErrorView)
    requires
        api.code != Some("rate_limit_exceeded"@),
        api.kind != Some("requests"@),
        api.kind != Some("tokens"@),
        api.kind != Some("rate_limit_error"@),
        api.code == Some("transport.server_error"@) || api.code == Some(
            "transport.upstream_provider_error"@,
        ) || goes_by(api, "overloaded_error"@) || goes_by(api, "api_error"@) || goes_by(
            api,
            "server_error"@,
        ),
    ensures
        api_retryability(api).kind == ProviderErrorKind::Transient,
        speaks_of_overload(api) ==> (api_retryability(api).backoff_hint matches Some(hint)
            && hint.nanos == 750_000_000),
        !speaks_of_overload(api) ==> api_retryability(api).backoff_hint is None,
{
}

/// What was rejected is not worth another attempt, whatever it says; an error of no
/// known sort is only where it speaks of overload.
pub proof fn law_rejected_request_is_not_asked_again(api: ApiErrorView)
    requires
        api.code != Some("rate_limit_exceeded"@),
        api.kind != Some("requests"@),
        api.kind != Some("tokens"@),
        api.kind != Some("rate_limit_error"@),
        api.code != Some("transport.server_error"@),
        api.code != Some("transport.upstream_provider_error"@),
        !goes_by(api, "overloaded_error"@),
        !goes_by(api, "api_error"@),
        !goes_by(api, "server_error"@),
    ensures
        ({
            let rejected = {
                ||| goes_by(api, "invalid_request_error"@)
                ||| goes_by(api, "invalid_request"@)
                ||| goes_by(api, "authentication_error"@)
                ||| goes_by(api, "permission_error"@)
                ||| goes_by(api, "insufficient_quota"@)
                ||| goes_by(api, "model_not_found"@)
                ||| goes_by(api, "not_found_error"@)
                ||| goes_by(api, "request_too_large"@)
                ||| goes_by(api, "context_length_exceeded"@)
                ||| goes_by(api, "content_policy_violation"@)
                ||| goes_by(api, "invalid_api_key"@)
            };
            let worth = api_retryability(api);
            &&& rejected || !speaks_of_overload(api) ==> worth.kind == ProviderErrorKind::Fatal
                && worth.backoff_hint is None
            &&& !rejected && speaks_of_overload(api) ==> worth.kind
                == ProviderErrorKind::Transient && (worth.backoff_hint matches Some(hint)
                && hint.nanos == 750_000_000)
        }),
{
}

/// A connection or a stream that broke is worth another attempt; a file that could not
/// be read or written and a wrong argument are not. An answer that was not understood
/// counts as the error that it holds.
pub proof fn law_broken_connection_is_tried_again(error: OpenAIError)
    ensures
        match error {
            OpenAIError::Reqwest(_) => retryability_of(error).kind == ProviderErrorKind::Transient,
            OpenAIError::StreamError(_) => retryability_of(error).kind
                == ProviderErrorKind::Transient,
            OpenAIError::FileSaveError(_) => retryability_of(error).kind
                == ProviderErrorKind::Fatal,
            OpenAIError::FileReadError(_) => retryability_of(error).kind
                == ProviderErrorKind::Fatal,
            OpenAIError::InvalidArgument(_) => retryability_of(error).kind
                == ProviderErrorKind::Fatal,
            OpenAIError::ApiError(api) => retryability_of(error) == api_retryability(api@),
            OpenAIError::JSONDeserialize(_, content) => match json_parsed(content@) {
                Some(value) => match value_error(value) {
                    Some(api) => retryability_of(error) == api_retryability(api),
                    None => retryability_of(error).kind == ProviderErrorKind::Fatal,
                },
                None => retryability_of(error).kind == ProviderErrorKind::Fatal,
            },
        },
{
}

/// The status counts before the tags: too many requests for 429, a failed server for
/// 500 and above, and the tags for anything else.
pub proof fn law_status_counts_first(
    status: u16,
    error_type: Option<Seq<char>>,
    message: Seq<char>,
)
    ensures
        ({
            let tagged = payload_retryability(None, error_type, message);
            let worth = payload_retryability(Some(status), error_type, message);
            &&& tagged == api_retryability(
                ApiErrorView { message, kind: error_type, param: None, code: None },
            )
            &&& worth.backoff_hint == tagged.backoff_hint
            &&& status == 429 ==> worth.kind == ProviderErrorKind::RateLimited
            &&& status >= 500 ==> worth.kind == ProviderErrorKind::Transient
            &&& status < 500 && status != 429 ==> worth.kind == tagged.kind
        }),
{
}

/// The error that an object reports: it needs a message, which is told with the name of
/// the provider behind it and its words, where they are given. Its type, parameter and
/// code are kept, but for a type that only says that it is an error. A failed provider
/// behind OpenRouter is stamped as one.
pub proof fn law_error_object_is_read(value: JsonView, message: Seq<char>)
    requires
        value.get_str("message"@) is Some,
        trimmed(value.get_str("message"@)->0) == message,
        message.len() > 0,
    ensures
        object_error(value) matches Some(api) && {
            let provider = said(value.get_in_str("metadata"@, "provider_name"@));
            let raw = said(value.get_in_str("metadata"@, "raw"@));
            let kind = value.get_str("type"@);
            let code = value.get_str("code"@);
            &&& provider is None && raw is None ==> api.message == message
            &&& provider is Some && raw is Some ==> api.message == message + " ("@ + provider->0
                + ": "@ + raw->0 + ")"@
            &&& provider is None && raw is Some ==> api.message == message + ": "@ + raw->0
            &&& provider is Some && raw is None ==> api.message == message + " ("@ + provider->0
                + ")"@
            &&& kind != Some("error"@) ==> api.kind == kind
            &&& kind == Some("error"@) ==> api.kind is None
            &&& api.param == value.get_str("param"@)
            &&& code is Some ==> api.code == code
            &&& code is None && has_prefix(message, "Provider returned error"@) ==> api.code
                == Some("transport.upstream_provider_error"@)
            &&& code is None && !has_prefix(message, "Provider returned error"@) ==> api.code is None
        },
{
}

/// A payload reports the error in its `error` member, or itself where its type says so;
/// without a message there is none.
pub proof fn law_error_payload_is_read(value: JsonView, inner: JsonView)
    ensures
        value.get("error"@) == Some(inner) && object_error(inner) is Some ==> value_error(value)
            == object_error(inner),
        value.get("error"@) is None && value.get_str("type"@) == Some("error"@) ==> value_error(
            value,
        ) == object_error(value),
        value.get("error"@) is None && value.get_str("type"@) != Some("error"@) ==> value_error(
            value,
        ) is None,
        value.get_str("message"@) is None ==> object_error(value) is None,
        value.get_str("message"@) is Some && trimmed(value.get_str("message"@)->0).len() == 0
            ==> object_error(value) is None,
{
}

/// The wait that a message asks for stands behind `Please try again in `, as one word.
pub proof fn law_wait_is_read_from_words(before: Seq<char>, token: Seq<char>, after: Seq<char>)
    requires
        token.len() > 0,
        forall|i: int| 0 <= i < token.len() ==> !crate::text::is_white_space(#[trigger] token[i]),
        after.len() > 0 ==> crate::text::is_white_space(after[0]),
        forall|k: int| 0 <= k < before.len() ==> !#[trigger] crate::text::occurs_at(
            before + "Please try again in "@ + (token + after),
            "Please try again in "@,
            k,
        ),
    ensures
        told_wait(before + "Please try again in "@ + (token + after)) == token_span(token),
{
    crate::text::law_rest_is_found(before, "Please try again in "@, token + after);
    crate::text::law_first_word(Seq::empty(), token, after);
    assert(Seq::<char>::empty() + token + after =~= token + after);
}

proof fn lemma_unmarked(text: Seq<char>)
    requires
        text.len() > 0,
        text.last() != '.',
        text.last() != ',',
        text.last() != ';',
    ensures
        trim_end_any_spec(text, ".,;"@) == text,
{
    reveal_strlit(".,;");
    let marks = ".,;"@;
    assert(marks.len() == 3 && marks[0] == '.' && marks[1] == ',' && marks[2] == ';');
    if marks.contains(text.last()) {
        let i = choose|i: int| 0 <= i < marks.len() && marks[i] == text.last();
        assert(i == 0 || i == 1 || i == 2);
    }
}

proof fn lemma_untrimmed(number: Seq<char>, unit: Seq<char>)
    requires
        unit.len() > 0,
        unit.last() != '.',
        unit.last() != ',',
        unit.last() != ';',
    ensures
        trim_end_any_spec(number + unit, ".,;"@) == number + unit,
        before_suffix(number + unit, unit) == Some(number),
        (number + unit).last() == unit.last(),
{
    let text = number + unit;
    assert(text.last() == unit.last());
    lemma_unmarked(text);
    assert(before_suffix(text, unit) == Some(number)) by {
        crate::text::law_parts_are_found(number, unit, Seq::empty());
    }
}

/// Milliseconds are told as `ms`.
pub proof fn law_milliseconds_are_told(number: Seq<char>)
    ensures
        token_span(number + "ms"@) == millis_span(text_double(number)),
{
    reveal_strlit("ms");
    assert("ms"@.len() == 2 && "ms"@[1] == 's');
    lemma_untrimmed(number, "ms"@);
}

/// Minutes are told as `m` or as `min`.
pub proof fn law_minutes_are_told(number: Seq<char>)
    ensures
        token_span(number + "m"@) == span_of(minutes_in_seconds(text_double(number))),
        token_span(number + "min"@) == span_of(minutes_in_seconds(text_double(number))),
{
    reveal_strlit("ms");
    reveal_strlit("min");
    reveal_strlit("m");
    reveal_strlit("s");
    assert("ms"@.len() == 2 && "ms"@[1] == 's');
    assert("min"@.len() == 3 && "min"@[2] == 'n');
    assert("m"@.len() == 1 && "m"@[0] == 'm');
    assert("s"@.len() == 1 && "s"@[0] == 's');
    lemma_untrimmed(number, "m"@);
    lemma_untrimmed(number, "min"@);
    lemma_other_ending(number + "min"@, "ms"@);
    lemma_other_ending(number + "min"@, "s"@);
    lemma_other_ending(number + "m"@, "ms"@);
    lemma_other_ending(number + "m"@, "s"@);
    lemma_other_ending(number + "m"@, "min"@);
}

/// Seconds are told as `s`, alone or behind minutes.
pub proof fn law_seconds_are_told(minutes: Seq<char>, number: Seq<char>)
    requires
        number.len() > 0,
        !number.contains('m'),
        !minutes.contains('m'),
    ensures
        token_span(number + "s"@) == span_of(text_double(number)),
        token_span(minutes.push('m') + number + "s"@) == match (
            minutes_in_seconds(text_double(minutes)),
            text_double(number),
        ) {
            (Some(long), Some(short)) => span_of(double_of(long + short, 1)),
            _ => None,
        },
{
    reveal_strlit("ms");
    reveal_strlit("s");
    assert("ms"@.len() == 2 && "ms"@[0] == 'm' && "ms"@[1] == 's');
    assert("s"@.len() == 1 && "s"@[0] == 's');
    let whole = minutes.push('m') + number;
    lemma_untrimmed(number, "s"@);
    lemma_untrimmed(whole, "s"@);
    lemma_not_millis(number);
    assert(whole.last() == number.last());
    lemma_ends_otherwise(whole, number);
    number.index_of_first_ensures('m');
    crate::text::law_text_is_cut_at_the_first(minutes, 'm', number);
}

proof fn lemma_not_millis(number: Seq<char>)
    requires
        number.len() > 0,
        !number.contains('m'),
    ensures
        before_suffix(number + "s"@, "ms"@) is None,
        cut(number, 'm') is None,
{
    lemma_ends_otherwise(number, number);
    number.index_of_first_ensures('m');
}

proof fn lemma_ends_otherwise(whole: Seq<char>, number: Seq<char>)
    requires
        number.len() > 0,
        whole.len() > 0,
        whole.last() == number.last(),
        !number.contains('m'),
    ensures
        before_suffix(whole + "s"@, "ms"@) is None,
{
    reveal_strlit("ms");
    reveal_strlit("s");
    assert("ms"@.len() == 2 && "ms"@[0] == 'm');
    assert("s"@.len() == 1);
    assert(number.contains(number.last()));
    let token = whole + "s"@;
    if crate::text::occurs_at(token, "ms"@, token.len() - 2) {
        assert(token.subrange(token.len() - 2, token.len() as int)[0] == 'm');
        assert(token[token.len() - 2] == whole.last());
    }
}

/// A dot, a comma or a semicolon behind a token says nothing.
pub proof fn law_marks_behind_a_wait_say_nothing(token: Seq<char>)
    ensures
        token_span(token.push('.')) == token_span(token),
        token_span(token.push(',')) == token_span(token),
        token_span(token.push(';')) == token_span(token),
{
    lemma_dropped(token, '.');
    lemma_dropped(token, ',');
    lemma_dropped(token, ';');
}

proof fn lemma_other_ending(text: Seq<char>, suffix: Seq<char>)
    requires
        suffix.len() > 0,
        text.len() > 0,
        text.last() != suffix.last(),
    ensures
        before_suffix(text, suffix) is None,
{
    let at = text.len() - suffix.len();
    if crate::text::occurs_at(text, suffix, at) {
        assert(text.subrange(at, at + suffix.len()).last() == text.last());
    }
}

proof fn lemma_dropped(text: Seq<char>, c: char)
    requires
        c == '.' || c == ',' || c == ';',
    ensures
        trim_end_any_spec(text.push(c), ".,;"@) == trim_end_any_spec(text, ".,;"@),
{
    reveal_strlit(".,;");
    assert(".,;"@.len() == 3 && ".,;"@[0] == '.' && ".,;"@[1] == ',' && ".,;"@[2] == ';');
    assert(".,;"@.contains(c));
    assert(text.push(c).drop_last() =~= text);
}

/// An error in words: its kind before the message, its parameter and its code behind it.
pub proof fn law_error_object_in_words(
    message: Seq<char>,
    kind: Seq<char>,
    code: Seq<char>,
    param: Seq<char>,
)
    ensures
        ({
            let bare = ApiErrorView { message, kind: None, param: None, code: None };
            &&& shown_api_error(bare) == message
            &&& shown_api_error(ApiErrorView { kind: Some(kind), ..bare }) == kind + ": "@ + message
            &&& shown_api_error(ApiErrorView { code: Some(code), ..bare }) == message + " (code: "@
                + code + ")"@
            &&& shown_api_error(ApiErrorView { param: Some(param), ..bare }) == message
                + " (param: "@ + param + ")"@
            &&& shown_api_error(
                ApiErrorView { message, kind: Some(kind), param: Some(param), code: Some(code) },
            ) == kind + ": "@ + message + " (param: "@ + param + ")"@ + " (code: "@ + code + ")"@
        }),
{
    let bare = ApiErrorView { message, kind: None, param: None, code: None };
    assert(shown_api_error(bare) =~= message);
    assert(shown_api_error(ApiErrorView { kind: Some(kind), ..bare }) =~= kind + ": "@ + message);
    assert(shown_api_error(ApiErrorView { code: Some(code), ..bare }) =~= message + " (code: "@
        + code + ")"@);
    assert(shown_api_error(ApiErrorView { param: Some(param), ..bare }) =~= message
        + " (param: "@ + param + ")"@);
    assert(shown_api_error(
        ApiErrorView { message, kind: Some(kind), param: Some(param), code: Some(code) },
    ) =~= kind + ": "@ + message + " (param: "@ + param + ")"@ + " (code: "@ + code + ")"@);
}

/// Every other error says what failed and then why.
pub proof fn law_errors_in_words(text: String, content: String)
    ensures
        shown_error(OpenAIError::Reqwest(text)) == "http error: "@ + text@,
        shown_error(OpenAIError::JSONDeserialize(text, content))
            == "failed to deserialize api response: error:"@ + text@ + " content:"@ + content@,
        shown_error(OpenAIError::FileSaveError(text)) == "failed to save file: "@ + text@,
        shown_error(OpenAIError::FileReadError(text)) == "failed to read file: "@ + text@,
        shown_error(OpenAIError::StreamError(text)) == "stream failed: "@ + text@,
        shown_error(OpenAIError::InvalidArgument(text)) == "invalid args: "@ + text@,
{
}

/// What an upstream provider said is put behind the message, with its name where that is
/// known.
pub proof fn law_upstream_words_are_put_behind(
    message: Seq<char>,
    provider: Seq<char>,
    raw: Seq<char>,
)
    ensures
        composed_message(message, None, None) == message,
        composed_message(message, None, Some(raw)) == message + ": "@ + raw,
        composed_message(message, Some(provider), None) == message + " ("@ + provider + ")"@,
        composed_message(message, Some(provider), Some(raw)) == message + " ("@ + provider + ": "@
            + raw + ")"@,
{
}

/// Words count without the white space round them, and not at all where there is nothing
/// else.
pub proof fn law_blank_words_do_not_count(text: Seq<char>)
    ensures
        trimmed(text).len() == 0 ==> said(Some(text)) is None,
        trimmed(text).len() > 0 ==> said(Some(text)) == Some(trimmed(text)),
        said(None) is None,
{
}

} // verus!
