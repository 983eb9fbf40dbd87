//! What the replies of a Responses endpoint amount to, and what they teach the
//! rate limiter.

use vstd::prelude::*;

use crate::http_client::STREAM_END_MARK;
use crate::json::{json_parsed, json_parsed_bytes, Json, JsonView};
use crate::openai_error::{
    api_error_view, classify, is_rate_limit, openai_api_error_retry_after, parse_openai_error_value,
    parse_openai_http_error, payload_error, retryability_of, shown_error, told_wait, ApiError,
    ApiErrorView, OpenAIError, Retryability, SYNTHETIC_SERVER_ERROR_CODE,
};
use crate::openai_rate_limit::{known_state, wait_report, OpenAiRateLimiter};
use crate::openai_rate_limit_policy::{
    no_reservation, reconciled, OpenAiRateLimitState, OpenAiReservation,
};
use crate::openai_stream::ResponseStreamEvent;
use crate::protocol::{cancelled_error, ErrorView, ProviderError, ProviderErrorKind};
use crate::response_events::{is_reading, parse_reply_event, sdk_event};
use crate::text::{concat2, concat4, from_utf8_lossy, lossy_text, same_text, trim, trimmed};
use crate::time::{Duration, Moment};

verus! {

pub const RESPONSES_PATH: &'static str = "/v1/responses";

pub const RESPONSES_COMPACT_PATH: &'static str = "/v1/responses/compact";

/// How a call ended that brought no reply to work with.
#[derive(Debug)]
pub enum TransportError {
    /// The caller gave up; never tried again.
    Cancelled,
    /// Worth another attempt, perhaps after the wait that the server suggested.
    Retryable { source: OpenAIError, kind: ProviderErrorKind, backoff_hint: Option<Duration> },
    /// Not worth another attempt.
    Fatal { source: OpenAIError },
}

/// The error, sorted by how it is to be treated.
pub open spec fn is_sorted_as(
    transport: TransportError,
    error: OpenAIError,
    retryability: Retryability,
) -> bool {
    match transport {
        TransportError::Retryable { source, kind, backoff_hint } => source == error
            && kind == retryability.kind && backoff_hint == retryability.backoff_hint
            && kind.is_retryable(),
        TransportError::Fatal { source } => source == error && !retryability.kind.is_retryable(),
        TransportError::Cancelled => false,
    }
}

/// The error, sorted by whether it is worth another attempt.
pub open spec fn is_sorted(transport: TransportError, error: OpenAIError) -> bool {
    is_sorted_as(transport, error, retryability_of(error))
}

/// How the error of a refused request is to be treated: a failed server is worth
/// another attempt whatever its error says, after the wait that it suggests.
pub open spec fn refusal_retryability(status: u16, error: OpenAIError) -> Retryability {
    if 500 <= status < 600 {
        Retryability::transient_spec(retryability_of(error).backoff_hint)
    } else {
        retryability_of(error)
    }
}

pub const CANCELLED_TRANSPORT: &'static str =
    "failed to execute provider request: request cancelled";

pub open spec fn shown_transport(transport: TransportError) -> Seq<char> {
    match transport {
        TransportError::Cancelled => CANCELLED_TRANSPORT@,
        TransportError::Retryable { source, .. } => "retryable provider failure: "@ + shown_error(
            source,
        ),
        TransportError::Fatal { source } => "fatal provider failure: "@ + shown_error(source),
    }
}

/// The error object that stands for a broken connection.
pub open spec fn connection_error(label: Seq<char>, reason: Seq<char>) -> ApiErrorView {
    ApiErrorView {
        message: "failed to execute "@ + label + " request: "@ + ("http error: "@ + reason),
        kind: None,
        param: None,
        code: Some(SYNTHETIC_SERVER_ERROR_CODE@),
    }
}

impl TransportError {
    pub fn from_openai(source: OpenAIError) -> (transport: TransportError)
        ensures
            is_sorted(transport, source),
    {
        let retryability = classify(&source);
        TransportError::sorted_as(source, retryability)
    }

    /// The error of a refused request, sorted with its status in mind.
    pub fn from_refusal(status: u16, source: OpenAIError) -> (transport: TransportError)
        ensures
            is_sorted_as(transport, source, refusal_retryability(status, source)),
    {
        let by_error = classify(&source);
        let retryability = if 500 <= status && status < 600 {
            Retryability::transient(by_error.backoff_hint)
        } else {
            by_error
        };
        TransportError::sorted_as(source, retryability)
    }

    fn sorted_as(source: OpenAIError, retryability: Retryability) -> (transport: TransportError)
        ensures
            is_sorted_as(transport, source, retryability),
    {
        if retryability.is_retryable() {
            TransportError::Retryable {
                source,
                kind: retryability.kind,
                backoff_hint: retryability.backoff_hint,
            }
        } else {
            TransportError::Fatal { source }
        }
    }

    /// A broken connection is always worth another attempt.
    pub fn from_reqwest(reason: String, label: &str) -> (transport: TransportError)
        ensures
            match transport {
                TransportError::Retryable { source: OpenAIError::ApiError(api), kind, backoff_hint } =>
                api@ == connection_error(label@, reason@) && kind == ProviderErrorKind::Transient
                    && backoff_hint == retryability_of(OpenAIError::Reqwest(reason)).backoff_hint,
                _ => false,
            },
    {
        let wrapped = OpenAIError::Reqwest(reason);
        let retryability = classify(&wrapped);
        let shown = wrapped.display_text();
        TransportError::Retryable {
            source: OpenAIError::ApiError(
                ApiError {
                    message: concat4("failed to execute ", label, " request: ", &shown),
                    kind: None,
                    param: None,
                    code: Some(SYNTHETIC_SERVER_ERROR_CODE.to_owned()),
                },
            ),
            kind: retryability.kind,
            backoff_hint: retryability.backoff_hint,
        }
    }

    /// A request for budget that came to nothing.
    pub fn permit_refused(reason: &str) -> (transport: TransportError)
        ensures
            match transport {
                TransportError::Fatal { source: OpenAIError::ApiError(api) } => api@ == (
                ApiErrorView {
                    message: "failed to acquire rate-limit permit: "@ + reason@,
                    kind: None,
                    param: None,
                    code: None,
                }),
                _ => false,
            },
    {
        TransportError::Fatal {
            source: OpenAIError::ApiError(
                ApiError {
                    message: concat2("failed to acquire rate-limit permit: ", reason),
                    kind: None,
                    param: None,
                    code: None,
                },
            ),
        }
    }

    /// The error in words.
    pub fn display_text(&self) -> (text: String)
        ensures
            text@ == shown_transport(*self),
    {
        match self {
            TransportError::Cancelled => CANCELLED_TRANSPORT.to_owned(),
            TransportError::Retryable { source, .. } => concat2(
                "retryable provider failure: ",
                &source.display_text(),
            ),
            TransportError::Fatal { source } => concat2(
                "fatal provider failure: ",
                &source.display_text(),
            ),
        }
    }
}

/// The provider error that an error of the endpoint amounts to.
pub open spec fn openai_provider_error(error: OpenAIError) -> ErrorView {
    ErrorView {
        message: "failed to execute provider request: "@ + shown_error(error),
        kind: retryability_of(error).kind,
        backoff_hint: retryability_of(error).backoff_hint,
    }
}

pub open spec fn transport_provider_error(transport: TransportError) -> ErrorView {
    match transport {
        TransportError::Cancelled => cancelled_error(),
        TransportError::Retryable { source, kind, backoff_hint } => ErrorView {
            message: "failed to execute provider request: "@ + shown_error(source),
            kind,
            backoff_hint,
        },
        TransportError::Fatal { source } => ErrorView {
            message: "failed to execute provider request: "@ + shown_error(source),
            kind: ProviderErrorKind::Fatal,
            backoff_hint: None,
        },
    }
}

fn request_error(source: &OpenAIError, kind: ProviderErrorKind, backoff_hint: Option<Duration>) -> (
error: ProviderError)
    ensures
        error@ == (ErrorView {
            message: "failed to execute provider request: "@ + shown_error(*source),
            kind,
            backoff_hint,
        }),
{
    let message = concat2("failed to execute provider request: ", &source.display_text());
    ProviderError::with_kind(message, kind).with_backoff_hint(backoff_hint)
}

/// The provider error that an error of the endpoint amounts to: it is treated as
/// the classifier says.
pub fn provider_error_from_openai(source: OpenAIError) -> (error: ProviderError)
    ensures
        error@ == openai_provider_error(source),
{
    let retryability = classify(&source);
    request_error(&source, retryability.kind, retryability.backoff_hint)
}

/// The provider error that a failed call amounts to.
pub fn provider_error_from_transport(transport: TransportError) -> (error: ProviderError)
    ensures
        error@ == transport_provider_error(transport),
{
    match transport {
        TransportError::Cancelled => ProviderError::cancelled(),
        TransportError::Retryable { source, kind, backoff_hint } => request_error(
            &source,
            kind,
            backoff_hint,
        ),
        TransportError::Fatal { source } => request_error(&source, ProviderErrorKind::Fatal, None),
    }
}

/// Events of the stream that carry no part of a reply.
#[derive(Debug, Clone, Copy, PartialEq, Eq, Structural)]
pub enum NonStandardStreamEvent {
    Keepalive { sequence_number: u64 },
}

pub open spec fn non_standard(data: JsonView) -> Option<NonStandardStreamEvent> {
    if data.get_str("type"@) == Some("keepalive"@) {
        match data.get_u64("sequence_number"@) {
            Some(sequence_number) => Some(NonStandardStreamEvent::Keepalive { sequence_number }),
            None => None,
        }
    } else {
        None
    }
}

impl NonStandardStreamEvent {
    pub fn parse(data: &Json) -> (event: Option<NonStandardStreamEvent>)
        ensures
            event == non_standard(data@),
    {
        match data.get_str("type") {
            Some(kind) => if same_text(kind, "keepalive") {
                match data.get_u64("sequence_number") {
                    Some(sequence_number) => Some(
                        NonStandardStreamEvent::Keepalive { sequence_number },
                    ),
                    None => None,
                }
            } else {
                None
            },
            None => None,
        }
    }
}

#[derive(Debug, Clone, Copy, PartialEq, Eq, Structural)]
pub enum ResponsesRateLimitStrategy {
    OpenAiHeaders,
}

/// What the transport has to know of a request besides its body.
#[derive(Debug)]
pub struct ResponsesTransportRequest {
    pub provider_label: &'static str,
    pub model: String,
    pub reservation: OpenAiReservation,
    pub rate_limit_strategy: Option<ResponsesRateLimitStrategy>,
    pub tokens_per_minute: Option<u64>,
}

/// What a limiter knows after an error was reported: a rate limit that names a
/// wait is taken in, with the model's token budget; other errors teach nothing.
pub open spec fn after_error(
    states: Map<Seq<char>, OpenAiRateLimitState>,
    model: Seq<char>,
    tokens_per_minute: Option<u64>,
    error: ApiErrorView,
    now: Moment,
) -> Map<Seq<char>, OpenAiRateLimitState> {
    if is_rate_limit(error) && told_wait(error.message) is Some {
        states.insert(
            model,
            reconciled(
                known_state(states, model, tokens_per_minute),
                no_reservation(),
                Some(wait_report(told_wait(error.message)->0)),
                now,
            ),
        )
    } else {
        states
    }
}

/// Tells the limiter of errors that come in the middle of a stream.
#[derive(Debug)]
pub struct OpenAiStreamRateLimitObserver {
    pub model: String,
    pub tokens_per_minute: Option<u64>,
}

impl OpenAiStreamRateLimitObserver {
    pub fn record_api_error(&self, limiter: &mut OpenAiRateLimiter, error: &ApiError, now: Moment)
        ensures
            final(limiter)@ == after_error(
                old(limiter)@,
                self.model@,
                self.tokens_per_minute,
                error@,
                now,
            ),
    {
        if let Some(retry_after) = openai_api_error_retry_after(error) {
            limiter.apply_retry_after(&self.model, self.tokens_per_minute, retry_after, now);
        }
    }
}

/// What the data of a stream event holds.
#[derive(Debug)]
pub enum StreamData {
    /// An error object.
    Failed(ApiError),
    /// Nothing to act on.
    Skipped,
    /// A step of the reply, or something that cannot be read.
    Event,
}

pub open spec fn is_stream_data(data: StreamData, value: Option<JsonView>) -> bool {
    match payload_error(value) {
        Some(api) => data matches StreamData::Failed(error) && error@ == api,
        None => match value {
            Some(value) => if non_standard(value) is Some {
                data is Skipped
            } else {
                data is Event
            },
            None => data is Event,
        },
    }
}

/// Sorts the data of a stream event, given the JSON value it holds.
pub fn sort_stream_value(value: Option<&Json>) -> (data: StreamData)
    ensures
        is_stream_data(data, crate::json::json_view(value)),
{
    match value {
        Some(value) => {
            if let Some(error) = parse_openai_error_value(value) {
                return StreamData::Failed(error);
            }
            if NonStandardStreamEvent::parse(value).is_some() {
                return StreamData::Skipped;
            }
            StreamData::Event
        },
        None => StreamData::Event,
    }
}

/// What the data of a stream event is decoded to: an error object is an error,
/// an event that carries no part of a reply is nothing, and anything else is
/// what it is read as.
pub open spec fn is_decoded_event(
    decoded: Result<Option<ResponseStreamEvent>, OpenAIError>,
    data: Seq<char>,
    value: Option<JsonView>,
    event: Result<JsonView, Seq<char>>,
) -> bool {
    match payload_error(value) {
        Some(api) => decoded matches Err(OpenAIError::ApiError(error)) && error@ == api,
        None => if value is Some && non_standard(value->0) is Some {
            decoded matches Ok(None)
        } else {
            match decoded {
                Ok(Some(reading)) => is_reading(Ok(reading), data, event),
                Ok(None) => false,
                Err(error) => is_reading(Err(error), data, event),
            }
        },
    }
}

/// Decodes the data of a stream event; the limiter is told of an error.
pub fn decode_stream_event(
    data: &str,
    observer: &OpenAiStreamRateLimitObserver,
    limiter: &mut OpenAiRateLimiter,
    now: Moment,
) -> (decoded: Result<Option<ResponseStreamEvent>, OpenAIError>)
    ensures
        is_decoded_event(decoded, data@, json_parsed(data@), sdk_event(data@)),
        final(limiter)@ == match payload_error(json_parsed(data@)) {
            Some(error) => after_error(
                old(limiter)@,
                observer.model@,
                observer.tokens_per_minute,
                error,
                now,
            ),
            None => old(limiter)@,
        },
{
    let sorted = match Json::parse(data) {
        Some(value) => sort_stream_value(Some(&value)),
        None => sort_stream_value(None),
    };
    match sorted {
        StreamData::Failed(error) => {
            observer.record_api_error(limiter, &error, now);
            Err(OpenAIError::ApiError(error))
        },
        StreamData::Skipped => Ok(None),
        StreamData::Event => match parse_reply_event(data) {
            Ok(event) => Ok(Some(event)),
            Err(error) => Err(error),
        },
    }
}

/// What the data of a stream event asks for.
#[derive(Debug)]
pub enum StreamStep {
    /// Pass this on.
    Item(Result<ResponseStreamEvent, OpenAIError>),
    /// Read on.
    Skip,
    /// The stream is over, whatever may follow.
    End,
}

pub open spec fn is_stream_step(
    step: StreamStep,
    data: Seq<char>,
    value: Option<JsonView>,
    event: Result<JsonView, Seq<char>>,
) -> bool {
    if data == STREAM_END_MARK@ {
        step is End
    } else {
        match step {
            StreamStep::Item(Ok(read)) => is_decoded_event(Ok(Some(read)), data, value, event),
            StreamStep::Item(Err(error)) => is_decoded_event(Err(error), data, value, event),
            StreamStep::Skip => is_decoded_event(Ok(None), data, value, event),
            StreamStep::End => false,
        }
    }
}

/// Takes in the data of a stream event. The mark ends the stream; the limiter is
/// told of an error.
pub fn take_stream_data(
    data: &str,
    observer: &OpenAiStreamRateLimitObserver,
    limiter: &mut OpenAiRateLimiter,
    now: Moment,
) -> (step: StreamStep)
    ensures
        is_stream_step(step, data@, json_parsed(data@), sdk_event(data@)),
        step is End <==> data@ == STREAM_END_MARK@,
        final(limiter)@ == match payload_error(json_parsed(data@)) {
            Some(error) if data@ != STREAM_END_MARK@ => after_error(
                old(limiter)@,
                observer.model@,
                observer.tokens_per_minute,
                error,
                now,
            ),
            _ => old(limiter)@,
        },
{
    if same_text(data, STREAM_END_MARK) {
        return StreamStep::End;
    }
    match decode_stream_event(data, observer, limiter, now) {
        Ok(Some(event)) => StreamStep::Item(Ok(event)),
        Ok(None) => StreamStep::Skip,
        Err(error) => StreamStep::Item(Err(error)),
    }
}

/// The error object of a refused request: the one in its body, if there is one,
/// and otherwise one with the body's words, which carries a code of its own where
/// the server failed.
pub open spec fn refused(
    status: u16,
    reported: Option<ApiErrorView>,
    words: Seq<char>,
) -> ApiErrorView {
    match reported {
        Some(error) => error,
        None => ApiErrorView {
            message: trimmed(words),
            kind: None,
            param: None,
            code: if 500 <= status < 600 {
                Some(SYNTHETIC_SERVER_ERROR_CODE@)
            } else {
                None
            },
        },
    }
}

/// The error object of a refused request, given the one in its body, if any, and
/// the body's words.
pub fn refusal_of(status: u16, reported: Option<ApiError>, words: &str) -> (error: ApiError)
    ensures
        error@ == refused(status, api_error_view(reported), words@),
{
    match reported {
        Some(error) => error,
        None => {
            let code = if 500 <= status && status < 600 {
                Some(SYNTHETIC_SERVER_ERROR_CODE.to_owned())
            } else {
                None
            };
            ApiError { message: trim(words), kind: None, param: None, code }
        },
    }
}

/// The error of a refused request.
pub fn decode_openai_error(status: u16, body: &[u8]) -> (error: OpenAIError)
    ensures
        error matches OpenAIError::ApiError(api) && api@ == refused(
            status,
            payload_error(json_parsed_bytes(body@)),
            lossy_text(body@),
        ),
{
    let reported = parse_openai_http_error(body);
    let words = from_utf8_lossy(body);
    OpenAIError::ApiError(refusal_of(status, reported, &words))
}

/// Ends a refused request: the limiter is told of a wait that the server asked
/// for, and the error is sorted.
pub fn conclude_refusal(
    request: &ResponsesTransportRequest,
    limiter: &mut OpenAiRateLimiter,
    status: u16,
    body: &[u8],
    now: Moment,
) -> (transport: TransportError)
    ensures
        exists|error: OpenAIError|
            {
                &&& #[trigger] is_sorted_as(transport, error, refusal_retryability(status, error))
                &&& error matches OpenAIError::ApiError(api) && api@ == refused(
                    status,
                    payload_error(json_parsed_bytes(body@)),
                    lossy_text(body@),
                )
            },
        final(limiter)@ == after_error(
            old(limiter)@,
            request.model@,
            request.tokens_per_minute,
            refused(status, payload_error(json_parsed_bytes(body@)), lossy_text(body@)),
            now,
        ),
{
    let error = decode_openai_error(status, body);
    if let OpenAIError::ApiError(api) = &error {
        if let Some(retry_after) = openai_api_error_retry_after(api) {
            limiter.apply_retry_after(&request.model, request.tokens_per_minute, retry_after, now);
        }
    }
    TransportError::from_refusal(status, error)
}

/// Sorting an error and turning it into a provider error agrees with
/// classifying it: the same kind, the same suggested wait.
pub proof fn law_transport_agrees_with_classifier(transport: TransportError, error: OpenAIError)
    requires
        is_sorted(transport, error),
    ensures
        transport_provider_error(transport) == openai_provider_error(error),
{
}

/// A failed server is always worth another attempt, whatever its body says.
pub proof fn law_server_failure_is_retryable(
    status: u16,
    transport: TransportError,
    error: OpenAIError,
)
    requires
        500 <= status < 600,
        is_sorted_as(transport, error, refusal_retryability(status, error)),
    ensures
        transport_provider_error(transport).kind == ProviderErrorKind::Transient,
{
}

/// A failed server without an error object is one that the classifier tries again
/// by itself.
pub proof fn law_stamped_failure_is_retryable(status: u16, words: Seq<char>)
    requires
        500 <= status < 600,
    ensures
        crate::openai_error::api_retryability(refused(status, None, words)).kind
            == ProviderErrorKind::Transient,
{
    reveal_strlit("transport.server_error");
    reveal_strlit("rate_limit_exceeded");
    assert(SYNTHETIC_SERVER_ERROR_CODE@.len() != crate::openai_error::RATE_LIMIT_CODE@.len());
}

/// A refused request is told by the error object of its body; without one the words of
/// the body are the message, and a code is put to it where the status is one of a
/// failed server, and nowhere else.
pub proof fn law_refusal_keeps_its_words(status: u16, reported: ApiErrorView, words: Seq<char>)
    ensures
        refused(status, Some(reported), words) == reported,
        refused(status, None, words).message == trimmed(words),
        refused(status, None, words).kind is None,
        refused(status, None, words).param is None,
        500 <= status <= 599 ==> refused(status, None, words).code == Some(
            "transport.server_error"@,
        ),
        status < 500 || status > 599 ==> refused(status, None, words).code is None,
{
}

/// A failed call is told in the words of its error. One that was given up is cancelled,
/// one worth another attempt keeps its kind and its wait, any other is fatal and names
/// no wait.
pub proof fn law_failed_call_is_told(
    source: OpenAIError,
    kind: ProviderErrorKind,
    backoff_hint: Option<Duration>,
)
    ensures
        transport_provider_error(TransportError::Cancelled) == (ErrorView {
            message: "provider request cancelled"@,
            kind: ProviderErrorKind::Cancelled,
            backoff_hint: None,
        }),
        transport_provider_error(TransportError::Retryable { source, kind, backoff_hint }) == (
        ErrorView {
            message: "failed to execute provider request: "@ + shown_error(source),
            kind,
            backoff_hint,
        }),
        transport_provider_error(TransportError::Fatal { source }) == (ErrorView {
            message: "failed to execute provider request: "@ + shown_error(source),
            kind: ProviderErrorKind::Fatal,
            backoff_hint: None,
        }),
{
}

/// An error is worth another attempt where it is a passing one or a rate limit, and then
/// it is sorted so, with its wait; any other is fatal. None is taken for a call that was
/// given up.
pub proof fn law_errors_are_sorted_by_kind(
    transport: TransportError,
    error: OpenAIError,
    retryability: Retryability,
)
    requires
        is_sorted_as(transport, error, retryability),
    ensures
        (retryability.kind == ProviderErrorKind::Transient || retryability.kind
            == ProviderErrorKind::RateLimited) <==> transport == (TransportError::Retryable {
            source: error,
            kind: retryability.kind,
            backoff_hint: retryability.backoff_hint,
        }),
        (retryability.kind == ProviderErrorKind::Fatal || retryability.kind
            == ProviderErrorKind::Cancelled) ==> transport == (TransportError::Fatal {
            source: error,
        }),
{
}

/// A refused request outside the statuses of a failed server is treated as its error
/// says; within them it is a passing failure, after the wait that the error names.
pub proof fn law_status_of_a_failed_server_counts(status: u16, error: OpenAIError)
    ensures
        500 <= status <= 599 ==> refusal_retryability(status, error).kind
            == ProviderErrorKind::Transient,
        refusal_retryability(status, error).backoff_hint == retryability_of(error).backoff_hint,
        status < 500 || status > 599 ==> refusal_retryability(status, error) == retryability_of(
            error,
        ),
{
}

/// A broken connection names what was asked of and what went wrong, under the code of a
/// failed server.
pub proof fn law_broken_connection_is_told(label: Seq<char>, reason: Seq<char>)
    ensures
        connection_error(label, reason).message == "failed to execute "@ + label
            + " request: http error: "@ + reason,
        connection_error(label, reason).code == Some("transport.server_error"@),
        connection_error(label, reason).kind is None,
        connection_error(label, reason).param is None,
{
    reveal_strlit(" request: ");
    reveal_strlit("http error: ");
    reveal_strlit(" request: http error: ");
    assert(" request: http error: "@ =~= " request: "@ + "http error: "@);
    assert(connection_error(label, reason).message =~= "failed to execute "@ + label
        + " request: http error: "@ + reason);
}

/// A failed call in words says whether it is worth another attempt.
pub proof fn law_failed_call_in_words(
    source: OpenAIError,
    kind: ProviderErrorKind,
    backoff_hint: Option<Duration>,
)
    ensures
        shown_transport(TransportError::Cancelled)
            == "failed to execute provider request: request cancelled"@,
        shown_transport(TransportError::Retryable { source, kind, backoff_hint })
            == "retryable provider failure: "@ + shown_error(source),
        shown_transport(TransportError::Fatal { source }) == "fatal provider failure: "@
            + shown_error(source),
{
}

/// A sign of life is passed over, once it has its number; what is neither that nor an
/// error object is a step of the reply.
pub proof fn law_signs_of_life_are_passed_over(data: StreamData, value: JsonView, number: u64)
    requires
        is_stream_data(data, Some(value)),
        payload_error(Some(value)) is None,
    ensures
        value.get_str("type"@) == Some("keepalive"@) && value.get_u64("sequence_number"@) == Some(
            number,
        ) ==> data is Skipped && non_standard(value) == Some(
            NonStandardStreamEvent::Keepalive { sequence_number: number },
        ),
        value.get_str("type"@) != Some("keepalive"@) ==> data is Event,
        value.get_u64("sequence_number"@) is None ==> data is Event,
{
}

/// The stream is over at its mark, and at nothing else. Before it an error object is
/// passed on as an error, and a sign of life is not passed on.
pub proof fn law_stream_is_over_at_its_mark(
    step: StreamStep,
    data: Seq<char>,
    value: Option<JsonView>,
    event: Result<JsonView, Seq<char>>,
)
    requires
        is_stream_step(step, data, value, event),
    ensures
        step is End <==> data == "[DONE]"@,
        data != "[DONE]"@ && payload_error(value) is Some ==> (step matches StreamStep::Item(
            Err(OpenAIError::ApiError(error)),
        ) && error@ == payload_error(value)->0),
        data != "[DONE]"@ && payload_error(value) is None && value is Some ==> (step is Skip <==> (
        value->0.get_str("type"@) == Some("keepalive"@) && value->0.get_u64("sequence_number"@)
            is Some)),
{
}

/// A rate limit that names a wait keeps its model waiting at least that long, and
/// exactly that long where no longer wait was known. Other models are left alone, and
/// so is every model where the error is no rate limit or names no wait.
pub proof fn law_named_wait_is_kept(
    states: Map<Seq<char>, OpenAiRateLimitState>,
    model: Seq<char>,
    tokens_per_minute: Option<u64>,
    error: ApiErrorView,
    now: Moment,
    other: Seq<char>,
)
    requires
        other != model,
    ensures
        ({
            let after = after_error(states, model, tokens_per_minute, error, now);
            let limited = error.code == Some("rate_limit_exceeded"@) || error.kind == Some(
                "requests"@,
            ) || error.kind == Some("tokens"@) || error.kind == Some("rate_limit_error"@);
            let wait = told_wait(error.message);
            let known = known_state(states, model, tokens_per_minute);
            &&& !limited || wait is None ==> after == states
            &&& after.dom().contains(other) == states.dom().contains(other)
            &&& states.dom().contains(other) ==> after[other] == states[other]
            &&& limited && wait is Some ==> {
                &&& after.dom().contains(model)
                &&& after[model].cooldown_until is Some
                &&& after[model].cooldown_until->0@ >= now.after(wait->0)@
                &&& known.cooldown_until is None ==> after[model].cooldown_until == Some(
                    now.after(wait->0),
                )
                &&& after[model].reserved == known.reserved
            }
        }),
{
}

} // verus!
