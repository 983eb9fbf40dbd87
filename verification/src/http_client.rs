//! What JSON requests carry, and what their replies and failures amount to.

use reqwest::header::{HeaderMap, HeaderValue};
use vstd::prelude::*;
use vstd::utf8::encode_utf8;

use crate::header_overrides::pairs_view;
use crate::headers::{
    check_header_value, first_text, header_entries, header_text, insert_header, is_header_name,
    is_header_value, new_header_map, no_entries, normal_header_name, HEADER_MAP_ROOM,
    INVALID_NAME_REASON, INVALID_VALUE_REASON,
};
use crate::json::{json_parsed, json_read, json_view, str_view, string_view, Json, JsonView};
use crate::openai_error::{classify_error_payload, payload_retryability};
use crate::openai_rate_limit_policy::span_view;
use crate::protocol::{cancelled_error, ErrorView, ProviderError, ProviderErrorKind};
use crate::text::{
    concat2, concat3, concat4, concat5, decimal, decimal_text, lower_ascii, parse_unsigned,
    parsed_unsigned, same_text, trim, trim_end_any, trim_end_any_spec, trimmed,
};
use crate::time::{Duration, NANOS_PER_SEC};

verus! {

/// Joins a base URL and a path that begins with a slash.
pub fn join_url(base_url: &str, path: &str) -> (url: String)
    ensures
        url@ == trim_end_any_spec(base_url@, "/"@) + path@,
{
    concat2(&trim_end_any(base_url, "/"), path)
}

/// A failure that says by itself how it is to be treated, or that only has
/// words.
#[derive(Debug)]
pub enum Failure {
    Typed(ProviderError),
    Untyped(String),
}

pub open spec fn failure_error(failure: Failure, untyped: ProviderErrorKind) -> ErrorView {
    match failure {
        Failure::Typed(error) => error@,
        Failure::Untyped(message) => ErrorView {
            message: message@,
            kind: untyped,
            backoff_hint: None,
        },
    }
}

/// The failure as an error; mere words count as a passing fault.
pub fn provider_error_from_failure(failure: Failure) -> (error: ProviderError)
    ensures
        error@ == failure_error(failure, ProviderErrorKind::Transient),
{
    match failure {
        Failure::Typed(error) => error,
        Failure::Untyped(message) => ProviderError::with_kind(
            message,
            ProviderErrorKind::Transient,
        ),
    }
}

/// A JSON request. Later headers take the place of earlier ones with the same
/// name, whatever the capitals; the content type is set before all of them.
#[derive(Debug)]
pub struct JsonRequest {
    pub provider_label: &'static str,
    pub url: String,
    pub headers: Vec<(String, String)>,
    pub body: Json,
}

/// Headers that carry credentials and must not show in debugging output.
pub open spec fn is_sensitive(small_name: Seq<char>) -> bool {
    small_name == "authorization"@ || small_name == "x-api-key"@
}

/// What is wrong with a header field.
pub open spec fn header_error(label: Seq<char>, pair: (Seq<char>, Seq<char>)) -> Option<Seq<char>> {
    if !is_header_name(pair.0) {
        Some(
            "failed to encode http header '"@ + pair.0 + "' for "@ + label + " request: "@
                + INVALID_NAME_REASON@,
        )
    } else if !is_header_value(pair.1) {
        Some(
            "failed to encode http header value for '"@ + pair.0 + "' in "@ + label + " request: "@
                + INVALID_VALUE_REASON@,
        )
    } else {
        None
    }
}

/// What is wrong with the first bad header field.
pub open spec fn first_header_error(
    label: Seq<char>,
    pairs: Seq<(Seq<char>, Seq<char>)>,
) -> Option<Seq<char>>
    decreases pairs.len(),
{
    if pairs.len() == 0 {
        None
    } else {
        match first_header_error(label, pairs.drop_last()) {
            Some(error) => Some(error),
            None => header_error(label, pairs.last()),
        }
    }
}

/// The entries of a request: the content type, then each field in place of what
/// its name had.
pub open spec fn request_entries(pairs: Seq<(Seq<char>, Seq<char>)>) -> Map<
    Seq<char>,
    Seq<(Seq<u8>, bool)>,
>
    decreases pairs.len(),
{
    if pairs.len() == 0 {
        no_entries().insert(
            lower_ascii("content-type"@),
            seq![(encode_utf8("application/json"@), false)],
        )
    } else {
        let name = lower_ascii(pairs.last().0);
        request_entries(pairs.drop_last()).insert(
            name,
            seq![(encode_utf8(pairs.last().1), is_sensitive(name))],
        )
    }
}

fn is_sensitive_header(small_name: &str) -> (sensitive: bool)
    ensures
        sensitive == is_sensitive(small_name@),
{
    same_text(small_name, "authorization") || same_text(small_name, "x-api-key")
}

fn fatal_error(message: String) -> (error: ProviderError)
    ensures
        error@ == (ErrorView {
            message: message@,
            kind: ProviderErrorKind::Fatal,
            backoff_hint: None,
        }),
{
    ProviderError::with_kind(message, ProviderErrorKind::Fatal)
}

fn transient_error(message: String) -> (error: ProviderError)
    ensures
        error@ == (ErrorView {
            message: message@,
            kind: ProviderErrorKind::Transient,
            backoff_hint: None,
        }),
{
    ProviderError::with_kind(message, ProviderErrorKind::Transient)
}

proof fn lemma_first_header_error_stays(
    label: Seq<char>,
    pairs: Seq<(Seq<char>, Seq<char>)>,
    n: int,
)
    requires
        0 <= n <= pairs.len(),
        first_header_error(label, pairs.subrange(0, n)) is Some,
    ensures
        first_header_error(label, pairs) == first_header_error(label, pairs.subrange(0, n)),
    decreases pairs.len() - n,
{
    if n < pairs.len() {
        assert(pairs.subrange(0, n + 1).drop_last() == pairs.subrange(0, n));
        lemma_first_header_error_stays(label, pairs, n + 1);
    } else {
        assert(pairs.subrange(0, n) == pairs);
    }
}

/// The header map of a request, unless one of its fields cannot be sent.
pub fn request_headers(provider_label: &str, headers: Vec<(String, String)>) -> (map: Result<
    HeaderMap<HeaderValue>,
    ProviderError,
>)
    requires
        headers@.len() <= HEADER_MAP_ROOM,
    ensures
        match map {
            Ok(map) => first_header_error(provider_label@, pairs_view(headers@)) is None
                && header_entries(map) == request_entries(pairs_view(headers@)),
            Err(error) => first_header_error(provider_label@, pairs_view(headers@)) == Some(
                error@.message,
            ) && error@.kind == ProviderErrorKind::Fatal && error@.backoff_hint is None,
        },
{
    let ghost all = pairs_view(headers@);
    let mut map = new_header_map();
    proof {
        reveal_strlit("content-type");
        reveal_strlit("application/json");
    }
    insert_header(&mut map, "content-type", "application/json", false);
    assert(header_entries(map).dom() =~= no_entries().dom().insert(lower_ascii("content-type"@)));
    let mut i: usize = 0;
    assert(all.subrange(0, 0) =~= Seq::empty());
    while i < headers.len()
        invariant
            all == pairs_view(headers@),
            i <= headers.len(),
            headers@.len() <= HEADER_MAP_ROOM,
            first_header_error(provider_label@, all.subrange(0, i as int)) is None,
            header_entries(map) == request_entries(all.subrange(0, i as int)),
            header_entries(map).dom().finite(),
            header_entries(map).dom().len() <= i + 1,
        decreases headers.len() - i,
    {
        let (name, value) = &headers[i];
        let ghost next = all.subrange(0, i + 1);
        assert(next.drop_last() == all.subrange(0, i as int));
        assert(next.last() == (name@, value@));
        let small = match normal_header_name(name) {
            Ok(small) => small,
            Err(reason) => {
                proof {
                    lemma_first_header_error_stays(provider_label@, all, i + 1);
                }
                let message = concat5(
                    "failed to encode http header '",
                    name,
                    "' for ",
                    provider_label,
                    " request: ",
                );
                return Err(fatal_error(concat2(&message, &reason)));
            },
        };
        if let Err(reason) = check_header_value(value) {
            proof {
                lemma_first_header_error_stays(provider_label@, all, i + 1);
            }
            let message = concat5(
                "failed to encode http header value for '",
                name,
                "' in ",
                provider_label,
                " request: ",
            );
            return Err(fatal_error(concat2(&message, &reason)));
        }
        let ghost before = header_entries(map);
        insert_header(&mut map, name, value, is_sensitive_header(&small));
        assert(header_entries(map).dom() =~= before.dom().insert(lower_ascii(name@)));
        i += 1;
    }
    assert(all.subrange(0, i as int) == all);
    Ok(map)
}

/// A status code with its customary name.
pub uninterp spec fn status_text(status: u16) -> Seq<char>;

/// `reqwest::StatusCode` shown as text: it depends on the code alone, and any
/// code of three digits has one.
#[verifier::external_body]
fn show_status(status: u16) -> (text: String)
    requires
        100 <= status < 1000,
    ensures
        text@ == status_text(status),
{
    reqwest::StatusCode::from_u16(status).map(|status| status.to_string()).unwrap_or_default()
}

pub open spec fn is_success(status: u16) -> bool {
    200 <= status < 300
}

/// What an error body says for people, and the type it gives its error.
pub open spec fn error_detail(value: Option<JsonView>, body: Seq<char>) -> (
    Seq<char>,
    Option<Seq<char>>,
) {
    match value {
        Some(value) => (
            match value.get_in_str("error"@, "message"@) {
                Some(message) => message,
                None => match value.get_str("message"@) {
                    Some(message) => message,
                    None => trimmed(body),
                },
            },
            value.get_in_str("error"@, "type"@),
        ),
        None => (trimmed(body), None),
    }
}

/// What an error body says, given the JSON value it holds.
pub fn error_detail_of(value: Option<&Json>, body: &str) -> (detail: (String, Option<String>))
    ensures
        (detail.0@, string_view(detail.1)) == error_detail(json_view(value), body@),
{
    match value {
        Some(value) => {
            let error_type = match value.get_in_str("error", "type") {
                Some(kind) => Some(kind.to_owned()),
                None => None,
            };
            let message = match value.get_in_str("error", "message") {
                Some(message) => message.to_owned(),
                None => match value.get_str("message") {
                    Some(message) => message.to_owned(),
                    None => trim(body),
                },
            };
            (message, error_type)
        },
        None => (trim(body), None),
    }
}

/// What an error body says for people, and the type it gives its error.
pub fn response_error_detail(body: &str) -> (detail: (String, Option<String>))
    ensures
        (detail.0@, string_view(detail.1)) == error_detail(json_parsed(body@), body@),
{
    match Json::parse(body) {
        Some(value) => error_detail_of(Some(&value), body),
        None => error_detail_of(None, body),
    }
}

/// The error that a refused request amounts to.
pub open spec fn status_error(
    label: Seq<char>,
    status: u16,
    shown_status: Seq<char>,
    retry_after: Option<Duration>,
    detail: (Seq<char>, Option<Seq<char>>),
) -> ErrorView {
    let retryability = payload_retryability(Some(status), detail.1, detail.0);
    let message = "failed to execute provider request: "@ + label + " returned "@ + shown_status;
    ErrorView {
        message: if detail.0.len() == 0 {
            message
        } else {
            message + ": "@ + detail.0
        },
        kind: retryability.kind,
        backoff_hint: if retry_after is Some {
            retry_after
        } else {
            retryability.backoff_hint
        },
    }
}

/// The error that a refused request amounts to, given what its body says.
pub fn status_error_of(
    provider_label: &str,
    status: u16,
    shown_status: &str,
    retry_after: Option<Duration>,
    detail: &str,
    error_type: Option<&str>,
) -> (error: ProviderError)
    ensures
        error@ == status_error(
            provider_label@,
            status,
            shown_status@,
            retry_after,
            (detail@, str_view(error_type)),
        ),
{
    let message = concat4(
        "failed to execute provider request: ",
        provider_label,
        " returned ",
        shown_status,
    );
    let message = if detail.is_empty() {
        message
    } else {
        concat3(&message, ": ", detail)
    };
    let retryability = classify_error_payload(Some(status), error_type, detail);
    let hint = if retry_after.is_some() {
        retry_after
    } else {
        retryability.backoff_hint
    };
    ProviderError::with_kind(message, retryability.kind).with_backoff_hint(hint)
}

/// The error that a refused request amounts to.
pub fn http_status_error(
    provider_label: &str,
    status: u16,
    retry_after: Option<Duration>,
    body: &str,
) -> (error: ProviderError)
    requires
        100 <= status < 1000,
    ensures
        error@ == status_error(
            provider_label@,
            status,
            status_text(status),
            retry_after,
            error_detail(json_parsed(body@), body@),
        ),
{
    let (detail, error_type) = response_error_detail(body);
    let shown = show_status(status);
    let kind = match &error_type {
        Some(kind) => Some(kind.as_str()),
        None => None,
    };
    status_error_of(provider_label, status, &shown, retry_after, &detail, kind)
}

/// The whole seconds that a `Retry-After` field asks for; dates are not read.
pub open spec fn told_seconds(headers: HeaderMap<HeaderValue>) -> Option<nat> {
    match first_text(headers, "retry-after"@) {
        Some(text) => match parsed_unsigned(trimmed(text), u64::MAX as nat) {
            Some(seconds) => Some(seconds * NANOS_PER_SEC as nat),
            None => None,
        },
        None => None,
    }
}

/// Reads a `Retry-After` field given in whole seconds.
pub fn retry_after_header(headers: &HeaderMap<HeaderValue>) -> (wait: Option<Duration>)
    ensures
        span_view(wait) == told_seconds(*headers),
{
    match header_text(headers, "retry-after") {
        Some(text) => match parse_unsigned(&trim(&text), u64::MAX) {
            Some(seconds) => Some(Duration::from_secs(seconds)),
            None => None,
        },
        None => None,
    }
}

/// Reads a reply to a JSON request: the value of a success, or the error.
pub fn finish_json_response(
    provider_label: &str,
    status: u16,
    headers: &HeaderMap<HeaderValue>,
    body: &str,
) -> (value: Result<Json, ProviderError>)
    requires
        100 <= status < 1000,
    ensures
        match value {
            Ok(value) => is_success(status) && json_read(body@) == Ok::<JsonView, Seq<char>>(
                value@,
            ),
            Err(error) => if is_success(status) {
                json_read(body@) matches Err(reason) && error@ == (ErrorView {
                    message: "failed to decode "@ + provider_label@ + " response json: "@ + reason,
                    kind: ProviderErrorKind::Fatal,
                    backoff_hint: None,
                })
            } else {
                exists|wait: Option<Duration>| #[trigger]
                    span_view(wait) == told_seconds(*headers) && error@ == status_error(
                        provider_label@,
                        status,
                        status_text(status),
                        wait,
                        error_detail(json_parsed(body@), body@),
                    )
            },
        },
{
    if !(200 <= status && status < 300) {
        let wait = retry_after_header(headers);
        return Err(http_status_error(provider_label, status, wait, body));
    }
    match Json::parse_or_reason(body) {
        Ok(value) => Ok(value),
        Err(reason) => Err(
            fatal_error(
                concat4("failed to decode ", provider_label, " response json: ", &reason),
            ),
        ),
    }
}

/// What can keep a reply from coming.
#[derive(Debug)]
pub enum TransportFault {
    /// The request could not be sent.
    Send(String),
    /// Nothing came back in time.
    SetupTimeout(Duration),
    /// The reply's body could not be read.
    ReadBody(String),
    /// The caller gave up.
    Cancelled,
}

pub open spec fn fault_error(label: Seq<char>, fault: TransportFault) -> ErrorView {
    match fault {
        TransportFault::Send(reason) => ErrorView {
            message: "failed to execute "@ + label + " request: "@ + reason@,
            kind: ProviderErrorKind::Transient,
            backoff_hint: None,
        },
        TransportFault::SetupTimeout(limit) => ErrorView {
            message: "failed to execute provider request: "@ + label + " request timed out after "@
                + decimal(limit.whole_secs()) + "s"@,
            kind: ProviderErrorKind::Transient,
            backoff_hint: None,
        },
        TransportFault::ReadBody(reason) => ErrorView {
            message: "failed to read "@ + label + " response body: "@ + reason@,
            kind: ProviderErrorKind::Transient,
            backoff_hint: None,
        },
        TransportFault::Cancelled => cancelled_error(),
    }
}

/// The error that a missing reply amounts to. Faults of the connection pass by
/// themselves.
pub fn transport_fault_error(provider_label: &str, fault: TransportFault) -> (error: ProviderError)
    ensures
        error@ == fault_error(provider_label@, fault),
{
    match fault {
        TransportFault::Send(reason) => transient_error(
            concat4("failed to execute ", provider_label, " request: ", &reason),
        ),
        TransportFault::SetupTimeout(limit) => transient_error(
            concat5(
                "failed to execute provider request: ",
                provider_label,
                " request timed out after ",
                &decimal_text(limit.as_secs()),
                "s",
            ),
        ),
        TransportFault::ReadBody(reason) => transient_error(
            concat4("failed to read ", provider_label, " response body: ", &reason),
        ),
        TransportFault::Cancelled => ProviderError::cancelled(),
    }
}

pub const STREAM_END_MARK: &'static str = "[DONE]";

/// What one event of a stream amounts to.
#[derive(Debug)]
pub enum EventData {
    /// A value.
    Item(Json),
    /// Something that cannot be read, and why.
    Broken(String),
    /// The stream is over, whatever may follow.
    End,
}

pub ghost enum EventDataView {
    Item(JsonView),
    Broken(Seq<char>),
    End,
}

impl EventData {
    pub open spec fn view(&self) -> EventDataView {
        match self {
            EventData::Item(value) => EventDataView::Item(value@),
            EventData::Broken(reason) => EventDataView::Broken(reason@),
            EventData::End => EventDataView::End,
        }
    }
}

/// What event data amounts to, given what it is as JSON.
pub open spec fn event_item(
    label: Seq<char>,
    data: Seq<char>,
    value: Result<JsonView, Seq<char>>,
) -> EventDataView {
    if data == STREAM_END_MARK@ {
        EventDataView::End
    } else {
        match value {
            Ok(value) => EventDataView::Item(value),
            Err(reason) => EventDataView::Broken(
                "failed to decode "@ + label + " stream event json: "@ + reason,
            ),
        }
    }
}

/// Tells what event data amounts to, given what it is as JSON.
pub fn event_item_of(provider_label: &str, data: &str, value: Result<Json, String>) -> (item:
    EventData)
    ensures
        item@ == event_item(
            provider_label@,
            data@,
            match value {
                Ok(value) => Ok(value@),
                Err(reason) => Err(reason@),
            },
        ),
{
    if same_text(data, STREAM_END_MARK) {
        return EventData::End;
    }
    match value {
        Ok(value) => EventData::Item(value),
        Err(reason) => EventData::Broken(
            concat4("failed to decode ", provider_label, " stream event json: ", &reason),
        ),
    }
}

/// Reads the data of one stream event. The mark ends the stream.
pub fn decode_event_data(provider_label: &str, data: &str) -> (item: EventData)
    ensures
        item@ == event_item(provider_label@, data@, json_read(data@)),
        item is End <==> data@ == STREAM_END_MARK@,
{
    event_item_of(provider_label, data, Json::parse_or_reason(data))
}

/// What a stream of event data gives, in order, up to the mark that ends it.
pub open spec fn stream_items(label: Seq<char>, events: Seq<Seq<char>>) -> Seq<EventDataView>
    decreases events.len(),
{
    if events.len() == 0 || events[0] == STREAM_END_MARK@ {
        Seq::empty()
    } else {
        seq![event_item(label, events[0], json_read(events[0]))] + stream_items(
            label,
            events.drop_first(),
        )
    }
}

/// The mark ends the stream: what stands before it comes out, one for one, and
/// nothing of what follows does.
pub proof fn law_end_mark_ends_the_stream(
    label: Seq<char>,
    before: Seq<Seq<char>>,
    after: Seq<Seq<char>>,
)
    requires
        !before.contains(STREAM_END_MARK@),
    ensures
        stream_items(label, before.push(STREAM_END_MARK@) + after) == stream_items(label, before),
        stream_items(label, before).len() == before.len(),
        forall|i: int|
            0 <= i < before.len() ==> #[trigger] stream_items(label, before)[i] == event_item(
                label,
                before[i],
                json_read(before[i]),
            ),
    decreases before.len(),
{
    let all = before.push(STREAM_END_MARK@) + after;
    if before.len() > 0 {
        let rest = before.drop_first();
        assert(!rest.contains(STREAM_END_MARK@)) by {
            assert forall|i: int| 0 <= i < rest.len() implies rest[i] != STREAM_END_MARK@ by {
                assert(before[i + 1] == rest[i]);
                assert(before.contains(before[i + 1]));
            }
        }
        law_end_mark_ends_the_stream(label, rest, after);
        assert(before.contains(before[0]));
        assert(all.drop_first() =~= rest.push(STREAM_END_MARK@) + after);
        assert(all[0] == before[0]);
        assert forall|i: int| 0 <= i < before.len() implies #[trigger] stream_items(
            label,
            before,
        )[i] == event_item(label, before[i], json_read(before[i])) by {
            if i > 0 {
                assert(rest[i - 1] == before[i]);
                assert(stream_items(label, before)[i] == stream_items(label, rest)[i - 1]);
            }
        }
    }
}

/// What is said of a stream that broke.
pub fn event_read_failure(provider_label: &str, reason: &str) -> (message: String)
    ensures
        message@ == "failed to read "@ + provider_label@ + " stream event: "@ + reason@,
{
    concat4("failed to read ", provider_label, " stream event: ", reason)
}

/// A header field of a request ends up with exactly one value: that of the last
/// field with its name, whatever the capitals; a credential is marked.
pub proof fn law_last_header_wins(pairs: Seq<(Seq<char>, Seq<char>)>, i: int)
    requires
        0 <= i < pairs.len(),
        forall|k: int| i < k < pairs.len() ==> lower_ascii((#[trigger] pairs[k]).0) != lower_ascii(
            pairs[i].0,
        ),
    ensures
        request_entries(pairs).dom().contains(lower_ascii(pairs[i].0)),
        request_entries(pairs)[lower_ascii(pairs[i].0)] == seq![
            (encode_utf8(pairs[i].1), is_sensitive(lower_ascii(pairs[i].0))),
        ],
    decreases pairs.len(),
{
    if i < pairs.len() - 1 {
        assert(lower_ascii(pairs[pairs.len() - 1].0) != lower_ascii(pairs[i].0));
        law_last_header_wins(pairs.drop_last(), i);
    }
}

/// Where no field sets the content type, it is JSON.
pub proof fn law_content_type_is_json(pairs: Seq<(Seq<char>, Seq<char>)>)
    requires
        forall|k: int| 0 <= k < pairs.len() ==> lower_ascii((#[trigger] pairs[k]).0) != lower_ascii(
            "content-type"@,
        ),
    ensures
        request_entries(pairs).dom().contains(lower_ascii("content-type"@)),
        request_entries(pairs)[lower_ascii("content-type"@)] == seq![
            (encode_utf8("application/json"@), false),
        ],
    decreases pairs.len(),
{
    if pairs.len() > 0 {
        assert(lower_ascii(pairs[pairs.len() - 1].0) != lower_ascii("content-type"@));
        law_content_type_is_json(pairs.drop_last());
    }
}

/// Credentials are marked as secret, in capitals or not, and nothing else is.
pub proof fn law_credentials_are_secret(
    pairs: Seq<(Seq<char>, Seq<char>)>,
    name: Seq<char>,
    value: Seq<char>,
)
    ensures
        request_entries(pairs.push((name, value)))[lower_ascii(name)] == seq![
            (
                encode_utf8(value),
                lower_ascii(name) == "authorization"@ || lower_ascii(name) == "x-api-key"@,
            ),
        ],
        request_entries(pairs.push((name, value))).dom().contains(lower_ascii(name)),
        forall|other: Seq<char>| #![trigger request_entries(pairs)[other]]
            other != lower_ascii(name) ==> request_entries(pairs.push((name, value)))[other]
                == request_entries(pairs)[other],
{
    assert(pairs.push((name, value)).drop_last() =~= pairs);
}

/// A refusal says who refused and how, with the words of the reply where there are
/// any. It is worth another attempt as its status and its words have it, and a wait
/// that the header asks for counts before one that the words do.
pub proof fn law_refusal_is_told(
    label: Seq<char>,
    status: u16,
    shown: Seq<char>,
    retry_after: Option<Duration>,
    words: Seq<char>,
    kind: Option<Seq<char>>,
)
    ensures
        ({
            let error = status_error(label, status, shown, retry_after, (words, kind));
            let start = "failed to execute provider request: "@ + label + " returned "@ + shown;
            &&& words.len() == 0 ==> error.message == start
            &&& words.len() > 0 ==> error.message == start + ": "@ + words
            &&& status == 429 ==> error.kind == ProviderErrorKind::RateLimited
            &&& status >= 500 ==> error.kind == ProviderErrorKind::Transient
            &&& error.kind == payload_retryability(Some(status), kind, words).kind
            &&& retry_after is Some ==> error.backoff_hint == retry_after
            &&& retry_after is None ==> error.backoff_hint == payload_retryability(
                Some(status),
                kind,
                words,
            ).backoff_hint
        }),
{
}

/// The words of a refusal are those of its error object, or else its message, or else
/// all that it says; its type is that of its error object.
pub proof fn law_refusal_words_are_found(value: JsonView, body: Seq<char>)
    ensures
        value.get_in_str("error"@, "message"@) is Some ==> error_detail(Some(value), body).0
            == value.get_in_str("error"@, "message"@)->0,
        value.get_in_str("error"@, "message"@) is None && value.get_str("message"@) is Some
            ==> error_detail(Some(value), body).0 == value.get_str("message"@)->0,
        value.get_in_str("error"@, "message"@) is None && value.get_str("message"@) is None
            ==> error_detail(Some(value), body).0 == trimmed(body),
        error_detail(Some(value), body).1 == value.get_in_str("error"@, "type"@),
        error_detail(None, body) == (trimmed(body), None::<Seq<char>>),
{
}

/// A request that could not be sent, a reply that could not be read and a server that
/// took too long are worth another attempt; a request that was cancelled is not.
pub proof fn law_connection_faults_pass(label: Seq<char>, fault: TransportFault)
    ensures
        match fault {
            TransportFault::Cancelled => fault_error(label, fault).kind
                == ProviderErrorKind::Cancelled,
            _ => fault_error(label, fault).kind == ProviderErrorKind::Transient,
        },
        fault_error(label, fault).backoff_hint is None,
{
}

/// Data of an event is an item where it is JSON, broken where it is not, and the end of
/// the stream where it says so.
pub proof fn law_event_data_is_read(
    label: Seq<char>,
    data: Seq<char>,
    value: JsonView,
    reason: Seq<char>,
)
    ensures
        event_item(label, "[DONE]"@, Ok(value)) == EventDataView::End,
        event_item(label, "[DONE]"@, Err(reason)) == EventDataView::End,
        data != "[DONE]"@ ==> event_item(label, data, Ok(value)) == EventDataView::Item(value),
        data != "[DONE]"@ ==> event_item(label, data, Err(reason)) == EventDataView::Broken(
            "failed to decode "@ + label + " stream event json: "@ + reason,
        ),
{
}

/// A header that cannot be sent is told by its name, with the request it was meant for.
pub proof fn law_unsendable_header_is_told(label: Seq<char>, name: Seq<char>, value: Seq<char>)
    ensures
        !is_header_name(name) ==> header_error(label, (name, value)) == Some(
            "failed to encode http header '"@ + name + "' for "@ + label + " request: "@
                + "invalid HTTP header name"@,
        ),
        is_header_name(name) && !is_header_value(value) ==> header_error(label, (name, value))
            == Some(
            "failed to encode http header value for '"@ + name + "' in "@ + label + " request: "@
                + "failed to parse header value"@,
        ),
        is_header_name(name) && is_header_value(value) ==> header_error(label, (name, value))
            is None,
{
}

/// The first header that cannot be sent is the one that is told of.
pub proof fn law_first_unsendable_header_is_told(
    label: Seq<char>,
    pairs: Seq<(Seq<char>, Seq<char>)>,
    pair: (Seq<char>, Seq<char>),
)
    ensures
        first_header_error(label, Seq::empty()) is None,
        first_header_error(label, pairs) is Some ==> first_header_error(label, pairs.push(pair))
            == first_header_error(label, pairs),
        first_header_error(label, pairs) is None ==> first_header_error(label, pairs.push(pair))
            == header_error(label, pair),
{
    assert(pairs.push(pair).drop_last() =~= pairs);
}

/// A reply is one where its status is between 200 and 299; a wait in whole seconds is
/// read from its header.
pub proof fn law_replies_and_their_waits(status: u16, headers: HeaderMap<HeaderValue>)
    ensures
        is_success(status) <==> 200 <= status <= 299,
        first_text(headers, "retry-after"@) is None ==> told_seconds(headers) is None,
        first_text(headers, "retry-after"@) is Some ==> {
            let seconds = parsed_unsigned(
                trimmed(first_text(headers, "retry-after"@)->0),
                18_446_744_073_709_551_615,
            );
            &&& seconds is Some ==> told_seconds(headers) == Some(seconds->0 * 1_000_000_000)
            &&& seconds is None ==> told_seconds(headers) is None
        },
{
}

} // verus!
