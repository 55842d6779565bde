//! Replies of JavaScript callbacks. A middleware callback answers with an envelope, so that what
//! it throws comes as data.
use vstd::prelude::*;

use crate::flow::{flow_view, FlowError};
use crate::json::{Json, JsonView};
use crate::request::LlmRequest;
use crate::serial::JsonForm;
use crate::text::{concat2, concat3};

verus! {

/// The envelope that a middleware callback answers with.
#[derive(Debug)]
pub struct MiddlewareCallbackResult {
    pub ok: bool,
    pub value: Json,
    pub error: String,
}

/// What came of calling a JavaScript function.
#[derive(Debug)]
pub enum JsReply {
    /// The call could not be queued; the status in words.
    NotQueued(String),
    /// The call was queued. Its value came, or the channel closed before; the error in words.
    Queued(Result<Json, String>),
}

/// How a JSON value is shown in an error message.
pub trait DebugForm {
    /// The value in words.
    fn debug(&self, value: &Json) -> String;
}

/// An error for the log of callback errors.
#[derive(Debug)]
pub enum Report {
    /// The message as it is.
    Message(String),
    /// An error of the flow, to be shown in its own words.
    Flow(FlowError),
}

/// A report as a mathematical value.
#[verifier::ext_equal]
pub enum ReportView {
    Message(Seq<char>),
    Flow(Seq<char>),
}

impl View for Report {
    type V = ReportView;

    open spec fn view(&self) -> ReportView {
        match self {
            Report::Message(message) => ReportView::Message(message@),
            Report::Flow(error) => ReportView::Flow(error@),
        }
    }
}

/// The reports, each as a mathematical value.
pub open spec fn report_views(reports: Seq<Report>) -> Seq<ReportView> {
    Seq::new(reports.len(), |i: int| reports[i]@)
}

/// A value, and the errors to log.
#[derive(Debug)]
pub struct Recorded<T> {
    pub value: T,
    pub errors: Vec<Report>,
}

/// A JSON value and the errors to log, as mathematical values.
pub open spec fn recorded_json(recorded: Recorded<Json>) -> (JsonView, Seq<ReportView>) {
    (recorded.value@, report_views(recorded.errors@))
}

impl<T> Recorded<T> {
    /// The value without an error.
    pub fn clean(value: T) -> (recorded: Recorded<T>)
        ensures
            recorded.value == value,
            report_views(recorded.errors@) == Seq::<ReportView>::empty(),
    {
        let errors: Vec<Report> = Vec::new();
        assert(report_views(errors@) =~= Seq::<ReportView>::empty());
        Recorded { value, errors }
    }

    /// The value with one error.
    pub fn with(value: T, error: Report) -> (recorded: Recorded<T>)
        ensures
            recorded.value == value,
            report_views(recorded.errors@) == seq![error@],
    {
        let mut errors: Vec<Report> = Vec::new();
        errors.push(error);
        assert(report_views(errors@) =~= seq![error@]);
        Recorded { value, errors }
    }
}

/// What an envelope holds: its value, or the error after the prefix.
pub open spec fn unwrapped(
    envelope: Result<MiddlewareCallbackResult, String>,
    prefix: Seq<char>,
) -> Result<JsonView, Seq<char>> {
    match envelope {
        Err(text) => Err(prefix + ": invalid middleware callback result: "@ + text@),
        Ok(result) => if result.ok {
            Ok(result.value@)
        } else {
            Err(prefix + ": "@ + result.error@)
        },
    }
}

/// Whether `outcome` is what the value holds when it is read as an envelope.
pub open spec fn unwraps<S: JsonForm<MiddlewareCallbackResult>>(
    form: S,
    value: Json,
    prefix: Seq<char>,
    outcome: Result<JsonView, Seq<char>>,
) -> bool {
    exists|envelope: Result<MiddlewareCallbackResult, String>| #[trigger]
        call_ensures(S::from_value, (&form, value), envelope) && outcome == unwrapped(
            envelope,
            prefix,
        )
}

/// Whether `outcome` is what a middleware callback answered.
pub open spec fn receives<S: JsonForm<MiddlewareCallbackResult>>(
    form: S,
    received: Result<Json, String>,
    prefix: Seq<char>,
    outcome: Result<JsonView, Seq<char>>,
) -> bool {
    match received {
        Err(text) => outcome == Err::<JsonView, Seq<char>>(prefix + ": "@ + text@),
        Ok(value) => unwraps(form, value, prefix, outcome),
    }
}

/// What a middleware callback answered, with the fallback where it failed. Its error is logged.
pub open spec fn or_fallback(
    outcome: Result<JsonView, Seq<char>>,
    fallback: JsonView,
) -> (JsonView, Seq<ReportView>) {
    match outcome {
        Ok(value) => (value, Seq::empty()),
        Err(text) => (fallback, seq![ReportView::Flow(text)]),
    }
}

/// Opens an envelope.
pub fn open_envelope(
    envelope: Result<MiddlewareCallbackResult, String>,
    error_prefix: &str,
) -> (result: Result<Json, FlowError>)
    ensures
        flow_view(result) == unwrapped(envelope, error_prefix@),
{
    match envelope {
        Err(text) => Err(
            FlowError::Internal(
                concat3(error_prefix, ": invalid middleware callback result: ", text.as_str()),
            ),
        ),
        Ok(envelope) => if envelope.ok {
            Ok(envelope.value)
        } else {
            Err(FlowError::Internal(concat3(error_prefix, ": ", envelope.error.as_str())))
        },
    }
}

/// Reads a value as an envelope and opens it.
pub fn unwrap_middleware_result<S: JsonForm<MiddlewareCallbackResult>>(
    value: Json,
    error_prefix: &str,
    form: &S,
) -> (result: Result<Json, FlowError>)
    ensures
        unwraps(*form, value, error_prefix@, flow_view(result)),
{
    let envelope: Result<MiddlewareCallbackResult, String> = form.from_value(value);
    open_envelope(envelope, error_prefix)
}

/// The value that a middleware callback answered.
pub fn recv_middleware_json_result<S: JsonForm<MiddlewareCallbackResult>>(
    received: Result<Json, String>,
    error_prefix: &str,
    form: &S,
) -> (result: Result<Json, FlowError>)
    ensures
        receives(*form, received, error_prefix@, flow_view(result)),
{
    match received {
        Err(text) => Err(FlowError::Internal(concat3(error_prefix, ": ", text.as_str()))),
        Ok(value) => unwrap_middleware_result(value, error_prefix, form),
    }
}

/// The value that a middleware callback answered, or the fallback.
pub fn recv_middleware_json_or_value<S: JsonForm<MiddlewareCallbackResult>>(
    received: Result<Json, String>,
    error_prefix: &str,
    fallback: Json,
    form: &S,
) -> (recorded: Recorded<Json>)
    ensures
        exists|outcome: Result<JsonView, Seq<char>>| #[trigger]
            receives(*form, received, error_prefix@, outcome) && recorded_json(recorded)
                == or_fallback(outcome, fallback@),
{
    let result: Result<Json, FlowError> = recv_middleware_json_result(
        received,
        error_prefix,
        form,
    );
    assert(receives(*form, received, error_prefix@, flow_view(result)));
    match result {
        Ok(value) => Recorded::clean(value),
        Err(error) => Recorded::with(fallback, Report::Flow(error)),
    }
}

/// A value that is to be a string or null. Any other value is an error that shows it.
pub open spec fn string_or_null<D: DebugForm>(
    shown: D,
    value: Json,
    prefix: Seq<char>,
    result: Result<Option<Seq<char>>, Seq<char>>,
) -> bool {
    match value {
        Json::Null => result == Ok::<Option<Seq<char>>, Seq<char>>(None),
        Json::String(text) => result == Ok::<Option<Seq<char>>, Seq<char>>(Some(text@)),
        _ => exists|words: String| #[trigger]
            call_ensures(D::debug, (&shown, &value), words) && result == Err::<
                Option<Seq<char>>,
                Seq<char>,
            >(prefix + ": expected string or null, got "@ + words@),
    }
}

/// The view of an optional string, or of the error in its place.
pub open spec fn string_view(result: Result<Option<String>, FlowError>) -> Result<
    Option<Seq<char>>,
    Seq<char>,
> {
    match result {
        Ok(Some(text)) => Ok(Some(text@)),
        Ok(None) => Ok(None),
        Err(error) => Err(error@),
    }
}

/// Whether `result` is the optional string that a middleware callback answered.
pub open spec fn receives_string<S: JsonForm<MiddlewareCallbackResult>, D: DebugForm>(
    form: S,
    shown: D,
    received: Result<Json, String>,
    prefix: Seq<char>,
    result: Result<Option<Seq<char>>, Seq<char>>,
) -> bool {
    exists|answer: Result<Json, FlowError>| #[trigger]
        receives(form, received, prefix, flow_view(answer)) && match answer {
            Err(error) => result == Err::<Option<Seq<char>>, Seq<char>>(error@),
            Ok(value) => string_or_null(shown, value, prefix, result),
        }
}

/// The string that a value is, if it is not null.
pub fn string_or_null_result<D: DebugForm>(value: Json, error_prefix: &str, shown: &D) -> (result:
    Result<Option<String>, FlowError>)
    ensures
        string_or_null(*shown, value, error_prefix@, string_view(result)),
{
    match value {
        Json::Null => Ok(None),
        Json::String(text) => Ok(Some(text)),
        other => {
            let words: String = shown.debug(&other);
            Err(
                FlowError::Internal(
                    concat3(error_prefix, ": expected string or null, got ", words.as_str()),
                ),
            )
        },
    }
}

/// The optional string that a middleware callback answered.
pub fn recv_middleware_option_string_result<S: JsonForm<MiddlewareCallbackResult>, D: DebugForm>(
    received: Result<Json, String>,
    error_prefix: &str,
    form: &S,
    shown: &D,
) -> (result: Result<Option<String>, FlowError>)
    ensures
        receives_string(*form, *shown, received, error_prefix@, string_view(result)),
{
    let answer: Result<Json, FlowError> = recv_middleware_json_result(
        received,
        error_prefix,
        form,
    );
    assert(receives(*form, received, error_prefix@, flow_view(answer)));
    match answer {
        Err(error) => Err(error),
        Ok(value) => string_or_null_result(value, error_prefix, shown),
    }
}

/// The value that a callback answered, or null.
pub fn recv_json_or_null(received: Result<Json, String>, error_prefix: &str) -> (recorded: Recorded<
    Json,
>)
    ensures
        recorded_json(recorded) == match received {
            Ok(value) => (value@, Seq::<ReportView>::empty()),
            Err(text) => (
                JsonView::Null,
                seq![ReportView::Message(error_prefix@ + ": "@ + text@)],
            ),
        },
{
    match received {
        Ok(value) => Recorded::clean(value),
        Err(text) => Recorded::with(
            Json::Null,
            Report::Message(concat3(error_prefix, ": ", text.as_str())),
        ),
    }
}

/// The value that a callback answered.
pub fn recv_json_result(received: Result<Json, String>, error_prefix: &str) -> (result: Result<
    Json,
    FlowError,
>)
    ensures
        match received {
            Ok(value) => result == Ok::<Json, FlowError>(value),
            Err(text) => result is Err && result->Err_0@ == error_prefix@ + ": "@ + text@,
        },
{
    match received {
        Ok(value) => Ok(value),
        Err(text) => Err(FlowError::Internal(concat3(error_prefix, ": ", text.as_str()))),
    }
}

/// The optional string that a callback answered.
pub fn recv_option_string_result<D: DebugForm>(
    received: Result<Json, String>,
    error_prefix: &str,
    shown: &D,
) -> (result: Result<Option<String>, FlowError>)
    ensures
        match received {
            Ok(value) => string_or_null(*shown, value, error_prefix@, string_view(result)),
            Err(text) => string_view(result) == Err::<Option<Seq<char>>, Seq<char>>(
                error_prefix@ + ": "@ + text@,
            ),
        },
{
    match received {
        Ok(value) => string_or_null_result(value, error_prefix, shown),
        Err(text) => Err(FlowError::Internal(concat3(error_prefix, ": ", text.as_str()))),
    }
}

/// Whether `result` is the value that a JSON form is read as, or the error in its place.
pub open spec fn reads<T, S: JsonForm<T>>(
    form: S,
    value: Json,
    invalid: Seq<char>,
    result: Result<T, FlowError>,
) -> bool {
    exists|parsed: Result<T, String>| #[trigger]
        call_ensures(S::from_value, (&form, value), parsed) && match parsed {
            Ok(parsed) => result == Ok::<T, FlowError>(parsed),
            Err(text) => result is Err && result->Err_0@ == invalid + text@,
        }
}

/// The value that a JSON form is read as.
pub fn read_result<T, S: JsonForm<T>>(value: Json, invalid: &str, form: &S) -> (result: Result<
    T,
    FlowError,
>)
    ensures
        reads(*form, value, invalid@, result),
{
    match form.from_value(value) {
        Ok(value) => Ok(value),
        Err(text) => Err(FlowError::Internal(concat2(invalid, text.as_str()))),
    }
}

/// Whether `result` is the value that the answer of a callback is read as.
pub open spec fn receives_value<T, S: JsonForm<T>>(
    form: S,
    received: Result<Json, String>,
    lost: Seq<char>,
    invalid: Seq<char>,
    result: Result<T, FlowError>,
) -> bool {
    match received {
        Err(text) => result is Err && result->Err_0@ == lost + text@,
        Ok(value) => reads(form, value, invalid, result),
    }
}

/// The request that a callback answered.
pub fn recv_llm_request_result<R: JsonForm<LlmRequest>>(
    received: Result<Json, String>,
    error_prefix: &str,
    requests: &R,
) -> (result: Result<LlmRequest, FlowError>)
    ensures
        receives_value(
            *requests,
            received,
            error_prefix@ + ": "@,
            error_prefix@ + ": failed to deserialize LlmRequest: "@,
            result,
        ),
{
    match recv_json_result(received, error_prefix) {
        Err(error) => Err(error),
        Ok(value) => {
            let invalid: String = concat2(error_prefix, ": failed to deserialize LlmRequest: ");
            read_result(value, invalid.as_str(), requests)
        },
    }
}

} // verus!
