//! What becomes of the reply of each kind of JavaScript callback.
use vstd::prelude::*;

use crate::flow::{flow_view, FlowError};
use crate::json::{Json, JsonView};
use crate::middleware::{
    or_fallback, receives, receives_string, recorded_json, recv_middleware_json_or_value,
    recv_middleware_json_result, recv_middleware_option_string_result, string_view,
    unwrap_middleware_result, unwraps, DebugForm, JsReply, MiddlewareCallbackResult, Recorded,
    Report, ReportView,
};
use crate::serial::JsonForm;
use crate::text::concat2;

verus! {

/// Whether `recorded` is what comes of a reply that may not fail: the value of the callback, or
/// the fallback with the error that led to it.
pub open spec fn answers_or_falls_back<S: JsonForm<MiddlewareCallbackResult>>(
    form: S,
    reply: JsReply,
    not_queued: Seq<char>,
    prefix: Seq<char>,
    fallback: JsonView,
    recorded: (JsonView, Seq<ReportView>),
) -> bool {
    match reply {
        JsReply::NotQueued(status) => recorded == (
            fallback,
            seq![ReportView::Message(not_queued + status@)],
        ),
        JsReply::Queued(received) => exists|outcome: Result<JsonView, Seq<char>>| #[trigger]
            receives(form, received, prefix, outcome) && recorded == or_fallback(
                outcome,
                fallback,
            ),
    }
}

/// Whether `outcome` is what comes of a reply that may fail.
pub open spec fn answers<S: JsonForm<MiddlewareCallbackResult>>(
    form: S,
    reply: JsReply,
    not_queued: Seq<char>,
    prefix: Seq<char>,
    outcome: Result<JsonView, Seq<char>>,
) -> bool {
    match reply {
        JsReply::NotQueued(status) => outcome == Err::<JsonView, Seq<char>>(not_queued + status@),
        JsReply::Queued(received) => receives(form, received, prefix, outcome),
    }
}

/// The value of a reply, or the fallback.
fn reply_or_value<S: JsonForm<MiddlewareCallbackResult>>(
    reply: JsReply,
    not_queued: &str,
    error_prefix: &str,
    fallback: Json,
    form: &S,
) -> (recorded: Recorded<Json>)
    ensures
        answers_or_falls_back(
            *form,
            reply,
            not_queued@,
            error_prefix@,
            fallback@,
            recorded_json(recorded),
        ),
{
    match reply {
        JsReply::NotQueued(status) => Recorded::with(
            fallback,
            Report::Message(concat2(not_queued, status.as_str())),
        ),
        JsReply::Queued(received) => recv_middleware_json_or_value(
            received,
            error_prefix,
            fallback,
            form,
        ),
    }
}

/// The value of a reply.
pub(crate) fn reply_result<S: JsonForm<MiddlewareCallbackResult>>(
    reply: JsReply,
    not_queued: &str,
    error_prefix: &str,
    form: &S,
) -> (result: Result<Json, FlowError>)
    ensures
        answers(*form, reply, not_queued@, error_prefix@, flow_view(result)),
{
    match reply {
        JsReply::NotQueued(status) => Err(
            FlowError::Internal(concat2(not_queued, status.as_str())),
        ),
        JsReply::Queued(received) => recv_middleware_json_result(received, error_prefix, form),
    }
}

/// Where a callback that may not fail has failed, its fallback stands: an error is logged only
/// together with it.
pub proof fn failure_keeps_fallback<S: JsonForm<MiddlewareCallbackResult>>(
    form: S,
    reply: JsReply,
    not_queued: Seq<char>,
    prefix: Seq<char>,
    fallback: JsonView,
    recorded: (JsonView, Seq<ReportView>),
)
    requires
        answers_or_falls_back(form, reply, not_queued, prefix, fallback, recorded),
    ensures
        recorded.1.len() <= 1,
        recorded.1.len() == 1 ==> recorded.0 == fallback,
        reply is NotQueued ==> recorded.1.len() == 1,
{
}

/// The arguments of a tool call, from a sanitizer `(name, args) => args`. Where it fails, the
/// arguments stay as they were.
pub fn tool_reply<S: JsonForm<MiddlewareCallbackResult>>(reply: JsReply, args: Json, form: &S) -> (
recorded: Recorded<Json>)
    ensures
        answers_or_falls_back(
            *form,
            reply,
            "nemo_relay: failed to queue JS tool callback: "@,
            "nemo_relay: JS tool callback failed"@,
            args@,
            recorded_json(recorded),
        ),
{
    reply_or_value(
        reply,
        "nemo_relay: failed to queue JS tool callback: ",
        "nemo_relay: JS tool callback failed",
        args,
        form,
    )
}

/// The response of a model, from a sanitizer `(response) => response`. Where it fails, the
/// response stays as it was.
pub fn llm_response_reply<S: JsonForm<MiddlewareCallbackResult>>(
    reply: JsReply,
    response: Json,
    form: &S,
) -> (recorded: Recorded<Json>)
    ensures
        answers_or_falls_back(
            *form,
            reply,
            "nemo_relay: failed to queue JS LLM response callback: "@,
            "nemo_relay: JS LLM response callback failed"@,
            response@,
            recorded_json(recorded),
        ),
{
    reply_or_value(
        reply,
        "nemo_relay: failed to queue JS LLM response callback: ",
        "nemo_relay: JS LLM response callback failed",
        response,
        form,
    )
}

/// The arguments of a tool call, from a request intercept `(name, args) => args`.
pub fn tool_request_intercept_reply<S: JsonForm<MiddlewareCallbackResult>>(
    reply: JsReply,
    form: &S,
) -> (result: Result<Json, FlowError>)
    ensures
        answers(
            *form,
            reply,
            "failed to queue JS tool callback: "@,
            "JS tool callback failed"@,
            flow_view(result),
        ),
{
    reply_result(reply, "failed to queue JS tool callback: ", "JS tool callback failed", form)
}

/// Whether `result` is what comes of the reply of a guardrail.
pub open spec fn answers_string<S: JsonForm<MiddlewareCallbackResult>, D: DebugForm>(
    form: S,
    shown: D,
    reply: JsReply,
    not_queued: Seq<char>,
    prefix: Seq<char>,
    result: Result<Option<Seq<char>>, Seq<char>>,
) -> bool {
    match reply {
        JsReply::NotQueued(status) => result == Err::<Option<Seq<char>>, Seq<char>>(
            not_queued + status@,
        ),
        JsReply::Queued(received) => receives_string(form, shown, received, prefix, result),
    }
}

/// The optional string of a reply.
fn string_reply<S: JsonForm<MiddlewareCallbackResult>, D: DebugForm>(
    reply: JsReply,
    not_queued: &str,
    error_prefix: &str,
    form: &S,
    shown: &D,
) -> (result: Result<Option<String>, FlowError>)
    ensures
        answers_string(
            *form,
            *shown,
            reply,
            not_queued@,
            error_prefix@,
            string_view(result),
        ),
{
    match reply {
        JsReply::NotQueued(status) => Err(
            FlowError::Internal(concat2(not_queued, status.as_str())),
        ),
        JsReply::Queued(received) => recv_middleware_option_string_result(
            received,
            error_prefix,
            form,
            shown,
        ),
    }
}

/// Why a tool call is blocked, if it is, from a guardrail `(name, args) => string | null`.
pub fn tool_conditional_reply<S: JsonForm<MiddlewareCallbackResult>, D: DebugForm>(
    reply: JsReply,
    form: &S,
    shown: &D,
) -> (result: Result<Option<String>, FlowError>)
    ensures
        answers_string(
            *form,
            *shown,
            reply,
            "failed to queue JS tool conditional callback: "@,
            "JS tool conditional callback failed"@,
            string_view(result),
        ),
{
    string_reply(
        reply,
        "failed to queue JS tool conditional callback: ",
        "JS tool conditional callback failed",
        form,
        shown,
    )
}

/// Why a request is blocked, if it is, from a guardrail `(request) => string | null`.
pub fn llm_conditional_reply<S: JsonForm<MiddlewareCallbackResult>, D: DebugForm>(
    reply: JsReply,
    form: &S,
    shown: &D,
) -> (result: Result<Option<String>, FlowError>)
    ensures
        answers_string(
            *form,
            *shown,
            reply,
            "failed to queue JS LLM conditional callback: "@,
            "JS LLM conditional callback failed"@,
            string_view(result),
        ),
{
    string_reply(
        reply,
        "failed to queue JS LLM conditional callback: ",
        "JS LLM conditional callback failed",
        form,
        shown,
    )
}

/// Whether `outcome` is what comes of the reply of an execution callback. A channel that closed
/// is an error in its own words.
pub open spec fn executes<S: JsonForm<MiddlewareCallbackResult>>(
    form: S,
    reply: JsReply,
    not_queued: Seq<char>,
    prefix: Seq<char>,
    outcome: Result<JsonView, Seq<char>>,
) -> bool {
    match reply {
        JsReply::NotQueued(status) => outcome == Err::<JsonView, Seq<char>>(not_queued + status@),
        JsReply::Queued(Err(text)) => outcome == Err::<JsonView, Seq<char>>(text@),
        JsReply::Queued(Ok(value)) => unwraps(form, value, prefix, outcome),
    }
}

/// The value of the reply of an execution callback.
fn exec_reply<S: JsonForm<MiddlewareCallbackResult>>(
    reply: JsReply,
    not_queued: &str,
    error_prefix: &str,
    form: &S,
) -> (result: Result<Json, FlowError>)
    ensures
        executes(*form, reply, not_queued@, error_prefix@, flow_view(result)),
{
    match reply {
        JsReply::NotQueued(status) => Err(
            FlowError::Internal(concat2(not_queued, status.as_str())),
        ),
        JsReply::Queued(Err(text)) => Err(FlowError::Internal(text)),
        JsReply::Queued(Ok(value)) => unwrap_middleware_result(value, error_prefix, form),
    }
}

/// The result of a tool, from a function `(args) => result`.
pub fn tool_exec_reply<S: JsonForm<MiddlewareCallbackResult>>(reply: JsReply, form: &S) -> (result:
    Result<Json, FlowError>)
    ensures
        executes(
            *form,
            reply,
            "failed to queue JS tool execution callback: "@,
            "JS tool execution callback failed"@,
            flow_view(result),
        ),
{
    exec_reply(
        reply,
        "failed to queue JS tool execution callback: ",
        "JS tool execution callback failed",
        form,
    )
}

/// The response of a model, from a function `(request) => response`.
pub fn llm_exec_reply<S: JsonForm<MiddlewareCallbackResult>>(reply: JsReply, form: &S) -> (result:
    Result<Json, FlowError>)
    ensures
        executes(
            *form,
            reply,
            "failed to queue JS LLM execution callback: "@,
            "JS LLM execution callback failed"@,
            flow_view(result),
        ),
{
    exec_reply(
        reply,
        "failed to queue JS LLM execution callback: ",
        "JS LLM execution callback failed",
        form,
    )
}

} // verus!
