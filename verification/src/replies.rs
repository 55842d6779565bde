//! Laws on the replies of JavaScript callbacks: what each gives, case by case, for what came back
//! and for what the forms make of it.
use vstd::prelude::*;

use crate::callable::{
    llm_conditional_reply, llm_exec_reply, llm_response_reply, tool_conditional_reply,
    tool_exec_reply, tool_reply, tool_request_intercept_reply,
};
use crate::events::EventSanitizeFields;
use crate::flow::FlowError;
use crate::intercept::{
    collect_chunk, llm_request_intercept_argument, llm_request_intercept_reply, next_request, stream_chunks,
    tool_exec_intercept_reply, with_item, JsRequestOutcome, JsToolOutcome,
    LlmRequestInterceptOutcome, ToolExecutionInterceptOutcome,
};
use crate::js_codec::{decode_reply, decode_response_reply, encode_argument, encode_reply};
use crate::js_events::{
    collector_reply, event_sanitizer_arguments, event_sanitizer_reply, finalizer_reply,
    subscriber_payload, subscriber_reply,
};
use crate::json::{Json, JsonView};
use crate::marks::{js_pending_marks, pending_marks, JsPendingMarkSpec, PendingMarkSpec};
use crate::middleware::{
    open_envelope, read_result, recv_json_or_null, recv_json_result, recv_llm_request_result,
    recv_middleware_json_or_value, recv_middleware_json_result,
    recv_middleware_option_string_result, recv_option_string_result, report_views,
    string_or_null_result, unwrap_middleware_result, DebugForm, JsReply, MiddlewareCallbackResult,
    Recorded, Report,
};
use crate::request::{LlmRequest, LlmSanitizeContext};
use crate::sanitizers::{
    contextual_llm_request_reply, contextual_llm_response_reply, llm_sanitize_request_reply,
    sanitize_context_argument,
};
use crate::serial::{json_or_null, JsonForm};

verus! {

/// Whether the form reads a JSON value as an envelope that says this (whether the callback came to
/// its end, its value, and its error), or fails in these words.
pub open spec fn says<S: JsonForm<MiddlewareCallbackResult>>(
    form: S,
    json: JsonView,
    said: Result<(bool, JsonView, Seq<char>), Seq<char>>,
) -> bool {
    forall|value: Json, read: Result<MiddlewareCallbackResult, String>|
        value@ == json && #[trigger] call_ensures(S::from_value, (&form, value), read) ==> match (
            read,
            said,
        ) {
            (Ok(envelope), Ok((ok, held, error))) => envelope.ok == ok && envelope.value@ == held
                && envelope.error@ == error,
            (Err(text), Err(words)) => text@ == words,
            _ => false,
        }
}

/// Whether the form reads a JSON value as this value, or fails in these words.
pub open spec fn is_read_as<T, S: JsonForm<T>>(
    form: S,
    json: JsonView,
    outcome: Result<T, Seq<char>>,
) -> bool {
    forall|value: Json, read: Result<T, String>|
        value@ == json && #[trigger] call_ensures(S::from_value, (&form, value), read) ==> match (
            read,
            outcome,
        ) {
            (Ok(read), Ok(outcome)) => read == outcome,
            (Err(text), Err(words)) => text@ == words,
            _ => false,
        }
}

/// Whether the form writes a value as this JSON value, or fails.
pub open spec fn is_written_as<T, S: JsonForm<T>>(
    form: S,
    value: T,
    json: Option<JsonView>,
) -> bool {
    forall|written: Result<Json, String>| #[trigger]
        call_ensures(S::to_value, (&form, &value), written) ==> match (written, json) {
            (Ok(written), Some(json)) => written@ == json,
            (Err(_), None) => true,
            _ => false,
        }
}

/// Whether the one error to log is this message.
pub open spec fn one_message(errors: Seq<Report>, text: Seq<char>) -> bool {
    errors.len() == 1 && match errors[0] {
        Report::Message(message) => message@ == text,
        Report::Flow(_) => false,
    }
}

/// Whether the one error to log is an error of the flow with this text.
pub open spec fn one_failure(errors: Seq<Report>, text: Seq<char>) -> bool {
    errors.len() == 1 && match errors[0] {
        Report::Message(_) => false,
        Report::Flow(FlowError::Internal(message)) => message@ == text,
    }
}

/// Whether an error of the flow has this text.
pub open spec fn error_says(error: FlowError, text: Seq<char>) -> bool {
    match error {
        FlowError::Internal(message) => message@ == text,
    }
}

/// Each report stands at its place.
proof fn lemma_reports(errors: Seq<Report>)
    ensures
        report_views(errors).len() == errors.len(),
        forall|i: int| 0 <= i < errors.len() ==> report_views(errors)[i] == #[trigger] errors[i]@,
        errors.len() > 0 ==> report_views(errors)[0] == errors[0]@,
{
}

/// A tool sanitizer gives the value that its callback answers. In every other case the arguments stay
/// and the one error is logged.
pub proof fn tool_sanitizer_reply<S: JsonForm<MiddlewareCallbackResult>>(
    reply: JsReply,
    args: Json,
    form: S,
    recorded: Recorded<Json>,
    said: Result<(bool, JsonView, Seq<char>), Seq<char>>,
)
    requires
        call_ensures(tool_reply::<S>, (reply, args, &form), recorded),
        reply matches JsReply::Queued(Ok(value)) ==> says(form, value@, said),
    ensures
        match reply {
            JsReply::NotQueued(status) => recorded.value@ == args@ && one_message(
                recorded.errors@,
                "nemo_relay: failed to queue JS tool callback: "@ + status@,
            ),
            JsReply::Queued(Err(text)) => recorded.value@ == args@ && one_failure(
                recorded.errors@,
                "nemo_relay: JS tool callback failed"@ + ": "@ + text@,
            ),
            JsReply::Queued(Ok(_)) => match said {
                Ok((true, held, _)) => recorded.value@ == held && recorded.errors@.len() == 0,
                Ok((false, _, error)) => recorded.value@ == args@ && one_failure(
                    recorded.errors@,
                    "nemo_relay: JS tool callback failed"@ + ": "@ + error,
                ),
                Err(words) => recorded.value@ == args@ && one_failure(
                    recorded.errors@,
                    "nemo_relay: JS tool callback failed"@ + ": invalid middleware callback result: "@
                        + words,
                ),
            },
        },
{
    lemma_reports(recorded.errors@);
}

/// A response sanitizer gives the value that its callback answers. In every other case the response
/// stays and the one error is logged.
pub proof fn response_sanitizer_reply<S: JsonForm<MiddlewareCallbackResult>>(
    reply: JsReply,
    response: Json,
    form: S,
    recorded: Recorded<Json>,
    said: Result<(bool, JsonView, Seq<char>), Seq<char>>,
)
    requires
        call_ensures(llm_response_reply::<S>, (reply, response, &form), recorded),
        reply matches JsReply::Queued(Ok(value)) ==> says(form, value@, said),
    ensures
        match reply {
            JsReply::NotQueued(status) => recorded.value@ == response@ && one_message(
                recorded.errors@,
                "nemo_relay: failed to queue JS LLM response callback: "@ + status@,
            ),
            JsReply::Queued(Err(text)) => recorded.value@ == response@ && one_failure(
                recorded.errors@,
                "nemo_relay: JS LLM response callback failed"@ + ": "@ + text@,
            ),
            JsReply::Queued(Ok(_)) => match said {
                Ok((true, held, _)) => recorded.value@ == held && recorded.errors@.len() == 0,
                Ok((false, _, error)) => recorded.value@ == response@ && one_failure(
                    recorded.errors@,
                    "nemo_relay: JS LLM response callback failed"@ + ": "@ + error,
                ),
                Err(words) => recorded.value@ == response@ && one_failure(
                    recorded.errors@,
                    "nemo_relay: JS LLM response callback failed"@ + ": invalid middleware callback result: "@
                        + words,
                ),
            },
        },
{
    lemma_reports(recorded.errors@);
}

/// A request intercept of a tool gives the value that its callback answers, and fails in every other
/// case.
pub proof fn tool_request_reply<S: JsonForm<MiddlewareCallbackResult>>(
    reply: JsReply,
    form: S,
    result: Result<Json, FlowError>,
    said: Result<(bool, JsonView, Seq<char>), Seq<char>>,
)
    requires
        call_ensures(tool_request_intercept_reply::<S>, (reply, &form), result),
        reply matches JsReply::Queued(Ok(value)) ==> says(form, value@, said),
    ensures
        match reply {
            JsReply::NotQueued(status) => result is Err && error_says(
                result->Err_0,
                "failed to queue JS tool callback: "@ + status@,
            ),
            JsReply::Queued(Err(text)) => result is Err && error_says(
                result->Err_0,
                "JS tool callback failed"@ + ": "@ + text@,
            ),
            JsReply::Queued(Ok(_)) => match said {
                Ok((true, held, _)) => result is Ok && result->Ok_0@ == held,
                Ok((false, _, error)) => result is Err && error_says(
                    result->Err_0,
                    "JS tool callback failed"@ + ": "@ + error,
                ),
                Err(words) => result is Err && error_says(
                    result->Err_0,
                    "JS tool callback failed"@ + ": invalid middleware callback result: "@ + words,
                ),
            },
        },
{
}

/// A tool gives the value that its callback answers, and fails in every other case; a channel that
/// closed is an error in its own words.
pub proof fn tool_execution_reply<S: JsonForm<MiddlewareCallbackResult>>(
    reply: JsReply,
    form: S,
    result: Result<Json, FlowError>,
    said: Result<(bool, JsonView, Seq<char>), Seq<char>>,
)
    requires
        call_ensures(tool_exec_reply::<S>, (reply, &form), result),
        reply matches JsReply::Queued(Ok(value)) ==> says(form, value@, said),
    ensures
        match reply {
            JsReply::NotQueued(status) => result is Err && error_says(
                result->Err_0,
                "failed to queue JS tool execution callback: "@ + status@,
            ),
            JsReply::Queued(Err(text)) => result is Err && error_says(
                result->Err_0,
                text@,
            ),
            JsReply::Queued(Ok(_)) => match said {
                Ok((true, held, _)) => result is Ok && result->Ok_0@ == held,
                Ok((false, _, error)) => result is Err && error_says(
                    result->Err_0,
                    "JS tool execution callback failed"@ + ": "@ + error,
                ),
                Err(words) => result is Err && error_says(
                    result->Err_0,
                    "JS tool execution callback failed"@ + ": invalid middleware callback result: "@ + words,
                ),
            },
        },
{
}

/// A model gives the value that its callback answers, and fails in every other case; a channel that
/// closed is an error in its own words.
pub proof fn llm_execution_reply<S: JsonForm<MiddlewareCallbackResult>>(
    reply: JsReply,
    form: S,
    result: Result<Json, FlowError>,
    said: Result<(bool, JsonView, Seq<char>), Seq<char>>,
)
    requires
        call_ensures(llm_exec_reply::<S>, (reply, &form), result),
        reply matches JsReply::Queued(Ok(value)) ==> says(form, value@, said),
    ensures
        match reply {
            JsReply::NotQueued(status) => result is Err && error_says(
                result->Err_0,
                "failed to queue JS LLM execution callback: "@ + status@,
            ),
            JsReply::Queued(Err(text)) => result is Err && error_says(
                result->Err_0,
                text@,
            ),
            JsReply::Queued(Ok(_)) => match said {
                Ok((true, held, _)) => result is Ok && result->Ok_0@ == held,
                Ok((false, _, error)) => result is Err && error_says(
                    result->Err_0,
                    "JS LLM execution callback failed"@ + ": "@ + error,
                ),
                Err(words) => result is Err && error_says(
                    result->Err_0,
                    "JS LLM execution callback failed"@ + ": invalid middleware callback result: "@ + words,
                ),
            },
        },
{
}

/// A guardrail of a tool lets the call pass on null and blocks it with a text. What is neither, and
/// every failure of the callback, is an error.
pub proof fn tool_guardrail_reply<S: JsonForm<MiddlewareCallbackResult>, D: DebugForm>(
    reply: JsReply,
    form: S,
    shown: D,
    result: Result<Option<String>, FlowError>,
    said: Result<(bool, JsonView, Seq<char>), Seq<char>>,
)
    requires
        call_ensures(tool_conditional_reply::<S, D>, (reply, &form, &shown), result),
        reply matches JsReply::Queued(Ok(value)) ==> says(form, value@, said),
    ensures
        match reply {
            JsReply::NotQueued(status) => result is Err && error_says(
                result->Err_0,
                "failed to queue JS tool conditional callback: "@ + status@,
            ),
            JsReply::Queued(Err(text)) => result is Err && error_says(
                result->Err_0,
                "JS tool conditional callback failed"@ + ": "@ + text@,
            ),
            JsReply::Queued(Ok(_)) => match said {
                Ok((true, held, _)) => match held {
                    JsonView::Null => result is Ok && result->Ok_0 is None,
                    JsonView::String(text) => result is Ok && result->Ok_0 is Some
                        && result->Ok_0->Some_0@ == text,
                    _ => result is Err && exists|value: Json, words: String|
                        value@ == held && #[trigger] call_ensures(D::debug, (&shown, &value), words)
                            && error_says(
                            result->Err_0,
                            "JS tool conditional callback failed"@ + ": expected string or null, got "@ + words@,
                        ),
                },
                Ok((false, _, error)) => result is Err && error_says(
                    result->Err_0,
                    "JS tool conditional callback failed"@ + ": "@ + error,
                ),
                Err(words) => result is Err && error_says(
                    result->Err_0,
                    "JS tool conditional callback failed"@ + ": invalid middleware callback result: "@ + words,
                ),
            },
        },
{
}

/// A guardrail of a model lets the request pass on null and blocks it with a text. What is neither,
/// and every failure of the callback, is an error.
pub proof fn llm_guardrail_reply<S: JsonForm<MiddlewareCallbackResult>, D: DebugForm>(
    reply: JsReply,
    form: S,
    shown: D,
    result: Result<Option<String>, FlowError>,
    said: Result<(bool, JsonView, Seq<char>), Seq<char>>,
)
    requires
        call_ensures(llm_conditional_reply::<S, D>, (reply, &form, &shown), result),
        reply matches JsReply::Queued(Ok(value)) ==> says(form, value@, said),
    ensures
        match reply {
            JsReply::NotQueued(status) => result is Err && error_says(
                result->Err_0,
                "failed to queue JS LLM conditional callback: "@ + status@,
            ),
            JsReply::Queued(Err(text)) => result is Err && error_says(
                result->Err_0,
                "JS LLM conditional callback failed"@ + ": "@ + text@,
            ),
            JsReply::Queued(Ok(_)) => match said {
                Ok((true, held, _)) => match held {
                    JsonView::Null => result is Ok && result->Ok_0 is None,
                    JsonView::String(text) => result is Ok && result->Ok_0 is Some
                        && result->Ok_0->Some_0@ == text,
                    _ => result is Err && exists|value: Json, words: String|
                        value@ == held && #[trigger] call_ensures(D::debug, (&shown, &value), words)
                            && error_says(
                            result->Err_0,
                            "JS LLM conditional callback failed"@ + ": expected string or null, got "@ + words@,
                        ),
                },
                Ok((false, _, error)) => result is Err && error_says(
                    result->Err_0,
                    "JS LLM conditional callback failed"@ + ": "@ + error,
                ),
                Err(words) => result is Err && error_says(
                    result->Err_0,
                    "JS LLM conditional callback failed"@ + ": invalid middleware callback result: "@ + words,
                ),
            },
        },
{
}

/// An envelope gives its value where the callback came to its end, and an error otherwise.
pub proof fn envelope_gives_its_value(
    envelope: Result<MiddlewareCallbackResult, String>,
    prefix: &str,
    result: Result<Json, FlowError>,
)
    requires
        call_ensures(open_envelope, (envelope, prefix), result),
    ensures
        match envelope {
            Ok(held) => if held.ok {
                result is Ok && result->Ok_0@ == held.value@
            } else {
                result is Err && error_says(result->Err_0, prefix@ + ": "@ + held.error@)
            },
            Err(text) => result is Err && error_says(
                result->Err_0,
                prefix@ + ": invalid middleware callback result: "@ + text@,
            ),
        },
{
}

/// What is unwrapped or received is what the envelope holds, or the error in its place; a channel
/// that closed is an error after the prefix.
pub proof fn received_value_is_unwrapped<S: JsonForm<MiddlewareCallbackResult>>(
    value: Json,
    received: Result<Json, String>,
    prefix: &str,
    form: S,
    unwrapped: Result<Json, FlowError>,
    result: Result<Json, FlowError>,
    said: Result<(bool, JsonView, Seq<char>), Seq<char>>,
)
    requires
        call_ensures(unwrap_middleware_result::<S>, (value, prefix, &form), unwrapped),
        call_ensures(recv_middleware_json_result::<S>, (received, prefix, &form), result),
        says(form, value@, said),
        received matches Ok(other) ==> other == value,
    ensures
        match said {
            Ok((true, held, _)) => unwrapped is Ok && unwrapped->Ok_0@ == held,
            Ok((false, _, error)) => unwrapped is Err && error_says(
                unwrapped->Err_0,
                prefix@ + ": "@ + error,
            ),
            Err(words) => unwrapped is Err && error_says(
                unwrapped->Err_0,
                prefix@ + ": invalid middleware callback result: "@ + words,
            ),
        },
        match received {
            Err(text) => result is Err && error_says(result->Err_0, prefix@ + ": "@ + text@),
            Ok(_) => match said {
                Ok((true, held, _)) => result is Ok && result->Ok_0@ == held,
                Ok((false, _, error)) => result is Err && error_says(
                    result->Err_0,
                    prefix@ + ": "@ + error,
                ),
                Err(words) => result is Err && error_says(
                    result->Err_0,
                    prefix@ + ": invalid middleware callback result: "@ + words,
                ),
            },
        },
{
}

/// Where a fallback stands by, it is given on every failure, and the failure is logged.
pub proof fn received_value_or_fallback<S: JsonForm<MiddlewareCallbackResult>>(
    received: Result<Json, String>,
    prefix: &str,
    fallback: Json,
    form: S,
    recorded: Recorded<Json>,
    said: Result<(bool, JsonView, Seq<char>), Seq<char>>,
)
    requires
        call_ensures(
            recv_middleware_json_or_value::<S>,
            (received, prefix, fallback, &form),
            recorded,
        ),
        received matches Ok(value) ==> says(form, value@, said),
    ensures
        match received {
            Err(text) => recorded.value@ == fallback@ && one_failure(
                recorded.errors@,
                prefix@ + ": "@ + text@,
            ),
            Ok(_) => match said {
                Ok((true, held, _)) => recorded.value@ == held && recorded.errors@.len() == 0,
                Ok((false, _, error)) => recorded.value@ == fallback@ && one_failure(
                    recorded.errors@,
                    prefix@ + ": "@ + error,
                ),
                Err(words) => recorded.value@ == fallback@ && one_failure(
                    recorded.errors@,
                    prefix@ + ": invalid middleware callback result: "@ + words,
                ),
            },
        },
{
    lemma_reports(recorded.errors@);
}

/// A value that is to be a text or null is that, and an error that shows it if it is neither.
pub proof fn text_or_null_is_told_apart<D: DebugForm>(
    value: Json,
    prefix: &str,
    shown: D,
    result: Result<Option<String>, FlowError>,
)
    requires
        call_ensures(string_or_null_result::<D>, (value, prefix, &shown), result),
    ensures
        match value {
            Json::Null => result is Ok && result->Ok_0 is None,
            Json::String(text) => result is Ok && result->Ok_0 is Some && result->Ok_0->Some_0@
                == text@,
            _ => result is Err && exists|words: String| #[trigger]
                call_ensures(D::debug, (&shown, &value), words) && error_says(
                    result->Err_0,
                    prefix@ + ": expected string or null, got "@ + words@,
                ),
        },
{
}

/// What a guardrail answered: a text or null, or an error.
pub proof fn received_text_or_null<S: JsonForm<MiddlewareCallbackResult>, D: DebugForm>(
    received: Result<Json, String>,
    prefix: &str,
    form: S,
    shown: D,
    result: Result<Option<String>, FlowError>,
    said: Result<(bool, JsonView, Seq<char>), Seq<char>>,
)
    requires
        call_ensures(
            recv_middleware_option_string_result::<S, D>,
            (received, prefix, &form, &shown),
            result,
        ),
        received matches Ok(value) ==> says(form, value@, said),
    ensures
        match received {
            Err(text) => result is Err && error_says(result->Err_0, prefix@ + ": "@ + text@),
            Ok(_) => match said {
                Ok((true, held, _)) => match held {
                    JsonView::Null => result is Ok && result->Ok_0 is None,
                    JsonView::String(text) => result is Ok && result->Ok_0 is Some
                        && result->Ok_0->Some_0@ == text,
                    _ => result is Err && exists|value: Json, words: String|
                        value@ == held && #[trigger] call_ensures(D::debug, (&shown, &value), words)
                            && error_says(
                            result->Err_0,
                            prefix@ + ": expected string or null, got "@ + words@,
                        ),
                },
                Ok((false, _, error)) => result is Err && error_says(
                    result->Err_0,
                    prefix@ + ": "@ + error,
                ),
                Err(words) => result is Err && error_says(
                    result->Err_0,
                    prefix@ + ": invalid middleware callback result: "@ + words,
                ),
            },
        },
{
}

/// What a plain callback answered: its value, with null or an error where the channel closed.
pub proof fn received_plain_value<D: DebugForm>(
    received: Result<Json, String>,
    prefix: &str,
    shown: D,
    recorded: Recorded<Json>,
    result: Result<Json, FlowError>,
    text: Result<Option<String>, FlowError>,
)
    requires
        call_ensures(recv_json_or_null, (received, prefix), recorded),
        call_ensures(recv_json_result, (received, prefix), result),
        call_ensures(recv_option_string_result::<D>, (received, prefix, &shown), text),
    ensures
        match received {
            Ok(value) => recorded.value@ == value@ && recorded.errors@.len() == 0 && result
                == Ok::<Json, FlowError>(value) && match value {
                Json::Null => text is Ok && text->Ok_0 is None,
                Json::String(held) => text is Ok && text->Ok_0 is Some && text->Ok_0->Some_0@
                    == held@,
                _ => text is Err && exists|words: String| #[trigger]
                    call_ensures(D::debug, (&shown, &value), words) && error_says(
                        text->Err_0,
                        prefix@ + ": expected string or null, got "@ + words@,
                    ),
            },
            Err(closed) => recorded.value@ is Null && one_message(
                recorded.errors@,
                prefix@ + ": "@ + closed@,
            ) && result is Err && error_says(result->Err_0, prefix@ + ": "@ + closed@)
                && text is Err && error_says(text->Err_0, prefix@ + ": "@ + closed@),
        },
{
    lemma_reports(recorded.errors@);
}

/// A value is what its JSON form is read as, and the error follows what the caller says of it.
pub proof fn value_is_read<T, S: JsonForm<T>>(
    value: Json,
    invalid: &str,
    form: S,
    result: Result<T, FlowError>,
    outcome: Result<T, Seq<char>>,
)
    requires
        call_ensures(read_result::<T, S>, (value, invalid, &form), result),
        is_read_as(form, value@, outcome),
    ensures
        match outcome {
            Ok(read) => result == Ok::<T, FlowError>(read),
            Err(words) => result is Err && error_says(result->Err_0, invalid@ + words),
        },
{
}

/// A request that a callback answered is what its JSON form is read as.
pub proof fn request_is_received<R: JsonForm<LlmRequest>>(
    received: Result<Json, String>,
    prefix: &str,
    requests: R,
    result: Result<LlmRequest, FlowError>,
    outcome: Result<LlmRequest, Seq<char>>,
)
    requires
        call_ensures(recv_llm_request_result::<R>, (received, prefix, &requests), result),
        received matches Ok(value) ==> is_read_as(requests, value@, outcome),
    ensures
        match received {
            Err(text) => result is Err && error_says(result->Err_0, prefix@ + ": "@ + text@),
            Ok(_) => match outcome {
                Ok(read) => result == Ok::<LlmRequest, FlowError>(read),
                Err(words) => result is Err && error_says(
                    result->Err_0,
                    prefix@ + ": failed to deserialize LlmRequest: "@ + words,
                ),
            },
        },
{
}

/// The JSON form of a value is what the form writes, and null where it writes nothing.
pub proof fn form_or_null<T, S: JsonForm<T>>(
    value: T,
    form: S,
    json: Json,
    written: Option<JsonView>,
)
    requires
        call_ensures(json_or_null::<T, S>, (&value, &form), json),
        is_written_as(form, value, written),
    ensures
        match written {
            Some(written) => json@ == written,
            None => json@ is Null,
        },
{
}

/// A request sanitizer gives the request that its answer is read as. An answer that is no request
/// leaves the request and is logged; where the callback failed, that is logged before, and it is
/// the JSON form of the request that is read.
pub proof fn request_sanitizer_reply<
    S: JsonForm<MiddlewareCallbackResult>,
    R: JsonForm<LlmRequest>,
>(
    reply: JsReply,
    request: LlmRequest,
    form: S,
    requests: R,
    recorded: Recorded<LlmRequest>,
    said: Result<(bool, JsonView, Seq<char>), Seq<char>>,
    written: Option<JsonView>,
    outcome: Result<LlmRequest, Seq<char>>,
)
    requires
        call_ensures(
            llm_sanitize_request_reply::<S, R>,
            (reply, request, &form, &requests),
            recorded,
        ),
        reply matches JsReply::Queued(Ok(value)) ==> says(form, value@, said),
        is_written_as(requests, request, written),
        is_read_as(
            requests,
            match (reply, said) {
                (JsReply::Queued(Ok(_)), Ok((true, held, _))) => held,
                _ => match written {
                    Some(written) => written,
                    None => JsonView::Null,
                },
            },
            outcome,
        ),
    ensures
        match reply {
            JsReply::NotQueued(status) => recorded.value@ == request@ && one_message(
                recorded.errors@,
                "nemo_relay: failed to queue JS LLM sanitize request callback: "@ + status@,
            ),
            JsReply::Queued(received) => {
                let failure = match (received, said) {
                    (Err(text), _) => Some(
                        "nemo_relay: JS LLM sanitize request callback failed"@ + ": "@ + text@,
                    ),
                    (Ok(_), Ok((true, _, _))) => None,
                    (Ok(_), Ok((false, _, error))) => Some(
                        "nemo_relay: JS LLM sanitize request callback failed"@ + ": "@ + error,
                    ),
                    (Ok(_), Err(words)) => Some(
                        "nemo_relay: JS LLM sanitize request callback failed"@
                            + ": invalid middleware callback result: "@ + words,
                    ),
                };
                let before: int = if failure is Some {
                    1
                } else {
                    0
                };
                &&& failure matches Some(failure) ==> recorded.errors@.len() > 0 && one_failure(
                    recorded.errors@.take(1),
                    failure,
                )
                &&& match outcome {
                    Ok(read) => recorded.value@ == read@ && recorded.errors@.len() == before,
                    Err(words) => recorded.value@ == request@ && recorded.errors@.len() == before
                        + 1 && one_message(
                        recorded.errors@.skip(before),
                        "nemo_relay: JS LLM sanitize request callback failed: failed to deserialize LlmRequest: "@
                            + words,
                    ),
                }
            },
        },
{
    lemma_reports(recorded.errors@);
    match reply {
        JsReply::NotQueued(_) => {},
        JsReply::Queued(received) => {
            let answer = choose|answer: Recorded<Json>| #[trigger]
                crate::sanitizers::answers_request(form, requests, reply, request, answer)
                    && crate::sanitizers::reads_request(
                    requests,
                    answer,
                    request@,
                    crate::sanitizers::recorded_request(recorded),
                );
            lemma_reports(answer.errors@);
            let last = recorded.errors@.len() - 1;
            assert(last >= 0 ==> report_views(recorded.errors@)[last] == recorded.errors@[last]@);
        },
    }
}

/// The argument on the setting names the active codec, or null, and says whether one is active.
pub proof fn setting_argument(context: LlmSanitizeContext, argument: Json)
    requires
        call_ensures(sanitize_context_argument, (&context,), argument),
    ensures
        argument@ is Object,
        argument@->Object_0.len() == 2,
        argument@->Object_0[0] == ("has_active_codec"@, JsonView::Bool(context.has_active_codec)),
        argument@->Object_0[1].0 == "codec_name"@,
        match context.codec {
            Some(codec) => argument@->Object_0[1].1 == JsonView::String(codec.name@),
            None => argument@->Object_0[1].1 is Null,
        },
{
}

/// A sanitizer of responses that sees the setting gives the value that its callback answers. Null
/// and every failure leave the response out.
pub proof fn contextual_response_reply<S: JsonForm<MiddlewareCallbackResult>>(
    reply: JsReply,
    form: S,
    result: Option<Json>,
    said: Result<(bool, JsonView, Seq<char>), Seq<char>>,
)
    requires
        call_ensures(contextual_llm_response_reply::<S>, (reply, &form), result),
        reply matches JsReply::Queued(Ok(value)) ==> says(form, value@, said),
    ensures
        match (reply, said) {
            (JsReply::Queued(Ok(_)), Ok((true, held, _))) => if held is Null {
                result is None
            } else {
                result is Some && result->Some_0@ == held
            },
            _ => result is None,
        },
{
}

/// A sanitizer of requests that sees the setting gives the request that its answer is read as.
/// Null, what is no request and every failure leave the request out.
pub proof fn contextual_request_reply<
    S: JsonForm<MiddlewareCallbackResult>,
    R: JsonForm<LlmRequest>,
>(
    reply: JsReply,
    form: S,
    requests: R,
    result: Option<LlmRequest>,
    said: Result<(bool, JsonView, Seq<char>), Seq<char>>,
    outcome: Result<LlmRequest, Seq<char>>,
)
    requires
        call_ensures(contextual_llm_request_reply::<S, R>, (reply, &form, &requests), result),
        reply matches JsReply::Queued(Ok(value)) ==> says(form, value@, said),
        said matches Ok((true, held, _)) ==> is_read_as(requests, held, outcome),
    ensures
        match (reply, said) {
            (JsReply::Queued(Ok(_)), Ok((true, held, _))) => if held is Null {
                result is None
            } else {
                match outcome {
                    Ok(read) => result is Some && result->Some_0@ == read@,
                    Err(_) => result is None,
                }
            },
            _ => result is None,
        },
{
}

/// A codec decodes a request to what its answer is read as, and fails in every other case.
pub proof fn decoder_reply<A, S: JsonForm<A>>(
    reply: JsReply,
    form: S,
    result: Result<A, FlowError>,
    outcome: Result<A, Seq<char>>,
)
    requires
        call_ensures(decode_reply::<A, S>, (reply, &form), result),
        reply matches JsReply::Queued(Ok(value)) ==> is_read_as(form, value@, outcome),
    ensures
        match reply {
            JsReply::NotQueued(status) => result is Err && error_says(
                result->Err_0,
                "failed to queue JS codec decode callback: "@ + status@,
            ),
            JsReply::Queued(Err(text)) => result is Err && error_says(
                result->Err_0,
                "JS codec decode callback failed"@ + ": "@ + text@,
            ),
            JsReply::Queued(Ok(_)) => match outcome {
                Ok(read) => result == Ok::<A, FlowError>(read),
                Err(words) => result is Err && error_says(
                    result->Err_0,
                    "JS codec decode callback: failed to deserialize AnnotatedLlmRequest: "@ + words,
                ),
            },
        },
{
}

/// A codec encodes a request to what its answer is read as, and fails in every other case.
pub proof fn encoder_reply<S: JsonForm<LlmRequest>>(
    reply: JsReply,
    form: S,
    result: Result<LlmRequest, FlowError>,
    outcome: Result<LlmRequest, Seq<char>>,
)
    requires
        call_ensures(encode_reply::<S>, (reply, &form), result),
        reply matches JsReply::Queued(Ok(value)) ==> is_read_as(form, value@, outcome),
    ensures
        match reply {
            JsReply::NotQueued(status) => result is Err && error_says(
                result->Err_0,
                "failed to queue JS codec encode callback: "@ + status@,
            ),
            JsReply::Queued(Err(text)) => result is Err && error_says(
                result->Err_0,
                "JS codec encode callback failed"@ + ": "@ + text@,
            ),
            JsReply::Queued(Ok(_)) => match outcome {
                Ok(read) => result == Ok::<LlmRequest, FlowError>(read),
                Err(words) => result is Err && error_says(
                    result->Err_0,
                    "JS codec encode callback failed"@ + ": failed to deserialize LlmRequest: "@ + words,
                ),
            },
        },
{
}

/// A codec decodes a response to what its answer is read as, and fails in every other case.
pub proof fn response_decoder_reply<A, S: JsonForm<A>>(
    reply: JsReply,
    form: S,
    result: Result<A, FlowError>,
    outcome: Result<A, Seq<char>>,
)
    requires
        call_ensures(decode_response_reply::<A, S>, (reply, &form), result),
        reply matches JsReply::Queued(Ok(value)) ==> is_read_as(form, value@, outcome),
    ensures
        match reply {
            JsReply::NotQueued(status) => result is Err && error_says(
                result->Err_0,
                "decode_response call failed: "@ + status@,
            ),
            JsReply::Queued(Err(text)) => result is Err && error_says(
                result->Err_0,
                "decode_response callback did not return"@,
            ),
            JsReply::Queued(Ok(_)) => match outcome {
                Ok(read) => result == Ok::<A, FlowError>(read),
                Err(words) => result is Err && error_says(
                    result->Err_0,
                    "decode_response returned invalid AnnotatedLlmResponse: "@ + words,
                ),
            },
        },
{
}

/// The argument of an encoder holds the annotated request under `annotated` and the request under
/// `original`, each in its JSON form, or null where it has none.
pub proof fn encoder_argument<A, F: JsonForm<A>, R: JsonForm<LlmRequest>>(
    annotated: A,
    original: LlmRequest,
    annotations: F,
    requests: R,
    argument: Json,
    annotated_json: Option<JsonView>,
    original_json: Option<JsonView>,
)
    requires
        call_ensures(
            encode_argument::<A, F, R>,
            (&annotated, &original, &annotations, &requests),
            argument,
        ),
        is_written_as(annotations, annotated, annotated_json),
        is_written_as(requests, original, original_json),
    ensures
        argument@ is Object,
        argument@->Object_0.len() == 2,
        argument@->Object_0[0].0 == "annotated"@,
        argument@->Object_0[1].0 == "original"@,
        match annotated_json {
            Some(json) => argument@->Object_0[0].1 == json,
            None => argument@->Object_0[0].1 is Null,
        },
        match original_json {
            Some(json) => argument@->Object_0[1].1 == json,
            None => argument@->Object_0[1].1 is Null,
        },
{
}

/// A chunk that could not be queued for a collector is an error, returned and logged in the same
/// words; any other is taken.
pub proof fn collector_takes_a_chunk(
    queued: Result<(), String>,
    recorded: Recorded<Result<(), FlowError>>,
)
    requires
        call_ensures(collector_reply, (queued,), recorded),
    ensures
        match queued {
            Ok(_) => recorded.value is Ok && recorded.errors@.len() == 0,
            Err(status) => recorded.value is Err && error_says(
                recorded.value->Err_0,
                "nemo_relay: failed to queue JS collector callback: "@ + status@,
            ) && one_message(
                recorded.errors@,
                "nemo_relay: failed to queue JS collector callback: "@ + status@,
            ),
        },
{
    lemma_reports(recorded.errors@);
}

/// A finalizer gives the value that came back, and null with the error logged where none did.
pub proof fn finalizer_gives_the_response(reply: JsReply, recorded: Recorded<Json>)
    requires
        call_ensures(finalizer_reply, (reply,), recorded),
    ensures
        match reply {
            JsReply::NotQueued(status) => recorded.value@ is Null && one_message(
                recorded.errors@,
                "nemo_relay: failed to queue JS finalizer callback: "@ + status@,
            ),
            JsReply::Queued(Ok(value)) => recorded.value@ == value@ && recorded.errors@.len() == 0,
            JsReply::Queued(Err(text)) => recorded.value@ is Null && one_message(
                recorded.errors@,
                "nemo_relay: JS finalizer callback failed"@ + ": "@ + text@,
            ),
        },
{
    lemma_reports(recorded.errors@);
}

/// A subscriber is handed the JSON form of an event; where there is none, or where the call could
/// not be queued, that is logged.
pub proof fn subscriber_is_called(
    event: Result<Json, String>,
    payload: Result<Json, Report>,
    queued: Result<(), String>,
    error: Option<Report>,
)
    requires
        call_ensures(subscriber_payload, (event,), payload),
        call_ensures(subscriber_reply, (queued,), error),
    ensures
        match event {
            Ok(event) => payload is Ok && payload->Ok_0@ == event@,
            Err(text) => payload is Err && one_message(
                seq![payload->Err_0],
                "nemo_relay: failed to serialize JS event subscriber payload: "@ + text@,
            ),
        },
        match queued {
            Ok(_) => error is None,
            Err(status) => error is Some && one_message(
                seq![error->Some_0],
                "nemo_relay: failed to queue JS event subscriber callback: "@ + status@,
            ),
        },
{
}

/// An event sanitizer is handed the event and its fields: data and metadata as they are, and the
/// JSON form of the profile, which is left out where there is none. Without a JSON form of the
/// event it is not called, the fields are left out, and the error is logged.
pub proof fn event_sanitizer_is_called<P, F: JsonForm<P>, G: JsonForm<EventSanitizeFields<Json>>>(
    event: Result<Json, String>,
    fields: EventSanitizeFields<P>,
    profiles: F,
    forms: G,
    arguments: Result<(Json, Json), Recorded<EventSanitizeFields<P>>>,
    profile: Option<JsonView>,
)
    requires
        call_ensures(
            event_sanitizer_arguments::<P, F, G>,
            (event, &fields, &profiles, &forms),
            arguments,
        ),
        fields.category_profile matches Some(value) ==> is_written_as(profiles, value, profile),
        fields.category_profile is None ==> profile is None,
    ensures
        match event {
            Err(text) => arguments is Err && {
                let recorded = arguments->Err_0;
                &&& recorded.value.data is None
                &&& recorded.value.category_profile is None
                &&& recorded.value.metadata is None
                &&& one_message(
                    recorded.errors@,
                    "nemo_relay: failed to serialize JS event sanitizer context: "@ + text@,
                )
            },
            Ok(event) => arguments is Ok && arguments->Ok_0.0@ == event@ && exists|
                js: EventSanitizeFields<Json>,
                written: Result<Json, String>,
            |
                #[trigger] call_ensures(G::to_value, (&forms, &js), written) && match written {
                    Ok(written) => arguments->Ok_0.1@ == written@,
                    Err(_) => arguments->Ok_0.1@ is Null,
                } && same_value(js.data, fields.data) && same_value(js.metadata, fields.metadata)
                    && match (js.category_profile, profile) {
                    (Some(js), Some(profile)) => js@ == profile,
                    (None, None) => true,
                    _ => false,
                },
        },
{
    match event {
        Err(_) => {
            lemma_reports(arguments->Err_0.errors@);
        },
        Ok(_) => {
            let json = arguments->Ok_0.1@;
            let js = choose|js: EventSanitizeFields<Json>| #[trigger]
                crate::js_events::shows_fields(profiles, fields, js)
                    && crate::serial::written_or_null(forms, js, json);
            let written = choose|written: Result<Json, String>| #[trigger]
                call_ensures(G::to_value, (&forms, &js), written) && json == match written {
                    Ok(written) => written@,
                    Err(_) => JsonView::Null,
                };
            assert(js@.data == fields@.data && js@.metadata == fields@.metadata);
            assert(call_ensures(G::to_value, (&forms, &js), written));
        },
    }
}

/// Whether two optional JSON values are the same.
pub open spec fn same_value(left: Option<Json>, right: Option<Json>) -> bool {
    match (left, right) {
        (Some(left), Some(right)) => left@ == right@,
        (None, None) => true,
        _ => false,
    }
}

/// An event sanitizer gives the fields that its answer is read as, with the profile that the JSON
/// form in it is read as. Every failure leaves the fields out and is logged.
pub proof fn event_sanitizer_answers<
    P,
    S: JsonForm<MiddlewareCallbackResult>,
    F: JsonForm<P>,
    G: JsonForm<EventSanitizeFields<Json>>,
>(
    reply: JsReply,
    form: S,
    profiles: F,
    forms: G,
    recorded: Recorded<EventSanitizeFields<P>>,
    said: Result<(bool, JsonView, Seq<char>), Seq<char>>,
    outcome: Result<EventSanitizeFields<Json>, Seq<char>>,
    profile: Result<P, Seq<char>>,
)
    requires
        call_ensures(
            event_sanitizer_reply::<P, S, F, G>,
            (reply, &form, &profiles, &forms),
            recorded,
        ),
        reply matches JsReply::Queued(Ok(value)) ==> says(form, value@, said),
        said matches Ok((true, held, _)) ==> is_read_as(forms, held, outcome),
        (outcome matches Ok(js) && js.category_profile matches Some(value)) ==> is_read_as(
            profiles,
            outcome->Ok_0.category_profile->Some_0@,
            profile,
        ),
    ensures
        ({
            let failure = match (reply, said) {
                (JsReply::NotQueued(status), _) => Some(
                    "nemo_relay: failed to queue JS event sanitizer callback: "@ + status@,
                ),
                (JsReply::Queued(Err(text)), _) => Some(
                    "nemo_relay: JS event sanitizer callback failed"@ + ": "@ + text@,
                ),
                (JsReply::Queued(Ok(_)), Err(words)) => Some(
                    "nemo_relay: JS event sanitizer callback failed"@
                        + ": invalid middleware callback result: "@ + words,
                ),
                (JsReply::Queued(Ok(_)), Ok((false, _, error))) => Some(
                    "nemo_relay: JS event sanitizer callback failed"@ + ": "@ + error,
                ),
                (JsReply::Queued(Ok(_)), Ok((true, _, _))) => match outcome {
                    Err(words) => Some(
                        "nemo_relay: invalid JS event sanitizer result: "@ + words,
                    ),
                    Ok(js) => match (js.category_profile, profile) {
                        (Some(_), Err(words)) => Some(
                            "nemo_relay: invalid JS event sanitizer result: "@ + words,
                        ),
                        _ => None,
                    },
                },
            };
            match failure {
                Some(failure) => recorded.value.data is None && recorded.value.category_profile
                    is None && recorded.value.metadata is None && if reply is NotQueued {
                    one_message(recorded.errors@, failure)
                } else {
                    one_failure(recorded.errors@, failure)
                },
                None => recorded.errors@.len() == 0 && same_value(
                    recorded.value.data,
                    outcome->Ok_0.data,
                ) && same_value(recorded.value.metadata, outcome->Ok_0.metadata) && match (
                    outcome->Ok_0.category_profile,
                    recorded.value.category_profile,
                ) {
                    (Some(_), Some(read)) => profile == Ok::<P, Seq<char>>(read),
                    (None, None) => true,
                    _ => false,
                },
            }
        }),
{
    lemma_reports(recorded.errors@);
    let given = crate::js_events::recorded_fields(recorded);
    assert(given.0 == recorded.value@);
    match reply {
        JsReply::NotQueued(_) => {},
        JsReply::Queued(received) => {
            let answer = choose|answer: Result<Json, FlowError>| #[trigger]
                crate::middleware::receives(
                    form,
                    received,
                    "nemo_relay: JS event sanitizer callback failed"@,
                    crate::flow::flow_view(answer),
                ) && match answer {
                    Err(error) => given == crate::js_events::fails::<P>(error@),
                    Ok(value) => crate::js_events::reads_fields(profiles, forms, value, given),
                };
            if answer is Ok {
                let value = answer->Ok_0;
                let js = choose|js: Result<EventSanitizeFields<Json>, String>| #[trigger]
                    call_ensures(G::from_value, (&forms, value), js) && match js {
                        Ok(js) => crate::js_events::reads_profile(profiles, js, given),
                        Err(text) => given == crate::js_events::fails::<P>(
                            "nemo_relay: invalid JS event sanitizer result: "@ + text@,
                        ),
                    };
                assert(call_ensures(G::from_value, (&forms, value), js));
                if js is Ok {
                    assert(crate::js_events::reads_profile(profiles, js->Ok_0, given));
                }
            }
        },
    }
}

/// The argument of a request intercept holds the name of the model, the request and its annotated
/// form, the latter two in their JSON form, or null where there is none.
pub proof fn request_intercept_is_called<A, R: JsonForm<LlmRequest>, F: JsonForm<A>>(
    name: &str,
    request: LlmRequest,
    annotated: Option<A>,
    requests: R,
    annotations: F,
    argument: Json,
    request_json: Option<JsonView>,
    annotated_json: Option<JsonView>,
)
    requires
        call_ensures(
            llm_request_intercept_argument::<A, R, F>,
            (name, &request, &annotated, &requests, &annotations),
            argument,
        ),
        is_written_as(requests, request, request_json),
        match annotated {
            Some(annotated) => is_written_as(annotations, annotated, annotated_json),
            None => annotated_json is None,
        },
    ensures
        argument@ is Object,
        argument@->Object_0.len() == 3,
        argument@->Object_0[0] == ("name"@, JsonView::String(name@)),
        argument@->Object_0[1].0 == "request"@,
        argument@->Object_0[2].0 == "annotated"@,
        match request_json {
            Some(json) => argument@->Object_0[1].1 == json,
            None => argument@->Object_0[1].1 is Null,
        },
        match annotated_json {
            Some(json) => argument@->Object_0[2].1 == json,
            None => argument@->Object_0[2].1 is Null,
        },
{
}

/// The outcome of a request intercept has what the answer holds: the request, its annotated form,
/// the contributions, and one pending mark for each mark of the answer, at the same place and with
/// the same name, category, category profile, data and metadata. Every failure is an error.
pub proof fn request_intercept_answers<
    A,
    C,
    P,
    O,
    S: JsonForm<MiddlewareCallbackResult>,
    F: JsonForm<JsRequestOutcome<A, C, P, O>>,
>(
    reply: JsReply,
    form: S,
    outcomes: F,
    result: Result<LlmRequestInterceptOutcome<A, C, P, O>, FlowError>,
    said: Result<(bool, JsonView, Seq<char>), Seq<char>>,
    outcome: Result<JsRequestOutcome<A, C, P, O>, Seq<char>>,
)
    requires
        call_ensures(
            llm_request_intercept_reply::<A, C, P, O, S, F>,
            (reply, &form, &outcomes),
            result,
        ),
        reply matches JsReply::Queued(Ok(value)) ==> says(form, value@, said),
        said matches Ok((true, held, _)) ==> is_read_as(outcomes, held, outcome),
    ensures
        match reply {
            JsReply::NotQueued(status) => result is Err && error_says(
                result->Err_0,
                "failed to queue JS LLM request intercept callback: "@ + status@,
            ),
            JsReply::Queued(Err(text)) => result is Err && error_says(
                result->Err_0,
                "JS LLM request intercept callback failed"@ + ": "@ + text@,
            ),
            JsReply::Queued(Ok(_)) => match (said, outcome) {
                (Err(words), _) => result is Err && error_says(
                    result->Err_0,
                    "JS LLM request intercept callback failed"@
                        + ": invalid middleware callback result: "@ + words,
                ),
                (Ok((false, _, error)), _) => result is Err && error_says(
                    result->Err_0,
                    "JS LLM request intercept callback failed"@ + ": "@ + error,
                ),
                (Ok((true, _, _)), Err(words)) => result is Err && error_says(
                    result->Err_0,
                    "invalid JS LLM request intercept outcome: "@ + words,
                ),
                (Ok((true, _, _)), Ok(answer)) => result is Ok && {
                    let given = result->Ok_0;
                    &&& given.request == answer.request
                    &&& given.annotated_request == answer.annotated
                    &&& given.optimization_contributions == answer.optimization_contributions
                    &&& given.pending_marks@.len() == answer.pending_marks@.len()
                    &&& forall|i: int|
                        #![trigger given.pending_marks@[i]]
                        #![trigger answer.pending_marks@[i]]
                        0 <= i < answer.pending_marks@.len() ==> given.pending_marks@[i].name
                            == answer.pending_marks@[i].name && given.pending_marks@[i].category
                            == answer.pending_marks@[i].category
                            && given.pending_marks@[i].category_profile
                            == answer.pending_marks@[i].category_profile
                            && given.pending_marks@[i].data == answer.pending_marks@[i].data
                            && given.pending_marks@[i].metadata
                            == answer.pending_marks@[i].metadata
                },
            },
        },
{
}

/// The outcome of a tool execution intercept has what the answer holds: the result, and one
/// pending mark for each mark of the answer, at the same place and with the same name, category,
/// category profile, data and metadata.
pub proof fn tool_intercept_answers<C, P, F: JsonForm<JsToolOutcome<C, P>>>(
    value: Json,
    outcomes: F,
    result: Result<ToolExecutionInterceptOutcome<C, P>, FlowError>,
    outcome: Result<JsToolOutcome<C, P>, Seq<char>>,
)
    requires
        call_ensures(tool_exec_intercept_reply::<C, P, F>, (value, &outcomes), result),
        is_read_as(outcomes, value@, outcome),
    ensures
        match outcome {
            Err(words) => result is Err && error_says(
                result->Err_0,
                "invalid JS tool execution intercept outcome: "@ + words,
            ),
            Ok(answer) => result is Ok && {
                let given = result->Ok_0;
                &&& given.result == answer.result
                &&& given.pending_marks@.len() == answer.pending_marks@.len()
                &&& forall|i: int|
                    #![trigger given.pending_marks@[i]]
                    #![trigger answer.pending_marks@[i]]
                    0 <= i < answer.pending_marks@.len() ==> given.pending_marks@[i].name
                        == answer.pending_marks@[i].name && given.pending_marks@[i].category
                        == answer.pending_marks@[i].category
                        && given.pending_marks@[i].category_profile
                        == answer.pending_marks@[i].category_profile && given.pending_marks@[i].data
                        == answer.pending_marks@[i].data && given.pending_marks@[i].metadata
                        == answer.pending_marks@[i].metadata
            },
        },
{
}

/// Each pending mark has, in either form, the name, the category, the category profile, the data
/// and the metadata of the mark at its place.
pub proof fn marks_keep_their_fields<C, P>(
    js: Vec<JsPendingMarkSpec<C, P>>,
    marks: Vec<PendingMarkSpec<C, P>>,
    to_runtime: Vec<PendingMarkSpec<C, P>>,
    to_js: Vec<JsPendingMarkSpec<C, P>>,
    i: int,
)
    requires
        call_ensures(pending_marks::<C, P>, (js,), to_runtime),
        call_ensures(js_pending_marks::<C, P>, (marks,), to_js),
    ensures
        to_runtime@.len() == js@.len(),
        to_js@.len() == marks@.len(),
        0 <= i < js@.len() ==> to_runtime@[i].name == js@[i].name && to_runtime@[i].category
            == js@[i].category && to_runtime@[i].category_profile == js@[i].category_profile
            && to_runtime@[i].data == js@[i].data && to_runtime@[i].metadata == js@[i].metadata,
        0 <= i < marks@.len() ==> to_js@[i].name == marks@[i].name && to_js@[i].category
            == marks@[i].category && to_js@[i].category_profile == marks@[i].category_profile
            && to_js@[i].data == marks@[i].data && to_js@[i].metadata == marks@[i].metadata,
{
}

/// A mark keeps its name, category, category profile, data and metadata in the other form.
pub proof fn mark_keeps_its_fields<C, P>(
    js: JsPendingMarkSpec<C, P>,
    mark: PendingMarkSpec<C, P>,
    to_runtime: PendingMarkSpec<C, P>,
    to_js: JsPendingMarkSpec<C, P>,
)
    requires
        call_ensures(
            <PendingMarkSpec<C, P> as From<JsPendingMarkSpec<C, P>>>::from,
            (js,),
            to_runtime,
        ),
        call_ensures(
            <JsPendingMarkSpec<C, P> as From<PendingMarkSpec<C, P>>>::from,
            (mark,),
            to_js,
        ),
    ensures
        to_runtime.name == js.name,
        to_runtime.category == js.category,
        to_runtime.category_profile == js.category_profile,
        to_runtime.data == js.data,
        to_runtime.metadata == js.metadata,
        to_js.name == mark.name,
        to_js.category == mark.category,
        to_js.category_profile == mark.category_profile,
        to_js.data == mark.data,
        to_js.metadata == mark.metadata,
{
}

/// The request that is handed to `next` is what its JSON form is read as.
pub proof fn next_gets_the_request<R: JsonForm<LlmRequest>>(
    value: Json,
    requests: R,
    result: Result<LlmRequest, FlowError>,
    outcome: Result<LlmRequest, Seq<char>>,
)
    requires
        call_ensures(next_request::<R>, (value, &requests), result),
        is_read_as(requests, value@, outcome),
    ensures
        match outcome {
            Ok(read) => result == Ok::<LlmRequest, FlowError>(read),
            Err(words) => result is Err && error_says(
                result->Err_0,
                "invalid LlmRequest from JS next: "@ + words,
            ),
        },
{
}

/// A stream intercept that answers with a list gives its items in order, and any other value alone.
pub proof fn stream_is_split(result: Json, chunks: Vec<Json>)
    requires
        call_ensures(stream_chunks, (result,), chunks),
    ensures
        match result@ {
            JsonView::Array(items) => chunks@.len() == items.len() && forall|i: int|
                0 <= i < items.len() ==> (#[trigger] chunks@[i])@ == items[i],
            value => chunks@.len() == 1 && chunks@[0]@ == value,
        },
{
    let views = crate::json::item_views(chunks@);
    assert(views.len() == chunks@.len());
    assert forall|i: int| 0 <= i < chunks@.len() implies views[i] == (#[trigger] chunks@[i])@ by {}
}

/// One more item of a stream is one more chunk at its end, and an error is that error.
pub proof fn item_is_taken<E>(chunks: Seq<Json>, chunk: Json, error: E)
    ensures
        with_item(chunks, Ok::<Json, E>(chunk)) == Ok::<Seq<Json>, E>(chunks + seq![chunk]),
        with_item(chunks, Err::<Json, E>(error)) == Err::<Seq<Json>, E>(error),
{
    assert(chunks + seq![chunk] =~= chunks.push(chunk));
}

/// Taking one more item appends a chunk, and an error leaves the chunks as they are.
pub proof fn chunk_is_collected<E>(
    chunks: &mut Vec<Json>,
    item: Result<Json, E>,
    result: Result<(), E>,
)
    requires
        call_ensures(collect_chunk::<E>, (chunks, item), result),
    ensures
        match item {
            Ok(chunk) => result is Ok && final(chunks)@ == old(chunks)@ + seq![chunk],
            Err(error) => result == Err::<(), E>(error) && final(chunks)@ == old(chunks)@,
        },
{
}

} // verus!
