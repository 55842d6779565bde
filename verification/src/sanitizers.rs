//! What becomes of the reply of a JavaScript callback that sanitizes a request or a response.
use vstd::prelude::*;

use crate::callable::answers_or_falls_back;
use crate::flow::{flow_view, FlowError};
use crate::json::{object2, option_view, Json, JsonView};
use crate::middleware::{
    receives, recorded_json, recv_middleware_json_or_value, recv_middleware_json_result,
    report_views, JsReply, MiddlewareCallbackResult, Recorded, Report, ReportView,
};
use crate::request::{request_view, ContextView, LlmRequest, LlmSanitizeContext, RequestView};
use crate::serial::{json_or_null, written_or_null, JsonForm};
use crate::text::concat2;

verus! {

/// A request and the errors to log, as mathematical values.
pub open spec fn recorded_request(recorded: Recorded<LlmRequest>) -> (
    RequestView,
    Seq<ReportView>,
) {
    (recorded.value@, report_views(recorded.errors@))
}

/// What an answer gives when it is read as a request: that request, or the one that was there,
/// with one more error.
pub open spec fn read_or_kept(
    parsed: Result<LlmRequest, String>,
    errors: Seq<ReportView>,
    request: RequestView,
) -> (RequestView, Seq<ReportView>) {
    match parsed {
        Ok(parsed) => (parsed@, errors),
        Err(text) => (
            request,
            errors.push(
                ReportView::Message(
                    "nemo_relay: JS LLM sanitize request callback failed: failed to deserialize LlmRequest: "@
                        + text@,
                ),
            ),
        ),
    }
}

/// Whether `recorded` is what comes of reading an answer as a request.
pub open spec fn reads_request<R: JsonForm<LlmRequest>>(
    requests: R,
    answer: Recorded<Json>,
    request: RequestView,
    recorded: (RequestView, Seq<ReportView>),
) -> bool {
    exists|parsed: Result<LlmRequest, String>| #[trigger]
        call_ensures(R::from_value, (&requests, answer.value), parsed) && recorded == read_or_kept(
            parsed,
            report_views(answer.errors@),
            request,
        )
}

/// Whether an answer is that of the callback, or the JSON form of the request where it failed.
pub open spec fn answers_request<
    S: JsonForm<MiddlewareCallbackResult>,
    R: JsonForm<LlmRequest>,
>(
    form: S,
    requests: R,
    reply: JsReply,
    request: LlmRequest,
    answer: Recorded<Json>,
) -> bool {
    exists|fallback: JsonView| #[trigger]
        written_or_null(requests, request, fallback) && answers_or_falls_back(
            form,
            reply,
            "nemo_relay: failed to queue JS LLM sanitize request callback: "@,
            "nemo_relay: JS LLM sanitize request callback failed"@,
            fallback,
            recorded_json(answer),
        )
}

/// Whether `recorded` is what comes of the reply of a request sanitizer.
pub open spec fn request_sanitizer_gives<
    S: JsonForm<MiddlewareCallbackResult>,
    R: JsonForm<LlmRequest>,
>(
    form: S,
    requests: R,
    reply: JsReply,
    request: LlmRequest,
    recorded: (RequestView, Seq<ReportView>),
) -> bool {
    match reply {
        JsReply::NotQueued(status) => recorded == (
            request@,
            seq![
                ReportView::Message(
                    "nemo_relay: failed to queue JS LLM sanitize request callback: "@ + status@,
                ),
            ],
        ),
        JsReply::Queued(_) => exists|answer: Recorded<Json>| #[trigger]
            answers_request(form, requests, reply, request, answer) && reads_request(
                requests,
                answer,
                request@,
                recorded,
            ),
    }
}

/// Whether a request comes back from its JSON form.
pub open spec fn comes_back<R: JsonForm<LlmRequest>>(requests: R, request: LlmRequest) -> bool {
    forall|json: Json, parsed: Result<LlmRequest, String>|
        written_or_null(requests, request, json@) && #[trigger] call_ensures(
            R::from_value,
            (&requests, json),
            parsed,
        ) ==> parsed is Ok && parsed->Ok_0@ == request@
}

/// A request sanitizer that failed leaves the request as it was, if the request comes back from
/// its JSON form.
pub proof fn failed_sanitizer_keeps_request<
    S: JsonForm<MiddlewareCallbackResult>,
    R: JsonForm<LlmRequest>,
>(
    form: S,
    requests: R,
    reply: JsReply,
    request: LlmRequest,
    recorded: (RequestView, Seq<ReportView>),
)
    requires
        request_sanitizer_gives(form, requests, reply, request, recorded),
        comes_back(requests, request),
        recorded.1.len() > 0,
    ensures
        recorded.0 == request@,
{
    match reply {
        JsReply::NotQueued(_) => {},
        JsReply::Queued(received) => {
            let answer = choose|answer: Recorded<Json>| #[trigger]
                answers_request(form, requests, reply, request, answer) && reads_request(
                    requests,
                    answer,
                    request@,
                    recorded,
                );
            let parsed = choose|parsed: Result<LlmRequest, String>| #[trigger]
                call_ensures(R::from_value, (&requests, answer.value), parsed) && recorded
                    == read_or_kept(parsed, report_views(answer.errors@), request@);
            if parsed is Ok {
                let fallback = choose|fallback: JsonView| #[trigger]
                    written_or_null(requests, request, fallback) && answers_or_falls_back(
                        form,
                        reply,
                        "nemo_relay: failed to queue JS LLM sanitize request callback: "@,
                        "nemo_relay: JS LLM sanitize request callback failed"@,
                        fallback,
                        recorded_json(answer),
                    );
                assert(answer.value@ == fallback);
            }
        },
    }
}

/// A request, from a sanitizer `(request) => request`. Where it fails, the request stays.
pub fn llm_sanitize_request_reply<
    S: JsonForm<MiddlewareCallbackResult>,
    R: JsonForm<LlmRequest>,
>(reply: JsReply, request: LlmRequest, form: &S, requests: &R) -> (recorded: Recorded<LlmRequest>)
    ensures
        request_sanitizer_gives(*form, *requests, reply, request, recorded_request(recorded)),
{
    match reply {
        JsReply::NotQueued(status) => Recorded::with(
            request,
            Report::Message(
                concat2(
                    "nemo_relay: failed to queue JS LLM sanitize request callback: ",
                    status.as_str(),
                ),
            ),
        ),
        JsReply::Queued(received) => {
            let fallback: Json = json_or_null(&request, requests);
            let answer: Recorded<Json> = recv_middleware_json_or_value(
                received,
                "nemo_relay: JS LLM sanitize request callback failed",
                fallback,
                form,
            );
            assert(answers_request(*form, *requests, reply, request, answer)) by {
                assert(written_or_null(*requests, request, fallback@));
            }
            let ghost given = answer;
            let mut errors: Vec<Report> = answer.errors;
            let parsed: Result<LlmRequest, String> = requests.from_value(answer.value);
            match parsed {
                Ok(value) => {
                    let recorded: Recorded<LlmRequest> = Recorded { value, errors };
                    assert(reads_request(*requests, given, request@, recorded_request(recorded)));
                    recorded
                },
                Err(text) => {
                    let error: Report = Report::Message(
                        concat2(
                            "nemo_relay: JS LLM sanitize request callback failed: failed to deserialize LlmRequest: ",
                            text.as_str(),
                        ),
                    );
                    errors.push(error);
                    assert(report_views(errors@) =~= report_views(given.errors@).push(error@));
                    let recorded: Recorded<LlmRequest> = Recorded { value: request, errors };
                    assert(reads_request(*requests, given, request@, recorded_request(recorded)));
                    recorded
                },
            }
        },
    }
}

/// A string, or null where there is none.
pub open spec fn text_or_null(text: Option<Seq<char>>) -> JsonView {
    match text {
        Some(text) => JsonView::String(text),
        None => JsonView::Null,
    }
}

/// The name of a codec, if there is one.
pub open spec fn codec_name(context: ContextView) -> Option<Seq<char>> {
    match context.codec {
        Some(codec) => Some(codec.name),
        None => None,
    }
}

/// The argument that tells a callback in what setting a payload is sanitized.
pub fn sanitize_context_argument(context: &LlmSanitizeContext) -> (argument: Json)
    ensures
        argument@ == JsonView::Object(
            seq![
                ("has_active_codec"@, JsonView::Bool(context@.has_active_codec)),
                ("codec_name"@, text_or_null(codec_name(context@))),
            ],
        ),
{
    let name: Json = match &context.codec {
        Some(codec) => Json::String(codec.name.clone()),
        None => Json::Null,
    };
    assert(name@ == text_or_null(codec_name(context@)));
    let flag: Json = Json::Bool(context.has_active_codec);
    assert(flag@ == JsonView::Bool(context@.has_active_codec));
    object2("has_active_codec", flag, "codec_name", name)
}

/// Whether `result` is what comes of the reply of a sanitizer that may leave the payload out:
/// its value, unless it failed or is null.
pub open spec fn answers_unless_null<S: JsonForm<MiddlewareCallbackResult>>(
    form: S,
    reply: JsReply,
    prefix: Seq<char>,
    result: Option<JsonView>,
) -> bool {
    match reply {
        JsReply::NotQueued(_) => result is None,
        JsReply::Queued(received) => exists|outcome: Result<JsonView, Seq<char>>| #[trigger]
            receives(form, received, prefix, outcome) && result == match outcome {
                Err(_) => None,
                Ok(value) => if value is Null {
                    None
                } else {
                    Some(value)
                },
            },
    }
}

/// The value of a reply, unless it failed or is null.
fn reply_unless_null<S: JsonForm<MiddlewareCallbackResult>>(
    reply: JsReply,
    error_prefix: &str,
    form: &S,
) -> (result: Option<Json>)
    ensures
        answers_unless_null(*form, reply, error_prefix@, option_view(result)),
{
    match reply {
        JsReply::NotQueued(_) => None,
        JsReply::Queued(received) => {
            let answer: Result<Json, FlowError> = recv_middleware_json_result(
                received,
                error_prefix,
                form,
            );
            assert(receives(*form, received, error_prefix@, flow_view(answer)));
            match answer {
                Err(_) => None,
                Ok(Json::Null) => None,
                Ok(value) => Some(value),
            }
        },
    }
}

/// A response, from a sanitizer `(response, context) => response | null`. It is left out of the
/// event where the callback fails or answers null.
pub fn contextual_llm_response_reply<S: JsonForm<MiddlewareCallbackResult>>(
    reply: JsReply,
    form: &S,
) -> (result: Option<Json>)
    ensures
        answers_unless_null(
            *form,
            reply,
            "nemo_relay: JS contextual LLM response callback failed"@,
            option_view(result),
        ),
{
    reply_unless_null(reply, "nemo_relay: JS contextual LLM response callback failed", form)
}

/// Whether `result` is the request that an answer is read as, if it is one.
pub open spec fn reads_if_request<R: JsonForm<LlmRequest>>(
    requests: R,
    answer: Option<Json>,
    result: Option<RequestView>,
) -> bool {
    match answer {
        None => result is None,
        Some(value) => exists|parsed: Result<LlmRequest, String>| #[trigger]
            call_ensures(R::from_value, (&requests, value), parsed) && result == match parsed {
                Ok(request) => Some(request@),
                Err(_) => None,
            },
    }
}

/// A request, from a sanitizer `(request, context) => request | null`. It is left out of the
/// event where the callback fails, or answers null or what is not a request.
pub fn contextual_llm_request_reply<
    S: JsonForm<MiddlewareCallbackResult>,
    R: JsonForm<LlmRequest>,
>(reply: JsReply, form: &S, requests: &R) -> (result: Option<LlmRequest>)
    ensures
        exists|answer: Option<Json>| #[trigger]
            answers_unless_null(
                *form,
                reply,
                "nemo_relay: JS contextual LLM request callback failed"@,
                option_view(answer),
            ) && reads_if_request(*requests, answer, request_view(result)),
{
    let answer: Option<Json> = reply_unless_null(
        reply,
        "nemo_relay: JS contextual LLM request callback failed",
        form,
    );
    assert(answers_unless_null(
        *form,
        reply,
        "nemo_relay: JS contextual LLM request callback failed"@,
        option_view(answer),
    ));
    match answer {
        None => None,
        Some(value) => match requests.from_value(value) {
            Ok(request) => Some(request),
            Err(_) => None,
        },
    }
}

} // verus!
