//! What becomes of the reply of a codec that is written in JavaScript.
use vstd::prelude::*;

use crate::flow::FlowError;
use crate::json::{object2, Json, JsonView};
use crate::middleware::{
    read_result, reads, receives_value, recv_json_result, recv_llm_request_result, JsReply,
};
use crate::request::LlmRequest;
use crate::serial::{json_or_null, written_or_null, JsonForm};
use crate::text::concat2;

verus! {

/// Whether `result` is what comes of the reply of a codec.
pub open spec fn decodes<T, S: JsonForm<T>>(
    form: S,
    reply: JsReply,
    not_queued: Seq<char>,
    lost: Seq<char>,
    invalid: Seq<char>,
    result: Result<T, FlowError>,
) -> bool {
    match reply {
        JsReply::NotQueued(status) => result is Err && result->Err_0@ == not_queued + status@,
        JsReply::Queued(received) => receives_value(form, received, lost, invalid, result),
    }
}

/// The annotated request, from a codec function `(request) => annotated`.
pub fn decode_reply<A, S: JsonForm<A>>(reply: JsReply, annotations: &S) -> (result: Result<
    A,
    FlowError,
>)
    ensures
        decodes(
            *annotations,
            reply,
            "failed to queue JS codec decode callback: "@,
            "JS codec decode callback failed"@ + ": "@,
            "JS codec decode callback: failed to deserialize AnnotatedLlmRequest: "@,
            result,
        ),
{
    match reply {
        JsReply::NotQueued(status) => Err(
            FlowError::Internal(
                concat2("failed to queue JS codec decode callback: ", status.as_str()),
            ),
        ),
        JsReply::Queued(received) => match recv_json_result(
            received,
            "JS codec decode callback failed",
        ) {
            Err(error) => Err(error),
            Ok(value) => read_result(
                value,
                "JS codec decode callback: failed to deserialize AnnotatedLlmRequest: ",
                annotations,
            ),
        },
    }
}

/// The argument of a codec function `({ annotated, original }) => request`.
pub fn encode_argument<A, F: JsonForm<A>, R: JsonForm<LlmRequest>>(
    annotated: &A,
    original: &LlmRequest,
    annotations: &F,
    requests: &R,
) -> (argument: Json)
    ensures
        exists|annotated_json: JsonView, original_json: JsonView| #[trigger]
            written_or_null(*annotations, *annotated, annotated_json) && #[trigger] written_or_null(
                *requests,
                *original,
                original_json,
            ) && argument@ == JsonView::Object(
                seq![("annotated"@, annotated_json), ("original"@, original_json)],
            ),
{
    let annotated_json: Json = json_or_null(annotated, annotations);
    let original_json: Json = json_or_null(original, requests);
    assert(written_or_null(*annotations, *annotated, annotated_json@));
    assert(written_or_null(*requests, *original, original_json@));
    object2("annotated", annotated_json, "original", original_json)
}

/// The request, from a codec function `({ annotated, original }) => request`.
pub fn encode_reply<R: JsonForm<LlmRequest>>(reply: JsReply, requests: &R) -> (result: Result<
    LlmRequest,
    FlowError,
>)
    ensures
        decodes(
            *requests,
            reply,
            "failed to queue JS codec encode callback: "@,
            "JS codec encode callback failed"@ + ": "@,
            "JS codec encode callback failed"@ + ": failed to deserialize LlmRequest: "@,
            result,
        ),
{
    match reply {
        JsReply::NotQueued(status) => Err(
            FlowError::Internal(
                concat2("failed to queue JS codec encode callback: ", status.as_str()),
            ),
        ),
        JsReply::Queued(received) => recv_llm_request_result(
            received,
            "JS codec encode callback failed",
            requests,
        ),
    }
}

/// The annotated response, from a codec function `(response) => annotated`.
pub fn decode_response_reply<A, S: JsonForm<A>>(reply: JsReply, annotations: &S) -> (result: Result<
    A,
    FlowError,
>)
    ensures
        match reply {
            JsReply::NotQueued(status) => result is Err && result->Err_0@
                == "decode_response call failed: "@ + status@,
            JsReply::Queued(Err(_)) => result is Err && result->Err_0@
                == "decode_response callback did not return"@,
            JsReply::Queued(Ok(value)) => reads(
                *annotations,
                value,
                "decode_response returned invalid AnnotatedLlmResponse: "@,
                result,
            ),
        },
{
    match reply {
        JsReply::NotQueued(status) => Err(
            FlowError::Internal(concat2("decode_response call failed: ", status.as_str())),
        ),
        JsReply::Queued(Err(_)) => Err(
            FlowError::Internal("decode_response callback did not return".to_owned()),
        ),
        JsReply::Queued(Ok(value)) => read_result(
            value,
            "decode_response returned invalid AnnotatedLlmResponse: ",
            annotations,
        ),
    }
}

} // verus!
