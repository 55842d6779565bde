//! What becomes of the reply of a JavaScript callback that intercepts a call.
use vstd::prelude::*;

use crate::callable::{answers, reply_result};
use crate::flow::{flow_view, FlowError};
use crate::json::{array_view, item_views, object3, Json, JsonView};
use crate::marks::{pending_marks, runtime_marks, JsPendingMarkSpec, PendingMarkSpec};
use crate::middleware::{read_result, reads, JsReply, MiddlewareCallbackResult};
use crate::request::LlmRequest;
use crate::serial::{json_or_null, option_written, written_or_null, JsonForm};

verus! {

/// What a request intercept answers: with annotations `A`, marks with categories `C` and profiles
/// `P`, and optimization contributions `O`.
#[derive(Debug)]
pub struct JsRequestOutcome<A, C, P, O> {
    pub request: LlmRequest,
    pub annotated: Option<A>,
    pub pending_marks: Vec<JsPendingMarkSpec<C, P>>,
    pub optimization_contributions: Vec<O>,
}

/// The outcome of a request intercept in the runtime.
#[derive(Debug)]
pub struct LlmRequestInterceptOutcome<A, C, P, O> {
    pub request: LlmRequest,
    pub annotated_request: Option<A>,
    pub pending_marks: Vec<PendingMarkSpec<C, P>>,
    pub optimization_contributions: Vec<O>,
}

/// What a tool execution intercept answers.
#[derive(Debug)]
pub struct JsToolOutcome<C, P> {
    pub result: Json,
    pub pending_marks: Vec<JsPendingMarkSpec<C, P>>,
}

/// The outcome of a tool execution intercept in the runtime.
#[derive(Debug)]
pub struct ToolExecutionInterceptOutcome<C, P> {
    pub result: Json,
    pub pending_marks: Vec<PendingMarkSpec<C, P>>,
}

/// Whether an outcome holds what the answer does.
pub open spec fn same_request_outcome<A, C, P, O>(
    answer: JsRequestOutcome<A, C, P, O>,
    outcome: LlmRequestInterceptOutcome<A, C, P, O>,
) -> bool {
    &&& outcome.request == answer.request
    &&& outcome.annotated_request == answer.annotated
    &&& outcome.pending_marks@ == runtime_marks(answer.pending_marks@)
    &&& outcome.optimization_contributions == answer.optimization_contributions
}

/// Whether an outcome holds what the answer does.
pub open spec fn same_tool_outcome<C, P>(
    answer: JsToolOutcome<C, P>,
    outcome: ToolExecutionInterceptOutcome<C, P>,
) -> bool {
    &&& outcome.result == answer.result
    &&& outcome.pending_marks@ == runtime_marks(answer.pending_marks@)
}

/// The argument of a request intercept: the name of the model, the request, and its annotated
/// form.
pub fn llm_request_intercept_argument<A, R: JsonForm<LlmRequest>, F: JsonForm<A>>(
    name: &str,
    request: &LlmRequest,
    annotated: &Option<A>,
    requests: &R,
    annotations: &F,
) -> (argument: Json)
    ensures
        exists|request_json: JsonView, annotated_json: JsonView| #[trigger]
            written_or_null(*requests, *request, request_json) && #[trigger] option_written(
                *annotations,
                *annotated,
                annotated_json,
            ) && argument@ == JsonView::Object(
                seq![
                    ("name"@, JsonView::String(name@)),
                    ("request"@, request_json),
                    ("annotated"@, annotated_json),
                ],
            ),
{
    let request_json: Json = json_or_null(request, requests);
    let annotated_json: Json = match annotated {
        Some(annotated) => json_or_null(annotated, annotations),
        None => Json::Null,
    };
    let name_json: Json = Json::String(name.to_owned());
    assert(name_json@ == JsonView::String(name@));
    assert(written_or_null(*requests, *request, request_json@));
    assert(option_written(*annotations, *annotated, annotated_json@));
    object3("name", name_json, "request", request_json, "annotated", annotated_json)
}

/// Whether `result` is what comes of reading the answer of a request intercept.
pub open spec fn reads_request_outcome<A, C, P, O, F: JsonForm<JsRequestOutcome<A, C, P, O>>>(
    outcomes: F,
    value: Json,
    result: Result<LlmRequestInterceptOutcome<A, C, P, O>, FlowError>,
) -> bool {
    exists|answer: Result<JsRequestOutcome<A, C, P, O>, FlowError>| #[trigger]
        reads(outcomes, value, "invalid JS LLM request intercept outcome: "@, answer)
            && match answer {
            Err(error) => result is Err && result->Err_0@ == error@,
            Ok(answer) => result is Ok && same_request_outcome(answer, result->Ok_0),
        }
}

/// The outcome of a request intercept
/// `({ name, request, annotated }) => { request, annotated?, pendingMarks?,
/// optimizationContributions? }`.
pub fn llm_request_intercept_reply<
    A,
    C,
    P,
    O,
    S: JsonForm<MiddlewareCallbackResult>,
    F: JsonForm<JsRequestOutcome<A, C, P, O>>,
>(reply: JsReply, form: &S, outcomes: &F) -> (result: Result<
    LlmRequestInterceptOutcome<A, C, P, O>,
    FlowError,
>)
    ensures
        exists|answer: Result<Json, FlowError>| #[trigger]
            answers(
                *form,
                reply,
                "failed to queue JS LLM request intercept callback: "@,
                "JS LLM request intercept callback failed"@,
                flow_view(answer),
            ) && match answer {
                Err(error) => result is Err && result->Err_0@ == error@,
                Ok(value) => reads_request_outcome(*outcomes, value, result),
            },
{
    let answer: Result<Json, FlowError> = reply_result(
        reply,
        "failed to queue JS LLM request intercept callback: ",
        "JS LLM request intercept callback failed",
        form,
    );
    assert(answers(
        *form,
        reply,
        "failed to queue JS LLM request intercept callback: "@,
        "JS LLM request intercept callback failed"@,
        flow_view(answer),
    ));
    match answer {
        Err(error) => Err(error),
        Ok(value) => {
            let read: Result<JsRequestOutcome<A, C, P, O>, FlowError> = read_result(
                value,
                "invalid JS LLM request intercept outcome: ",
                outcomes,
            );
            assert(reads(*outcomes, value, "invalid JS LLM request intercept outcome: "@, read));
            match read {
                Err(error) => Err(error),
                Ok(outcome) => Ok(
                    LlmRequestInterceptOutcome {
                        request: outcome.request,
                        annotated_request: outcome.annotated,
                        pending_marks: pending_marks(outcome.pending_marks),
                        optimization_contributions: outcome.optimization_contributions,
                    },
                ),
            }
        },
    }
}

/// The outcome of a tool execution intercept `(args, next) => { result, pendingMarks? }`.
pub fn tool_exec_intercept_reply<C, P, F: JsonForm<JsToolOutcome<C, P>>>(
    value: Json,
    outcomes: &F,
) -> (result: Result<ToolExecutionInterceptOutcome<C, P>, FlowError>)
    ensures
        exists|answer: Result<JsToolOutcome<C, P>, FlowError>| #[trigger]
            reads(*outcomes, value, "invalid JS tool execution intercept outcome: "@, answer)
                && match answer {
                Err(error) => result is Err && result->Err_0@ == error@,
                Ok(answer) => result is Ok && same_tool_outcome(answer, result->Ok_0),
            },
{
    let read: Result<JsToolOutcome<C, P>, FlowError> = read_result(
        value,
        "invalid JS tool execution intercept outcome: ",
        outcomes,
    );
    assert(reads(*outcomes, value, "invalid JS tool execution intercept outcome: "@, read));
    match read {
        Err(error) => Err(error),
        Ok(outcome) => Ok(
            ToolExecutionInterceptOutcome {
                result: outcome.result,
                pending_marks: pending_marks(outcome.pending_marks),
            },
        ),
    }
}

/// The request that JavaScript hands to `next`.
pub fn next_request<R: JsonForm<LlmRequest>>(value: Json, requests: &R) -> (result: Result<
    LlmRequest,
    FlowError,
>)
    ensures
        reads(*requests, value, "invalid LlmRequest from JS next: "@, result),
{
    read_result(value, "invalid LlmRequest from JS next: ", requests)
}

/// The chunks of a stream after one more item, or the error that ends it.
pub open spec fn with_item<E>(chunks: Seq<Json>, item: Result<Json, E>) -> Result<Seq<Json>, E> {
    match item {
        Ok(chunk) => Ok(chunks.push(chunk)),
        Err(error) => Err(error),
    }
}

/// The chunks of a stream after the given items, taken one by one up to an error.
pub open spec fn with_items<E>(chunks: Seq<Json>, items: Seq<Result<Json, E>>) -> Result<
    Seq<Json>,
    E,
>
    decreases items.len(),
{
    if items.len() == 0 {
        Ok(chunks)
    } else {
        match with_item(chunks, items[0]) {
            Ok(more) => with_items(more, items.skip(1)),
            Err(error) => Err(error),
        }
    }
}

/// What a whole stream gives: its chunks, or the error that ended it.
pub open spec fn collected<E>(items: Seq<Result<Json, E>>) -> Result<Seq<Json>, E> {
    with_items(Seq::empty(), items)
}

/// Whether the item at `i` is the first error of a stream.
pub open spec fn is_first_error<E>(items: Seq<Result<Json, E>>, i: int) -> bool {
    &&& 0 <= i < items.len()
    &&& items[i] is Err
    &&& forall|j: int| 0 <= j < i ==> (#[trigger] items[j]) is Ok
}

/// Items without an error are appended in order, and the first error is what comes of the others.
proof fn lemma_with_items<E>(chunks: Seq<Json>, items: Seq<Result<Json, E>>)
    ensures
        (forall|i: int| 0 <= i < items.len() ==> (#[trigger] items[i]) is Ok) ==> with_items(
            chunks,
            items,
        ) == Ok::<Seq<Json>, E>(chunks + Seq::new(items.len(), |i: int| items[i]->Ok_0)),
        forall|i: int| #[trigger]
            is_first_error(items, i) ==> with_items(chunks, items) == Err::<Seq<Json>, E>(
                items[i]->Err_0,
            ),
    decreases items.len(),
{
    let values = Seq::new(items.len(), |i: int| items[i]->Ok_0);
    if items.len() == 0 {
        assert(chunks + values =~= chunks);
    } else if items[0] is Ok {
        let more = chunks.push(items[0]->Ok_0);
        let rest = items.skip(1);
        lemma_with_items(more, rest);
        if forall|i: int| 0 <= i < items.len() ==> (#[trigger] items[i]) is Ok {
            assert forall|i: int| 0 <= i < rest.len() implies (#[trigger] rest[i]) is Ok by {
                assert(rest[i] == items[i + 1]);
            }
            assert(more + Seq::new(rest.len(), |i: int| rest[i]->Ok_0) =~= chunks + values);
        }
        assert forall|i: int| #[trigger] is_first_error(items, i) implies with_items(chunks, items)
            == Err::<Seq<Json>, E>(items[i]->Err_0) by {
            assert forall|j: int| 0 <= j < i - 1 implies (#[trigger] rest[j]) is Ok by {
                assert(rest[j] == items[j + 1]);
            }
            assert(is_first_error(rest, i - 1));
        }
    } else {
        assert forall|i: int| #[trigger] is_first_error(items, i) implies i == 0 by {
            if i > 0 {
                assert(items[0] is Ok);
            }
        }
    }
}

/// A stream without an error gives exactly its chunks in order; any other gives its first error.
pub proof fn stream_is_collected_in_order<E>(items: Seq<Result<Json, E>>)
    ensures
        (forall|i: int| 0 <= i < items.len() ==> (#[trigger] items[i]) is Ok) ==> collected(items)
            == Ok::<Seq<Json>, E>(Seq::new(items.len(), |i: int| items[i]->Ok_0)),
        forall|i: int| #[trigger]
            is_first_error(items, i) ==> collected(items) == Err::<Seq<Json>, E>(items[i]->Err_0),
{
    lemma_with_items(Seq::empty(), items);
    let values = Seq::new(items.len(), |i: int| items[i]->Ok_0);
    assert(Seq::empty() + values =~= values);
}

/// Takes one more item of a stream. An error ends the stream, and the chunks stay as they are.
pub fn collect_chunk<E>(chunks: &mut Vec<Json>, item: Result<Json, E>) -> (result: Result<(), E>)
    ensures
        match with_item(old(chunks)@, item) {
            Ok(more) => result is Ok && final(chunks)@ == more,
            Err(error) => result == Err::<(), E>(error) && final(chunks)@ == old(chunks)@,
        },
{
    match item {
        Ok(chunk) => {
            chunks.push(chunk);
            Ok(())
        },
        Err(error) => Err(error),
    }
}

/// The chunks of a stream: the items of an array, or any other value alone.
pub open spec fn chunks_of(result: JsonView) -> Seq<JsonView> {
    match result {
        JsonView::Array(items) => items,
        value => seq![value],
    }
}

/// The chunks that a stream intercept `(request, next) => result` answers.
pub fn stream_chunks(result: Json) -> (chunks: Vec<Json>)
    ensures
        item_views(chunks@) == chunks_of(result@),
{
    match result {
        Json::Array(items) => {
            proof {
                array_view(items);
            }
            items
        },
        value => {
            let mut chunks: Vec<Json> = Vec::new();
            chunks.push(value);
            assert(item_views(chunks@) =~= chunks_of(value@));
            chunks
        },
    }
}

/// An intercept that answers with the chunks that it got from `next` leaves the stream as it is.
pub proof fn stream_passes_through(chunks: Seq<JsonView>)
    ensures
        chunks_of(JsonView::Array(chunks)) == chunks,
{
}

} // verus!
