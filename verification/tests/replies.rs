use relay_middleware::callable::{
    llm_conditional_reply, llm_exec_reply, llm_response_reply, tool_conditional_reply,
    tool_exec_reply, tool_reply, tool_request_intercept_reply,
};
use relay_middleware::config::CodecSetting;
use relay_middleware::events::EventSanitizeFields;
use relay_middleware::flow::FlowError;
use relay_middleware::intercept::{
    collect_chunk, llm_request_intercept_argument, llm_request_intercept_reply, next_request,
    stream_chunks, tool_exec_intercept_reply, JsRequestOutcome, JsToolOutcome,
};
use relay_middleware::js_codec::{
    decode_reply, decode_response_reply, encode_argument, encode_reply,
};
use relay_middleware::js_events::{
    collector_reply, event_sanitizer_arguments, event_sanitizer_reply, finalizer_reply,
    subscriber_payload, subscriber_reply,
};
use relay_middleware::json::{Json, Number};
use relay_middleware::marks::{js_pending_marks, pending_marks, JsPendingMarkSpec, PendingMarkSpec};
use relay_middleware::middleware::{
    open_envelope, recv_llm_request_result, recv_option_string_result, DebugForm, JsReply,
    MiddlewareCallbackResult, Recorded, Report,
};
use relay_middleware::request::{LlmRequest, LlmSanitizeContext};
use relay_middleware::sanitizers::{
    contextual_llm_request_reply, contextual_llm_response_reply, llm_sanitize_request_reply,
    sanitize_context_argument,
};
use relay_middleware::serial::JsonForm;

/// Reads and writes the types of these tests.
struct Forms;

fn text(value: &str) -> Json {
    Json::String(value.to_string())
}

fn object(entries: Vec<(&str, Json)>) -> Json {
    Json::Object(entries.into_iter().map(|(key, value)| (key.to_string(), value)).collect())
}

fn entry(value: &Json, key: &str) -> Option<Json> {
    match value {
        Json::Object(entries) => {
            entries.iter().find(|(name, _)| name == key).map(|(_, value)| value.copy())
        }
        _ => None,
    }
}

fn string(value: Option<Json>) -> String {
    match value {
        Some(Json::String(text)) => text,
        _ => String::new(),
    }
}

impl JsonForm<MiddlewareCallbackResult> for Forms {
    fn to_value(&self, _value: &MiddlewareCallbackResult) -> Result<Json, String> {
        Err("not written".to_string())
    }

    fn from_value(&self, value: Json) -> Result<MiddlewareCallbackResult, String> {
        match entry(&value, "ok") {
            Some(Json::Bool(ok)) => Ok(MiddlewareCallbackResult {
                ok,
                value: entry(&value, "value").unwrap_or(Json::Null),
                error: string(entry(&value, "error")),
            }),
            _ => Err("missing field `ok`".to_string()),
        }
    }
}

impl JsonForm<LlmRequest> for Forms {
    fn to_value(&self, value: &LlmRequest) -> Result<Json, String> {
        Ok(object(vec![("headers", value.headers.copy()), ("content", value.content.copy())]))
    }

    fn from_value(&self, value: Json) -> Result<LlmRequest, String> {
        match (entry(&value, "headers"), entry(&value, "content")) {
            (Some(headers), Some(content)) => Ok(LlmRequest { headers, content }),
            _ => Err("not a request".to_string()),
        }
    }
}

impl JsonForm<String> for Forms {
    fn to_value(&self, value: &String) -> Result<Json, String> {
        if value.is_empty() {
            Err("empty".to_string())
        } else {
            Ok(Json::String(value.clone()))
        }
    }

    fn from_value(&self, value: Json) -> Result<String, String> {
        match value {
            Json::String(text) => Ok(text),
            _ => Err("not a string".to_string()),
        }
    }
}

impl JsonForm<EventSanitizeFields<Json>> for Forms {
    fn to_value(&self, value: &EventSanitizeFields<Json>) -> Result<Json, String> {
        let part = |part: &Option<Json>| part.as_ref().map_or(Json::Null, |part| part.copy());
        Ok(object(vec![
            ("data", part(&value.data)),
            ("profile", part(&value.category_profile)),
            ("metadata", part(&value.metadata)),
        ]))
    }

    fn from_value(&self, value: Json) -> Result<EventSanitizeFields<Json>, String> {
        match value {
            Json::Object(_) => Ok(EventSanitizeFields {
                data: entry(&value, "data"),
                category_profile: entry(&value, "profile"),
                metadata: entry(&value, "metadata"),
            }),
            _ => Err("not fields".to_string()),
        }
    }
}

type Mark = JsPendingMarkSpec<String, String>;

fn mark(name: &str) -> Mark {
    JsPendingMarkSpec {
        name: name.to_string(),
        category: Some("agent".to_string()),
        category_profile: None,
        data: Some(Json::Bool(true)),
        metadata: None,
    }
}

impl JsonForm<JsRequestOutcome<String, String, String, u64>> for Forms {
    fn to_value(
        &self,
        _value: &JsRequestOutcome<String, String, String, u64>,
    ) -> Result<Json, String> {
        Err("not written".to_string())
    }

    fn from_value(
        &self,
        value: Json,
    ) -> Result<JsRequestOutcome<String, String, String, u64>, String> {
        let request: LlmRequest = self.from_value(entry(&value, "request").unwrap_or(Json::Null))?;
        Ok(JsRequestOutcome {
            request,
            annotated: Some("annotated".to_string()),
            pending_marks: vec![mark("one"), mark("two")],
            optimization_contributions: vec![4],
        })
    }
}

impl JsonForm<JsToolOutcome<String, String>> for Forms {
    fn to_value(&self, _value: &JsToolOutcome<String, String>) -> Result<Json, String> {
        Err("not written".to_string())
    }

    fn from_value(&self, value: Json) -> Result<JsToolOutcome<String, String>, String> {
        match entry(&value, "result") {
            Some(result) => Ok(JsToolOutcome { result, pending_marks: vec![mark("one")] }),
            None => Err("missing field `result`".to_string()),
        }
    }
}

impl DebugForm for Forms {
    fn debug(&self, value: &Json) -> String {
        match value {
            Json::Bool(flag) => format!("Bool({})", flag),
            _ => "other".to_string(),
        }
    }
}

fn not_queued() -> JsReply {
    JsReply::NotQueued("Closing".to_string())
}

fn lost() -> JsReply {
    JsReply::Queued(Err("receiving on a closed channel".to_string()))
}

fn returned(value: Json) -> JsReply {
    JsReply::Queued(Ok(value))
}

fn answered(value: Json) -> JsReply {
    returned(object(vec![("ok", Json::Bool(true)), ("value", value)]))
}

fn threw(message: &str) -> JsReply {
    returned(object(vec![("ok", Json::Bool(false)), ("error", text(message))]))
}

fn shown(value: &Json) -> String {
    format!("{:?}", value)
}

fn errors<T>(recorded: &Recorded<T>) -> Vec<String> {
    recorded
        .errors
        .iter()
        .map(|error| match error {
            Report::Message(message) => message.clone(),
            Report::Flow(FlowError::Internal(message)) => format!("flow: {}", message),
        })
        .collect()
}

fn message<T>(result: Result<T, FlowError>) -> String {
    match result {
        Err(FlowError::Internal(message)) => message,
        Ok(_) => panic!("no error"),
    }
}

fn request(content: &str) -> LlmRequest {
    LlmRequest { headers: Json::Null, content: text(content) }
}

fn request_json(content: &str) -> Json {
    object(vec![("headers", Json::Null), ("content", text(content))])
}

#[test]
fn an_envelope_is_opened() {
    let envelope = |ok: bool| {
        Ok(MiddlewareCallbackResult { ok, value: text("v"), error: "boom".to_string() })
    };
    assert_eq!(shown(&open_envelope(envelope(true), "p").unwrap()), shown(&text("v")));
    assert_eq!(message(open_envelope(envelope(false), "p")), "p: boom");
    assert_eq!(
        message(open_envelope(Err("bad".to_string()), "p")),
        "p: invalid middleware callback result: bad"
    );
}

#[test]
fn a_tool_sanitizer_answers_or_keeps_the_arguments() {
    let recorded = tool_reply(answered(text("clean")), text("raw"), &Forms);
    assert_eq!(shown(&recorded.value), shown(&text("clean")));
    assert!(recorded.errors.is_empty());
    for (reply, expected) in [
        (not_queued(), "nemo_relay: failed to queue JS tool callback: Closing"),
        (lost(), "flow: nemo_relay: JS tool callback failed: receiving on a closed channel"),
        (threw("boom"), "flow: nemo_relay: JS tool callback failed: boom"),
        (
            returned(Json::Null),
            "flow: nemo_relay: JS tool callback failed: invalid middleware callback result: missing field `ok`",
        ),
    ] {
        let recorded = tool_reply(reply, text("raw"), &Forms);
        assert_eq!(shown(&recorded.value), shown(&text("raw")));
        assert_eq!(errors(&recorded), vec![expected.to_string()]);
    }
}

#[test]
fn a_response_sanitizer_answers_or_keeps_the_response() {
    let recorded = llm_response_reply(answered(Json::Null), text("raw"), &Forms);
    assert_eq!(shown(&recorded.value), "Null");
    let recorded = llm_response_reply(threw("x"), text("raw"), &Forms);
    assert_eq!(shown(&recorded.value), shown(&text("raw")));
    assert_eq!(errors(&recorded), vec!["flow: nemo_relay: JS LLM response callback failed: x"]);
    let recorded = llm_response_reply(not_queued(), text("raw"), &Forms);
    assert_eq!(
        errors(&recorded),
        vec!["nemo_relay: failed to queue JS LLM response callback: Closing"]
    );
}

#[test]
fn a_tool_request_intercept_may_fail() {
    let result = tool_request_intercept_reply(answered(text("args")), &Forms);
    assert_eq!(shown(&result.unwrap()), shown(&text("args")));
    assert_eq!(
        message(tool_request_intercept_reply(not_queued(), &Forms)),
        "failed to queue JS tool callback: Closing"
    );
    assert_eq!(
        message(tool_request_intercept_reply(threw("no"), &Forms)),
        "JS tool callback failed: no"
    );
}

#[test]
fn a_guardrail_answers_a_string_or_null() {
    assert_eq!(tool_conditional_reply(answered(Json::Null), &Forms, &Forms).unwrap(), None);
    assert_eq!(
        tool_conditional_reply(answered(text("blocked")), &Forms, &Forms).unwrap(),
        Some("blocked".to_string())
    );
    assert_eq!(
        message(tool_conditional_reply(answered(Json::Bool(true)), &Forms, &Forms)),
        "JS tool conditional callback failed: expected string or null, got Bool(true)"
    );
    assert_eq!(
        message(tool_conditional_reply(not_queued(), &Forms, &Forms)),
        "failed to queue JS tool conditional callback: Closing"
    );
    assert_eq!(
        llm_conditional_reply(answered(text("blocked")), &Forms, &Forms).unwrap(),
        Some("blocked".to_string())
    );
    assert_eq!(
        message(llm_conditional_reply(threw("x"), &Forms, &Forms)),
        "JS LLM conditional callback failed: x"
    );
    assert_eq!(
        message(llm_conditional_reply(not_queued(), &Forms, &Forms)),
        "failed to queue JS LLM conditional callback: Closing"
    );
}

#[test]
fn a_plain_answer_is_a_string_or_null() {
    assert_eq!(recv_option_string_result(Ok(Json::Null), "p", &Forms).unwrap(), None);
    assert_eq!(
        recv_option_string_result(Ok(text("s")), "p", &Forms).unwrap(),
        Some("s".to_string())
    );
    assert_eq!(
        message(recv_option_string_result(Ok(Json::Bool(false)), "p", &Forms)),
        "p: expected string or null, got Bool(false)"
    );
    assert_eq!(
        message(recv_option_string_result(Err("closed".to_string()), "p", &Forms)),
        "p: closed"
    );
}

#[test]
fn an_execution_callback_may_fail() {
    assert_eq!(shown(&tool_exec_reply(answered(text("r")), &Forms).unwrap()), shown(&text("r")));
    assert_eq!(
        message(tool_exec_reply(not_queued(), &Forms)),
        "failed to queue JS tool execution callback: Closing"
    );
    assert_eq!(message(tool_exec_reply(lost(), &Forms)), "receiving on a closed channel");
    assert_eq!(
        message(tool_exec_reply(threw("x"), &Forms)),
        "JS tool execution callback failed: x"
    );
    assert_eq!(shown(&llm_exec_reply(answered(text("r")), &Forms).unwrap()), shown(&text("r")));
    assert_eq!(
        message(llm_exec_reply(not_queued(), &Forms)),
        "failed to queue JS LLM execution callback: Closing"
    );
    assert_eq!(message(llm_exec_reply(threw("x"), &Forms)), "JS LLM execution callback failed: x");
}

#[test]
fn a_request_sanitizer_answers_or_keeps_the_request() {
    let recorded =
        llm_sanitize_request_reply(answered(request_json("clean")), request("raw"), &Forms, &Forms);
    assert_eq!(shown(&recorded.value.content), shown(&text("clean")));
    assert!(recorded.errors.is_empty());
    for (reply, expected) in [
        (not_queued(), "nemo_relay: failed to queue JS LLM sanitize request callback: Closing"),
        (threw("x"), "flow: nemo_relay: JS LLM sanitize request callback failed: x"),
        (
            answered(text("nothing")),
            "nemo_relay: JS LLM sanitize request callback failed: failed to deserialize LlmRequest: not a request",
        ),
    ] {
        let recorded = llm_sanitize_request_reply(reply, request("raw"), &Forms, &Forms);
        assert_eq!(shown(&recorded.value.content), shown(&text("raw")));
        assert_eq!(errors(&recorded), vec![expected.to_string()]);
    }
}

struct OneWay;

impl JsonForm<LlmRequest> for OneWay {
    fn to_value(&self, _value: &LlmRequest) -> Result<Json, String> {
        Err("not written".to_string())
    }

    fn from_value(&self, _value: Json) -> Result<LlmRequest, String> {
        Err("not read".to_string())
    }
}

#[test]
fn both_errors_of_a_request_sanitizer_are_logged() {
    let recorded = llm_sanitize_request_reply(threw("x"), request("raw"), &Forms, &OneWay);
    assert_eq!(shown(&recorded.value.content), shown(&text("raw")));
    assert_eq!(
        errors(&recorded),
        vec![
            "flow: nemo_relay: JS LLM sanitize request callback failed: x",
            "nemo_relay: JS LLM sanitize request callback failed: failed to deserialize LlmRequest: not read",
        ]
    );
}

#[test]
fn a_contextual_sanitizer_may_leave_the_payload_out() {
    let kept = contextual_llm_response_reply(answered(text("clean")), &Forms);
    assert_eq!(shown(&kept.unwrap()), shown(&text("clean")));
    for reply in [not_queued(), lost(), threw("x"), answered(Json::Null), returned(Json::Null)] {
        assert!(contextual_llm_response_reply(reply, &Forms).is_none());
    }
    let kept = contextual_llm_request_reply(answered(request_json("clean")), &Forms, &Forms);
    assert_eq!(shown(&kept.unwrap().content), shown(&text("clean")));
    for reply in
        [not_queued(), lost(), threw("x"), answered(Json::Null), answered(Json::Bool(true))]
    {
        assert!(contextual_llm_request_reply(reply, &Forms, &Forms).is_none());
    }
}

#[test]
fn a_contextual_sanitizer_is_told_its_setting() {
    let named = LlmSanitizeContext {
        has_active_codec: true,
        codec: Some(CodecSetting { name: "chat".to_string(), surface: None }),
    };
    assert_eq!(
        shown(&sanitize_context_argument(&named)),
        shown(&object(vec![("has_active_codec", Json::Bool(true)), ("codec_name", text("chat"))]))
    );
    let unnamed = LlmSanitizeContext { has_active_codec: false, codec: None };
    assert_eq!(
        shown(&sanitize_context_argument(&unnamed)),
        shown(&object(vec![("has_active_codec", Json::Bool(false)), ("codec_name", Json::Null)]))
    );
}

#[test]
fn a_request_intercept_is_given_what_it_needs() {
    let argument = llm_request_intercept_argument(
        "model",
        &request("raw"),
        &Some("notes".to_string()),
        &Forms,
        &Forms,
    );
    assert_eq!(
        shown(&argument),
        shown(&object(vec![
            ("name", text("model")),
            ("request", request_json("raw")),
            ("annotated", text("notes")),
        ]))
    );
    for annotated in [None, Some(String::new())] {
        let argument =
            llm_request_intercept_argument("model", &request("raw"), &annotated, &OneWay, &Forms);
        assert_eq!(
            shown(&argument),
            shown(&object(vec![
                ("name", text("model")),
                ("request", Json::Null),
                ("annotated", Json::Null),
            ]))
        );
    }
}

#[test]
fn a_request_intercept_answers_an_outcome() {
    let reply = answered(object(vec![("request", request_json("new"))]));
    let outcome = llm_request_intercept_reply(reply, &Forms, &Forms).unwrap();
    assert_eq!(shown(&outcome.request.content), shown(&text("new")));
    assert_eq!(outcome.annotated_request, Some("annotated".to_string()));
    assert_eq!(outcome.optimization_contributions, vec![4u64]);
    let names: Vec<String> = outcome.pending_marks.iter().map(|mark| mark.name.clone()).collect();
    assert_eq!(names, vec!["one", "two"]);
    assert_eq!(
        message(llm_request_intercept_reply(answered(Json::Null), &Forms, &Forms)),
        "invalid JS LLM request intercept outcome: not a request"
    );
    assert_eq!(
        message(llm_request_intercept_reply(not_queued(), &Forms, &Forms)),
        "failed to queue JS LLM request intercept callback: Closing"
    );
    assert_eq!(
        message(llm_request_intercept_reply(threw("x"), &Forms, &Forms)),
        "JS LLM request intercept callback failed: x"
    );
}

#[test]
fn a_tool_intercept_answers_an_outcome() {
    let outcome =
        tool_exec_intercept_reply(object(vec![("result", text("done"))]), &Forms).unwrap();
    assert_eq!(shown(&outcome.result), shown(&text("done")));
    assert_eq!(outcome.pending_marks[0].name, "one");
    assert_eq!(
        message(tool_exec_intercept_reply(Json::Null, &Forms)),
        "invalid JS tool execution intercept outcome: missing field `result`"
    );
}

#[test]
fn the_next_request_is_read() {
    let next = next_request(request_json("n"), &Forms).unwrap();
    assert_eq!(shown(&next.content), shown(&text("n")));
    assert_eq!(
        message(next_request(Json::Null, &Forms)),
        "invalid LlmRequest from JS next: not a request"
    );
}

#[test]
fn a_stream_is_collected_up_to_an_error() {
    let mut chunks = Vec::new();
    assert_eq!(collect_chunk::<String>(&mut chunks, Ok(text("a"))), Ok(()));
    assert_eq!(collect_chunk(&mut chunks, Err("cut".to_string())), Err("cut".to_string()));
    assert_eq!(chunks.len(), 1);
}

#[test]
fn a_stream_is_collected_in_order() {
    let collect = |items: Vec<Result<Json, String>>| -> Result<Vec<Json>, String> {
        let mut chunks = Vec::new();
        for item in items {
            collect_chunk(&mut chunks, item)?;
        }
        Ok(chunks)
    };
    let chunks = collect(vec![Ok(text("a")), Ok(Json::Null), Ok(text("b"))]).unwrap();
    assert_eq!(format!("{:?}", chunks), format!("{:?}", vec![text("a"), Json::Null, text("b")]));
    assert!(collect(vec![]).unwrap().is_empty());
    let cut = vec![Ok(text("a")), Err("first".to_string()), Ok(text("b")), Err("second".to_string())];
    assert_eq!(collect(cut).unwrap_err(), "first");
}

#[test]
fn an_array_is_a_stream_of_its_items() {
    let items = vec![text("a"), Json::Null, Json::Array(vec![])];
    let array = Json::Array(items.iter().map(|item| item.copy()).collect());
    let chunks = stream_chunks(array);
    assert_eq!(format!("{:?}", chunks), format!("{:?}", items));
    assert!(stream_chunks(Json::Array(vec![])).is_empty());
    for value in [text("a"), Json::Null, object(vec![("a", Json::Null)])] {
        let expected = format!("[{:?}]", value);
        assert_eq!(format!("{:?}", stream_chunks(value)), expected);
    }
}

#[test]
fn a_codec_reads_a_request() {
    let read: Result<String, FlowError> = decode_reply(returned(text("annotated")), &Forms);
    assert_eq!(read.unwrap(), "annotated");
    let decode = |reply: JsReply| {
        let read: Result<String, FlowError> = decode_reply(reply, &Forms);
        message(read)
    };
    assert_eq!(decode(not_queued()), "failed to queue JS codec decode callback: Closing");
    assert_eq!(
        decode(lost()),
        "JS codec decode callback failed: receiving on a closed channel"
    );
    assert_eq!(
        decode(returned(Json::Null)),
        "JS codec decode callback: failed to deserialize AnnotatedLlmRequest: not a string"
    );
}

#[test]
fn a_codec_writes_a_request() {
    let argument = encode_argument(&"notes".to_string(), &request("raw"), &Forms, &Forms);
    assert_eq!(
        shown(&argument),
        shown(&object(vec![("annotated", text("notes")), ("original", request_json("raw"))]))
    );
    let written = encode_reply(returned(request_json("new")), &Forms).unwrap();
    assert_eq!(shown(&written.content), shown(&text("new")));
    assert_eq!(
        message(encode_reply(not_queued(), &Forms)),
        "failed to queue JS codec encode callback: Closing"
    );
    assert_eq!(
        message(encode_reply(lost(), &Forms)),
        "JS codec encode callback failed: receiving on a closed channel"
    );
    assert_eq!(
        message(encode_reply(returned(Json::Null), &Forms)),
        "JS codec encode callback failed: failed to deserialize LlmRequest: not a request"
    );
    assert_eq!(
        message(recv_llm_request_result(Err("gone".to_string()), "p", &Forms)),
        "p: gone"
    );
}

#[test]
fn a_response_codec_reads_a_response() {
    let read: Result<String, FlowError> = decode_response_reply(returned(text("a")), &Forms);
    assert_eq!(read.unwrap(), "a");
    let decode = |reply: JsReply| {
        let read: Result<String, FlowError> = decode_response_reply(reply, &Forms);
        message(read)
    };
    assert_eq!(decode(not_queued()), "decode_response call failed: Closing");
    assert_eq!(decode(lost()), "decode_response callback did not return");
    assert_eq!(
        decode(returned(Json::Null)),
        "decode_response returned invalid AnnotatedLlmResponse: not a string"
    );
}

#[test]
fn a_collector_tells_and_logs_its_error() {
    let recorded = collector_reply(Ok(()));
    assert!(recorded.value.is_ok());
    assert!(recorded.errors.is_empty());
    let recorded = collector_reply(Err("QueueFull".to_string()));
    let expected = "nemo_relay: failed to queue JS collector callback: QueueFull";
    assert_eq!(errors(&recorded), vec![expected]);
    assert_eq!(message(recorded.value), expected);
}

#[test]
fn a_finalizer_answers_or_is_null() {
    let recorded = finalizer_reply(returned(Json::Number(Number::PosInt(3))));
    assert_eq!(shown(&recorded.value), "Number(PosInt(3))");
    assert!(recorded.errors.is_empty());
    let recorded = finalizer_reply(not_queued());
    assert_eq!(shown(&recorded.value), "Null");
    assert_eq!(
        errors(&recorded),
        vec!["nemo_relay: failed to queue JS finalizer callback: Closing"]
    );
    let recorded = finalizer_reply(lost());
    assert_eq!(shown(&recorded.value), "Null");
    assert_eq!(
        errors(&recorded),
        vec!["nemo_relay: JS finalizer callback failed: receiving on a closed channel"]
    );
}

#[test]
fn a_subscriber_logs_its_errors() {
    assert_eq!(shown(&subscriber_payload(Ok(text("e"))).unwrap()), shown(&text("e")));
    match subscriber_payload(Err("bad".to_string())) {
        Err(Report::Message(message)) => assert_eq!(
            message,
            "nemo_relay: failed to serialize JS event subscriber payload: bad"
        ),
        other => panic!("{:?}", other),
    }
    assert!(subscriber_reply(Ok(())).is_none());
    match subscriber_reply(Err("Closing".to_string())) {
        Some(Report::Message(message)) => assert_eq!(
            message,
            "nemo_relay: failed to queue JS event subscriber callback: Closing"
        ),
        other => panic!("{:?}", other),
    }
}

fn fields(profile: &str) -> EventSanitizeFields<String> {
    EventSanitizeFields {
        data: Some(text("d")),
        category_profile: Some(profile.to_string()),
        metadata: None,
    }
}

fn is_empty(fields: &EventSanitizeFields<String>) -> bool {
    fields.data.is_none() && fields.category_profile.is_none() && fields.metadata.is_none()
}

#[test]
fn an_event_sanitizer_is_given_event_and_fields() {
    let (event, shown_fields) =
        event_sanitizer_arguments(Ok(text("event")), &fields("p"), &Forms, &Forms).unwrap();
    assert_eq!(shown(&event), shown(&text("event")));
    assert_eq!(
        shown(&shown_fields),
        shown(&object(vec![("data", text("d")), ("profile", text("p")), ("metadata", Json::Null)]))
    );
    let (_, without) =
        event_sanitizer_arguments(Ok(text("event")), &fields(""), &Forms, &Forms).unwrap();
    assert_eq!(
        shown(&without),
        shown(&object(vec![("data", text("d")), ("profile", Json::Null), ("metadata", Json::Null)]))
    );
    let recorded =
        event_sanitizer_arguments(Err("bad".to_string()), &fields("p"), &Forms, &Forms).unwrap_err();
    assert!(is_empty(&recorded.value));
    assert_eq!(
        errors(&recorded),
        vec!["nemo_relay: failed to serialize JS event sanitizer context: bad"]
    );
}

#[test]
fn an_event_sanitizer_answers_fields() {
    let answer = object(vec![("data", text("x")), ("profile", text("q")), ("metadata", Json::Null)]);
    let recorded: Recorded<EventSanitizeFields<String>> =
        event_sanitizer_reply(answered(answer), &Forms, &Forms, &Forms);
    assert!(recorded.errors.is_empty());
    assert_eq!(shown(&recorded.value.data.unwrap()), shown(&text("x")));
    assert_eq!(recorded.value.category_profile, Some("q".to_string()));
    assert_eq!(shown(&recorded.value.metadata.unwrap()), "Null");
    let recorded: Recorded<EventSanitizeFields<String>> =
        event_sanitizer_reply(answered(object(vec![])), &Forms, &Forms, &Forms);
    assert!(recorded.errors.is_empty());
    assert!(is_empty(&recorded.value));
}

#[test]
fn an_event_sanitizer_that_failed_leaves_no_fields() {
    for (reply, expected) in [
        (not_queued(), "nemo_relay: failed to queue JS event sanitizer callback: Closing"),
        (
            lost(),
            "flow: nemo_relay: JS event sanitizer callback failed: receiving on a closed channel",
        ),
        (threw("x"), "flow: nemo_relay: JS event sanitizer callback failed: x"),
        (
            answered(Json::Null),
            "flow: nemo_relay: invalid JS event sanitizer result: not fields",
        ),
        (
            answered(object(vec![("data", text("x")), ("profile", Json::Bool(true))])),
            "flow: nemo_relay: invalid JS event sanitizer result: not a string",
        ),
    ] {
        let recorded: Recorded<EventSanitizeFields<String>> =
            event_sanitizer_reply(reply, &Forms, &Forms, &Forms);
        assert!(is_empty(&recorded.value));
        assert_eq!(errors(&recorded), vec![expected.to_string()]);
    }
}

#[test]
fn marks_come_back_from_the_other_form() {
    let shown_marks = format!("{:?}", vec![mark("one"), mark("two")]);
    let runtime = pending_marks(vec![mark("one"), mark("two")]);
    assert_eq!(runtime[1].name, "two");
    assert_eq!(runtime[0].category, Some("agent".to_string()));
    assert_eq!(format!("{:?}", js_pending_marks(runtime)), shown_marks);
    let single: PendingMarkSpec<String, String> = PendingMarkSpec::from(mark("one"));
    assert_eq!(format!("{:?}", JsPendingMarkSpec::from(single)), format!("{:?}", mark("one")));
}
