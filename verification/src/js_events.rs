//! What becomes of the replies of JavaScript callbacks that see events and streams.
use vstd::prelude::*;

use crate::events::{EventSanitizeFields, FieldsView};
use crate::flow::{flow_view, FlowError};
use crate::json::{option_view, Json, JsonView};
use crate::middleware::{
    receives, recorded_json, recv_json_or_null, recv_middleware_json_result, report_views,
    JsReply, MiddlewareCallbackResult, Recorded, Report, ReportView,
};
use crate::serial::{json_or_null, written_or_null, JsonForm};
use crate::text::concat2;

verus! {

/// What comes of handing a chunk to a collector `(chunk) => void`. The error is returned and
/// logged.
pub fn collector_reply(queued: Result<(), String>) -> (recorded: Recorded<Result<(), FlowError>>)
    ensures
        match queued {
            Ok(_) => recorded.value is Ok && report_views(recorded.errors@) == Seq::<
                ReportView,
            >::empty(),
            Err(status) => {
                let message = "nemo_relay: failed to queue JS collector callback: "@ + status@;
                &&& recorded.value is Err
                &&& recorded.value->Err_0@ == message
                &&& report_views(recorded.errors@) == seq![ReportView::Message(message)]
            },
        },
{
    match queued {
        Ok(_) => Recorded::clean(Ok(())),
        Err(status) => {
            let message: String = concat2(
                "nemo_relay: failed to queue JS collector callback: ",
                status.as_str(),
            );
            Recorded::with(Err(FlowError::Internal(message.clone())), Report::Message(message))
        },
    }
}

/// The aggregated response, from a finalizer `() => response`. Where it fails, it is null.
pub fn finalizer_reply(reply: JsReply) -> (recorded: Recorded<Json>)
    ensures
        recorded_json(recorded) == match reply {
            JsReply::NotQueued(status) => (
                JsonView::Null,
                seq![
                    ReportView::Message(
                        "nemo_relay: failed to queue JS finalizer callback: "@ + status@,
                    ),
                ],
            ),
            JsReply::Queued(Ok(value)) => (value@, Seq::<ReportView>::empty()),
            JsReply::Queued(Err(text)) => (
                JsonView::Null,
                seq![
                    ReportView::Message(
                        "nemo_relay: JS finalizer callback failed"@ + ": "@ + text@,
                    ),
                ],
            ),
        },
{
    match reply {
        JsReply::NotQueued(status) => Recorded::with(
            Json::Null,
            Report::Message(
                concat2("nemo_relay: failed to queue JS finalizer callback: ", status.as_str()),
            ),
        ),
        JsReply::Queued(received) => recv_json_or_null(
            received,
            "nemo_relay: JS finalizer callback failed",
        ),
    }
}

/// The view of a payload, or of the report in its place.
pub open spec fn payload_view(payload: Result<Json, Report>) -> Result<JsonView, ReportView> {
    match payload {
        Ok(event) => Ok(event@),
        Err(error) => Err(error@),
    }
}

/// The payload for a subscriber `(event) => void`, or the error to log.
pub fn subscriber_payload(event: Result<Json, String>) -> (payload: Result<Json, Report>)
    ensures
        payload_view(payload) == match event {
            Ok(event) => Ok::<JsonView, ReportView>(event@),
            Err(text) => Err(
                ReportView::Message(
                    "nemo_relay: failed to serialize JS event subscriber payload: "@ + text@,
                ),
            ),
        },
{
    match event {
        Ok(event) => Ok(event),
        Err(text) => Err(
            Report::Message(
                concat2(
                    "nemo_relay: failed to serialize JS event subscriber payload: ",
                    text.as_str(),
                ),
            ),
        ),
    }
}

/// The error to log after a subscriber was called, if it could not be queued.
pub fn subscriber_reply(queued: Result<(), String>) -> (error: Option<Report>)
    ensures
        match queued {
            Ok(_) => error is None,
            Err(status) => error is Some && error->Some_0@ == ReportView::Message(
                "nemo_relay: failed to queue JS event subscriber callback: "@ + status@,
            ),
        },
{
    match queued {
        Ok(_) => None,
        Err(status) => Some(
            Report::Message(
                concat2(
                    "nemo_relay: failed to queue JS event subscriber callback: ",
                    status.as_str(),
                ),
            ),
        ),
    }
}

/// Fields with nothing in them.
pub open spec fn empty_fields<P>() -> FieldsView<P> {
    FieldsView { data: None, category_profile: None, metadata: None }
}

/// The fields and the errors to log, as mathematical values.
pub open spec fn recorded_fields<P>(recorded: Recorded<EventSanitizeFields<P>>) -> (
    FieldsView<P>,
    Seq<ReportView>,
) {
    (recorded.value@, report_views(recorded.errors@))
}

/// Empty fields with one error.
fn failed<P>(error: Report) -> (recorded: Recorded<EventSanitizeFields<P>>)
    ensures
        recorded_fields(recorded) == (empty_fields::<P>(), seq![error@]),
{
    Recorded::with(
        EventSanitizeFields { data: None, category_profile: None, metadata: None },
        error,
    )
}

/// A second copy of an optional value.
fn copy_option(value: &Option<Json>) -> (copied: Option<Json>)
    ensures
        option_view(copied) == option_view(*value),
{
    match value {
        Some(value) => Some(value.copy()),
        None => None,
    }
}

/// Whether `json` is the JSON form of a profile, if it has one.
pub open spec fn profile_written<P, F: JsonForm<P>>(
    profiles: F,
    profile: Option<P>,
    json: Option<JsonView>,
) -> bool {
    match profile {
        None => json is None,
        Some(profile) => exists|written: Result<Json, String>| #[trigger]
            call_ensures(F::to_value, (&profiles, &profile), written) && json == match written {
                Ok(written) => Some(written@),
                Err(_) => None,
            },
    }
}

/// Whether `js` are the fields as JavaScript sees them. A profile without a JSON form is left
/// out.
pub open spec fn shows_fields<P, F: JsonForm<P>>(
    profiles: F,
    fields: EventSanitizeFields<P>,
    js: EventSanitizeFields<Json>,
) -> bool {
    &&& js@.data == fields@.data
    &&& js@.metadata == fields@.metadata
    &&& profile_written(profiles, fields.category_profile, option_view(js.category_profile))
}

/// Whether `json` is the second argument of an event sanitizer.
pub open spec fn shown_fields<P, F: JsonForm<P>, G: JsonForm<EventSanitizeFields<Json>>>(
    profiles: F,
    forms: G,
    fields: EventSanitizeFields<P>,
    json: JsonView,
) -> bool {
    exists|js: EventSanitizeFields<Json>| #[trigger]
        shows_fields(profiles, fields, js) && written_or_null(forms, js, json)
}

/// The arguments of an event sanitizer `(event, fields) => fields`. Where the event has no JSON
/// form, the fields of the event are left out.
pub fn event_sanitizer_arguments<P, F: JsonForm<P>, G: JsonForm<EventSanitizeFields<Json>>>(
    event: Result<Json, String>,
    fields: &EventSanitizeFields<P>,
    profiles: &F,
    forms: &G,
) -> (arguments: Result<(Json, Json), Recorded<EventSanitizeFields<P>>>)
    ensures
        match event {
            Err(text) => arguments is Err && recorded_fields(arguments->Err_0) == (
                empty_fields::<P>(),
                seq![
                    ReportView::Message(
                        "nemo_relay: failed to serialize JS event sanitizer context: "@ + text@,
                    ),
                ],
            ),
            Ok(event) => arguments is Ok && arguments->Ok_0.0@ == event@ && shown_fields(
                *profiles,
                *forms,
                *fields,
                arguments->Ok_0.1@,
            ),
        },
{
    match event {
        Err(text) => Err(
            failed(
                Report::Message(
                    concat2(
                        "nemo_relay: failed to serialize JS event sanitizer context: ",
                        text.as_str(),
                    ),
                ),
            ),
        ),
        Ok(event) => {
            let category_profile: Option<Json> = match &fields.category_profile {
                None => None,
                Some(profile) => match profiles.to_value(profile) {
                    Ok(json) => Some(json),
                    Err(_) => None,
                },
            };
            let js: EventSanitizeFields<Json> = EventSanitizeFields {
                data: copy_option(&fields.data),
                category_profile,
                metadata: copy_option(&fields.metadata),
            };
            assert(shows_fields(*profiles, *fields, js));
            Ok((event, json_or_null(&js, forms)))
        },
    }
}

/// What the sanitized fields are, with the profile that was read.
pub open spec fn with_profile<P>(js: FieldsView<Json>, profile: Option<P>) -> (
    FieldsView<P>,
    Seq<ReportView>,
) {
    (
        FieldsView { data: js.data, category_profile: profile, metadata: js.metadata },
        Seq::empty(),
    )
}

/// What comes of an event sanitizer that failed: empty fields, and the error.
pub open spec fn fails<P>(text: Seq<char>) -> (FieldsView<P>, Seq<ReportView>) {
    (empty_fields::<P>(), seq![ReportView::Flow(text)])
}

/// Whether `recorded` is what comes of reading the profile of sanitized fields.
pub open spec fn reads_profile<P, F: JsonForm<P>>(
    profiles: F,
    js: EventSanitizeFields<Json>,
    recorded: (FieldsView<P>, Seq<ReportView>),
) -> bool {
    match js.category_profile {
        None => recorded == with_profile::<P>(js@, None),
        Some(value) => exists|profile: Result<P, String>| #[trigger]
            call_ensures(F::from_value, (&profiles, value), profile) && recorded == match profile {
                Ok(profile) => with_profile(js@, Some(profile)),
                Err(text) => fails("nemo_relay: invalid JS event sanitizer result: "@ + text@),
            },
    }
}

/// Whether `recorded` is what comes of reading the answer of an event sanitizer.
pub open spec fn reads_fields<P, F: JsonForm<P>, G: JsonForm<EventSanitizeFields<Json>>>(
    profiles: F,
    forms: G,
    value: Json,
    recorded: (FieldsView<P>, Seq<ReportView>),
) -> bool {
    exists|js: Result<EventSanitizeFields<Json>, String>| #[trigger]
        call_ensures(G::from_value, (&forms, value), js) && match js {
            Ok(js) => reads_profile(profiles, js, recorded),
            Err(text) => recorded == fails::<P>(
                "nemo_relay: invalid JS event sanitizer result: "@ + text@,
            ),
        }
}

/// Whether `recorded` is what comes of the reply of an event sanitizer.
pub open spec fn event_sanitizer_gives<
    P,
    S: JsonForm<MiddlewareCallbackResult>,
    F: JsonForm<P>,
    G: JsonForm<EventSanitizeFields<Json>>,
>(
    form: S,
    profiles: F,
    forms: G,
    reply: JsReply,
    recorded: (FieldsView<P>, Seq<ReportView>),
) -> bool {
    match reply {
        JsReply::NotQueued(status) => recorded == (
            empty_fields::<P>(),
            seq![
                ReportView::Message(
                    "nemo_relay: failed to queue JS event sanitizer callback: "@ + status@,
                ),
            ],
        ),
        JsReply::Queued(received) => exists|answer: Result<Json, FlowError>| #[trigger]
            receives(
                form,
                received,
                "nemo_relay: JS event sanitizer callback failed"@,
                flow_view(answer),
            ) && match answer {
                Err(error) => recorded == fails::<P>(error@),
                Ok(value) => reads_fields(profiles, forms, value, recorded),
            },
    }
}

/// An event sanitizer that failed leaves nothing of the fields: an error is logged only together
/// with empty fields.
pub proof fn failed_sanitizer_empties_fields<
    P,
    S: JsonForm<MiddlewareCallbackResult>,
    F: JsonForm<P>,
    G: JsonForm<EventSanitizeFields<Json>>,
>(
    form: S,
    profiles: F,
    forms: G,
    reply: JsReply,
    recorded: (FieldsView<P>, Seq<ReportView>),
)
    requires
        event_sanitizer_gives(form, profiles, forms, reply, recorded),
    ensures
        recorded.1.len() <= 1,
        recorded.1.len() == 1 ==> recorded.0 == empty_fields::<P>(),
{
    match reply {
        JsReply::NotQueued(_) => {},
        JsReply::Queued(received) => {
            let answer = choose|answer: Result<Json, FlowError>| #[trigger]
                receives(
                    form,
                    received,
                    "nemo_relay: JS event sanitizer callback failed"@,
                    flow_view(answer),
                ) && match answer {
                    Err(error) => recorded == fails::<P>(error@),
                    Ok(value) => reads_fields(profiles, forms, value, recorded),
                };
            if answer is Ok {
                let js = choose|js: Result<EventSanitizeFields<Json>, String>| #[trigger]
                    call_ensures(G::from_value, (&forms, answer->Ok_0), js) && match js {
                        Ok(js) => reads_profile(profiles, js, recorded),
                        Err(text) => recorded == fails::<P>(
                            "nemo_relay: invalid JS event sanitizer result: "@ + text@,
                        ),
                    };
                assert(js is Ok ==> reads_profile(profiles, js->Ok_0, recorded));
            }
        },
    }
}

/// The fields of an event, from a sanitizer `(event, fields) => fields`. Where it fails, the
/// fields are left out.
pub fn event_sanitizer_reply<
    P,
    S: JsonForm<MiddlewareCallbackResult>,
    F: JsonForm<P>,
    G: JsonForm<EventSanitizeFields<Json>>,
>(reply: JsReply, form: &S, profiles: &F, forms: &G) -> (recorded: Recorded<
    EventSanitizeFields<P>,
>)
    ensures
        event_sanitizer_gives(*form, *profiles, *forms, reply, recorded_fields(recorded)),
{
    let received: Result<Json, String> = match reply {
        JsReply::NotQueued(status) => {
            return failed(
                Report::Message(
                    concat2(
                        "nemo_relay: failed to queue JS event sanitizer callback: ",
                        status.as_str(),
                    ),
                ),
            );
        },
        JsReply::Queued(received) => received,
    };
    let answer: Result<Json, FlowError> = recv_middleware_json_result(
        received,
        "nemo_relay: JS event sanitizer callback failed",
        form,
    );
    assert(receives(
        *form,
        received,
        "nemo_relay: JS event sanitizer callback failed"@,
        flow_view(answer),
    ));
    let value: Json = match answer {
        Err(error) => {
            return failed(Report::Flow(error));
        },
        Ok(value) => value,
    };
    let js: EventSanitizeFields<Json> = match forms.from_value(value) {
        Err(text) => {
            let error: FlowError = FlowError::Internal(
                concat2("nemo_relay: invalid JS event sanitizer result: ", text.as_str()),
            );
            return failed(Report::Flow(error));
        },
        Ok(js) => js,
    };
    let ghost given = js;
    let category_profile: Option<P> = match js.category_profile {
        None => None,
        Some(value) => match profiles.from_value(value) {
            Err(text) => {
                let error: FlowError = FlowError::Internal(
                    concat2("nemo_relay: invalid JS event sanitizer result: ", text.as_str()),
                );
                let recorded: Recorded<EventSanitizeFields<P>> = failed(Report::Flow(error));
                assert(reads_profile(*profiles, given, recorded_fields(recorded)));
                return recorded;
            },
            Ok(profile) => Some(profile),
        },
    };
    let recorded: Recorded<EventSanitizeFields<P>> = Recorded::clean(
        EventSanitizeFields { data: js.data, category_profile, metadata: js.metadata },
    );
    assert(reads_profile(*profiles, given, recorded_fields(recorded)));
    recorded
}

} // verus!
