//! What the redaction callbacks give, in terms of what they are given.
use vstd::prelude::*;

use crate::backend::{sanitizes, sanitizes_text, CompiledBuiltinBackend};
use crate::callbacks::{
    llm_sanitize_request_callback, llm_sanitize_response_callback, tool_sanitize_callback,
    Omission, Outcome,
};
use crate::config::{PluginError, ProviderSurface};
use crate::events::{
    event_sanitize_callback, event_sanitize_callback_with_scope_categories,
    scope_event_sanitize_callback, EventKind, EventSanitizeFields,
};
use crate::flow::FlowError;
use crate::json::{json_equal, Json, JsonView};
use crate::mask::DetectorMasks;
use crate::place::{replaced_at, value_at};
use crate::pointer::{pointer_keys, rendered};
use crate::request::{
    brings_over, brings_target, brings_targets, describes_codec, sanitizes_request, writes_changed,
    CodecModel, LlmCodec, LlmRequest, LlmSanitizeContext,
};
use crate::response::{
    describes_response_codec, overlays_response, LlmResponseCodec, ResponseCodecModel,
};
use crate::serial::{
    reads_sanitized, sanitize_serializable_with_backend, sanitizes_value, JsonForm,
};
use crate::targets::{each_text_by_its_path, pointer_to, unique_keys};
use crate::text::texts;

verus! {

/// A JSON value after the backend: the text at the end of a path is what the action makes of it
/// exactly where the list of target paths is empty or holds the pointer to it.
pub proof fn redacted_value_by_path<M: DetectorMasks>(
    backend: CompiledBuiltinBackend,
    value: Json,
    masks: M,
    result: Json,
    keys: Seq<Seq<char>>,
    text: Seq<char>,
)
    requires
        call_ensures(
            CompiledBuiltinBackend::sanitize_json_preorder_dfs::<M>,
            (&backend, value, &masks),
            result,
        ),
    ensures
        sanitizes(backend@, masks, value@, result@),
        !(backend.action is Remove) && unique_keys(value@) && value_at(value@, keys) == Some(
            JsonView::String(text),
        ) ==> (value_at(result@, keys) matches Some(JsonView::String(output)) && if texts(
            backend.target_paths@,
        ).len() == 0 || texts(backend.target_paths@).contains(rendered(pointer_to(value@, keys))) {
            sanitizes_text(backend.action@, masks, text, Some(output))
        } else {
            output == text
        }),
{
    if !(backend.action is Remove) && unique_keys(value@) && value_at(value@, keys) == Some(
        JsonView::String(text),
    ) {
        each_text_by_its_path(backend@, masks, value@, keys, text, result@);
    }
}

/// A tool payload goes to the trajectory sanitizer where there is one. Otherwise it is ready, and
/// is what the backend leaves of it, with and without target paths.
pub proof fn tool_payload_is_redacted<M: DetectorMasks>(
    backend: CompiledBuiltinBackend,
    payload: Json,
    masks: M,
    outcome: Outcome<Json>,
    keys: Seq<Seq<char>>,
    text: Seq<char>,
)
    requires
        call_ensures(tool_sanitize_callback::<M>, (&backend, payload, &masks), outcome),
    ensures
        backend.trajectory is Some ==> outcome == Outcome::Trajectory(payload),
        backend.trajectory is None ==> (outcome matches Outcome::Ready(ready) && sanitizes(
            backend@,
            masks,
            payload@,
            ready@,
        )),
        backend.trajectory is None && !(backend.action is Remove) && unique_keys(payload@)
            && value_at(payload@, keys) == Some(JsonView::String(text)) ==> (
        outcome matches Outcome::Ready(ready) && value_at(ready@, keys) matches Some(
            JsonView::String(output),
        ) && if texts(backend.target_paths@).len() == 0 || texts(backend.target_paths@).contains(
            rendered(pointer_to(payload@, keys)),
        ) {
            sanitizes_text(backend.action@, masks, text, Some(output))
        } else {
            output == text
        }),
{
    if backend.trajectory is None && !(backend.action is Remove) && unique_keys(payload@)
        && value_at(payload@, keys) == Some(JsonView::String(text)) {
        each_text_by_its_path(backend@, masks, payload@, keys, text, outcome->Ready_0@);
    }
}

/// A value with its JSON form sanitized: it is read from what the backend leaves of the form that
/// it is written as. Where writing or reading fails, the error tells which and why.
pub proof fn value_is_sanitized_by_its_form<T, S: JsonForm<T>, M: DetectorMasks>(
    backend: CompiledBuiltinBackend,
    value: T,
    form: S,
    masks: M,
    result: Result<T, PluginError>,
)
    requires
        sanitizes_value(backend@, masks, form, value, result),
    ensures
        result matches Ok(sanitized) ==> exists|json: Json, left: Json| #[trigger]
            call_ensures(S::to_value, (&form, &value), Ok::<Json, String>(json))
                && #[trigger] sanitizes(backend@, masks, json@, left@) && call_ensures(
                S::from_value,
                (&form, left),
                Ok::<T, String>(sanitized),
            ),
        result matches Err(error) ==> {
            ||| exists|text: String| #[trigger]
                call_ensures(S::to_value, (&form, &value), Err::<Json, String>(text)) && (
                error matches PluginError::Internal(message) && message@
                    == "failed to serialize value for PII redaction: "@ + text@)
            ||| exists|json: Json, left: Json, text: String| #[trigger]
                call_ensures(S::to_value, (&form, &value), Ok::<Json, String>(json))
                    && #[trigger] sanitizes(backend@, masks, json@, left@)
                    && #[trigger] call_ensures(
                    S::from_value,
                    (&form, left),
                    Err::<T, String>(text),
                ) && (error matches PluginError::Internal(message) && message@
                    == "failed to deserialize sanitized value for PII redaction: "@ + text@)
        },
{
    let written = choose|written: Result<Json, String>| #[trigger]
        call_ensures(S::to_value, (&form, &value), written) && match written {
            Err(text) => result is Err && result->Err_0@
                == crate::config::PluginErrorView::Internal(
                "failed to serialize value for PII redaction: "@ + text@,
            ),
            Ok(json) => exists|left: Json| #[trigger]
                sanitizes(backend@, masks, json@, left@) && reads_sanitized(form, left, result),
        };
    match written {
        Err(text) => {
            assert(written == Err::<Json, String>(text));
        },
        Ok(json) => {
            assert(written == Ok::<Json, String>(json));
            let left = choose|left: Json| #[trigger]
                sanitizes(backend@, masks, json@, left@) && reads_sanitized(form, left, result);
            let read = choose|read: Result<T, String>| #[trigger]
                call_ensures(S::from_value, (&form, left), read) && match read {
                    Ok(value) => result == Ok::<T, PluginError>(value),
                    Err(text) => result is Err && result->Err_0@
                        == crate::config::PluginErrorView::Internal(
                        "failed to deserialize sanitized value for PII redaction: "@ + text@,
                    ),
                };
            match read {
                Ok(value) => {
                    assert(read == Ok::<T, String>(value));
                },
                Err(text) => {
                    assert(read == Err::<T, String>(text));
                },
            }
        },
    }
}

/// Sanitizing a value is sanitizing it by its form.
pub proof fn serializable_is_sanitized<T, S: JsonForm<T>, M: DetectorMasks>(
    backend: CompiledBuiltinBackend,
    value: T,
    form: S,
    masks: M,
    result: Result<T, PluginError>,
)
    requires
        call_ensures(
            sanitize_serializable_with_backend::<T, S, M>,
            (&backend, &value, &form, &masks),
            result,
        ),
    ensures
        sanitizes_value(backend@, masks, form, value, result),
{
}

/// The fields of an event. A scope of category `llm` or `tool` whose switch is off keeps them all.
/// Otherwise they go to the trajectory sanitizer where there is one. Otherwise they are ready: the
/// metadata of every event is what the backend leaves of it, and so are the data and the profile of
/// every event but a scope of category `llm` or `tool`, which keeps both.
pub proof fn event_fields_are_redacted<P, S: JsonForm<P>, M: DetectorMasks>(
    backend: CompiledBuiltinBackend,
    switches: Option<(bool, bool)>,
    event: EventKind,
    fields: EventSanitizeFields<P>,
    form: S,
    masks: M,
    outcome: Outcome<EventSanitizeFields<P>>,
)
    requires
        call_ensures(
            event_sanitize_callback_with_scope_categories::<P, S, M>,
            (&backend, switches, &event, fields, &form, &masks),
            outcome,
        ),
    ensures
        ({
            let llm = event.scope && event.category is Some && event.category->Some_0@ == "llm"@;
            let tool = event.scope && event.category is Some && event.category->Some_0@ == "tool"@;
            let off = switches is Some && ((llm && !switches->Some_0.0) || (tool
                && !switches->Some_0.1));
            if off {
                outcome == Outcome::Ready(fields)
            } else if backend.trajectory is Some {
                outcome == Outcome::Trajectory(fields)
            } else {
                &&& outcome is Ready
                &&& fields.metadata is None <==> outcome->Ready_0.metadata is None
                &&& fields.metadata matches Some(metadata) ==> sanitizes(
                    backend@,
                    masks,
                    metadata@,
                    outcome->Ready_0.metadata->Some_0@,
                )
                &&& llm || tool ==> outcome->Ready_0.data == fields.data
                    && outcome->Ready_0.category_profile == fields.category_profile
                &&& !llm && !tool ==> {
                    &&& fields.data is None <==> outcome->Ready_0.data is None
                    &&& fields.data matches Some(data) ==> sanitizes(
                        backend@,
                        masks,
                        data@,
                        outcome->Ready_0.data->Some_0@,
                    )
                    &&& fields.category_profile is None ==> outcome->Ready_0.category_profile is None
                    &&& fields.category_profile matches Some(profile) ==> match outcome->Ready_0.category_profile {
                        Some(left) => sanitizes_value(
                            backend@,
                            masks,
                            form,
                            profile,
                            Ok::<P, PluginError>(left),
                        ),
                        None => exists|error: PluginError| #[trigger]
                            sanitizes_value(
                                backend@,
                                masks,
                                form,
                                profile,
                                Err::<P, PluginError>(error),
                            ),
                    }
                }
            }
        }),
{
    let llm = event.scope && event.category is Some && event.category->Some_0@ == "llm"@;
    let tool = event.scope && event.category is Some && event.category->Some_0@ == "tool"@;
    let off = switches is Some && ((llm && !switches->Some_0.0) || (tool && !switches->Some_0.1));
    if !off && backend.trajectory is None && !llm && !tool {
        match fields.category_profile {
            Some(profile) => {
                let result = choose|result: Result<P, PluginError>| #[trigger]
                    sanitizes_value(backend@, masks, form, profile, result)
                        && outcome->Ready_0.category_profile == match result {
                        Ok(profile) => Some(profile),
                        Err(_) => None,
                    };
                match result {
                    Ok(left) => {
                        assert(result == Ok::<P, PluginError>(left));
                    },
                    Err(error) => {
                        assert(result == Err::<P, PluginError>(error));
                    },
                }
            },
            None => {},
        }
    }
}

/// The callbacks for events with and without switches are the one with optional switches.
pub proof fn event_callbacks_are_one<P, S: JsonForm<P>, M: DetectorMasks>(
    backend: CompiledBuiltinBackend,
    sanitize_llm: bool,
    sanitize_tool: bool,
    event: EventKind,
    fields: EventSanitizeFields<P>,
    form: S,
    masks: M,
    without: Outcome<EventSanitizeFields<P>>,
    with: Outcome<EventSanitizeFields<P>>,
)
    requires
        call_ensures(
            event_sanitize_callback::<P, S, M>,
            (&backend, &event, fields, &form, &masks),
            without,
        ),
        call_ensures(
            scope_event_sanitize_callback::<P, S, M>,
            (&backend, sanitize_llm, sanitize_tool, &event, fields, &form, &masks),
            with,
        ),
    ensures
        ({
            let llm = event.scope && event.category is Some && event.category->Some_0@ == "llm"@;
            let tool = event.scope && event.category is Some && event.category->Some_0@ == "tool"@;
            let off = (llm && !sanitize_llm) || (tool && !sanitize_tool);
            &&& off ==> with == Outcome::Ready(fields)
            &&& !off && backend.trajectory is Some ==> with == Outcome::Trajectory(fields)
            &&& backend.trajectory is Some ==> without == Outcome::Trajectory(fields)
            &&& backend.trajectory is None ==> without is Ready && with is Ready
            &&& backend.trajectory is None && fields.metadata is Some ==> {
                &&& without->Ready_0.metadata is Some && sanitizes(
                    backend@,
                    masks,
                    fields.metadata->Some_0@,
                    without->Ready_0.metadata->Some_0@,
                )
                &&& !off ==> with->Ready_0.metadata is Some && sanitizes(
                    backend@,
                    masks,
                    fields.metadata->Some_0@,
                    with->Ready_0.metadata->Some_0@,
                )
            }
            &&& backend.trajectory is None && (llm || tool) ==> without->Ready_0.data == fields.data
                && with->Ready_0.data == fields.data && without->Ready_0.category_profile
                == fields.category_profile && with->Ready_0.category_profile
                == fields.category_profile
            &&& backend.trajectory is None && !llm && !tool && fields.data is Some ==> {
                &&& without->Ready_0.data is Some && sanitizes(
                    backend@,
                    masks,
                    fields.data->Some_0@,
                    without->Ready_0.data->Some_0@,
                )
                &&& with->Ready_0.data is Some && sanitizes(
                    backend@,
                    masks,
                    fields.data->Some_0@,
                    with->Ready_0.data->Some_0@,
                )
            }
            &&& backend.trajectory is None && fields.data is None ==> without->Ready_0.data is None
                && with->Ready_0.data is None
            &&& backend.trajectory is None && fields.metadata is None
                ==> without->Ready_0.metadata is None && with->Ready_0.metadata is None
            &&& backend.trajectory is None && !llm && !tool ==> {
                &&& left_of_profile(
                    backend,
                    masks,
                    form,
                    fields.category_profile,
                    without->Ready_0.category_profile,
                )
                &&& left_of_profile(
                    backend,
                    masks,
                    form,
                    fields.category_profile,
                    with->Ready_0.category_profile,
                )
            }
        }),
{
}

/// Whether `left` is what is left of an optional profile: the profile with its form sanitized, or
/// nothing where that fails.
pub open spec fn left_of_profile<P, S: JsonForm<P>, M: DetectorMasks>(
    backend: CompiledBuiltinBackend,
    masks: M,
    form: S,
    profile: Option<P>,
    left: Option<P>,
) -> bool {
    match (profile, left) {
        (None, left) => left is None,
        (Some(profile), Some(left)) => sanitizes_value(
            backend@,
            masks,
            form,
            profile,
            Ok::<P, PluginError>(left),
        ),
        (Some(profile), None) => exists|result: Result<P, PluginError>| #[trigger]
            sanitizes_value(backend@, masks, form, profile, result) && result is Err,
    }
}

/// A response by way of its annotated form: the payload is decoded by the codec of the setting, the
/// annotated form is written as JSON, the backend works on that, what is left is read again, and it
/// is this, and not what was decoded, that is laid over the payload.
pub proof fn sanitized_form_is_laid_over<C: LlmResponseCodec, M: DetectorMasks>(
    backend: CompiledBuiltinBackend,
    context: LlmSanitizeContext,
    payload: Json,
    codec: C,
    masks: M,
    body: Json,
    surface: Option<ProviderSurface>,
)
    requires
        overlays_response(backend@, masks, codec, context@, payload, Some(body)),
        surface == if context.has_active_codec {
            match context.codec {
                Some(codec) => codec.surface,
                None => None,
            }
        } else {
            backend.legacy_surface
        },
    ensures
        surface is Some && exists|
            annotated: C::Annotated,
            json: Json,
            left: Json,
            sanitized: C::Annotated,
        |
            #[trigger] call_ensures(
                C::decode_response,
                (&codec, surface->Some_0, &payload),
                Ok::<C::Annotated, FlowError>(annotated),
            ) && #[trigger] call_ensures(
                C::to_value,
                (&codec, &annotated),
                Ok::<Json, String>(json),
            ) && #[trigger] sanitizes(backend@, masks, json@, left@)
                && #[trigger] call_ensures(
                C::from_value,
                (&codec, left),
                Ok::<C::Annotated, String>(sanitized),
            ) && call_ensures(
                C::overlay_response_payload,
                (&codec, surface->Some_0, payload, &sanitized),
                body,
            ),
{
    assert(surface == crate::request::surface_for(backend@, context@));
    let surface = surface->Some_0;
    let decoded = choose|annotated: Result<C::Annotated, FlowError>| #[trigger]
        call_ensures(C::decode_response, (&codec, surface, &payload), annotated)
            && match annotated {
            Err(_) => false,
            Ok(annotated) => exists|sanitized: Result<C::Annotated, PluginError>| #[trigger]
                sanitizes_value(backend@, masks, codec, annotated, sanitized) && match sanitized {
                    Err(_) => false,
                    Ok(sanitized) => call_ensures(
                        C::overlay_response_payload,
                        (&codec, surface, payload, &sanitized),
                        body,
                    ),
                },
        };
    let annotated = decoded->Ok_0;
    assert(decoded == Ok::<C::Annotated, FlowError>(annotated));
    let result = choose|sanitized: Result<C::Annotated, PluginError>| #[trigger]
        sanitizes_value(backend@, masks, codec, annotated, sanitized) && match sanitized {
            Err(_) => false,
            Ok(sanitized) => call_ensures(
                C::overlay_response_payload,
                (&codec, surface, payload, &sanitized),
                body,
            ),
        };
    value_is_sanitized_by_its_form(backend, annotated, codec, masks, result);
}

/// A response is not overlaid only where the setting has no codec, or decoding or sanitizing the
/// annotated form fails.
pub proof fn response_without_overlay<C: LlmResponseCodec, M: DetectorMasks>(
    backend: CompiledBuiltinBackend,
    context: LlmSanitizeContext,
    payload: Json,
    codec: C,
    masks: M,
    surface: Option<ProviderSurface>,
)
    requires
        overlays_response(backend@, masks, codec, context@, payload, None),
        surface == if context.has_active_codec {
            match context.codec {
                Some(codec) => codec.surface,
                None => None,
            }
        } else {
            backend.legacy_surface
        },
    ensures
        ({
            ||| surface is None
            ||| exists|error: FlowError| #[trigger]
                call_ensures(
                    C::decode_response,
                    (&codec, surface->Some_0, &payload),
                    Err::<C::Annotated, FlowError>(error),
                )
            ||| exists|annotated: C::Annotated, error: PluginError| #[trigger]
                call_ensures(
                    C::decode_response,
                    (&codec, surface->Some_0, &payload),
                    Ok::<C::Annotated, FlowError>(annotated),
                ) && #[trigger] sanitizes_value(
                    backend@,
                    masks,
                    codec,
                    annotated,
                    Err::<C::Annotated, PluginError>(error),
                )
        }),
{
    assert(surface == crate::request::surface_for(backend@, context@));
    match surface {
        None => {},
        Some(surface) => {
            let decoded = choose|annotated: Result<C::Annotated, FlowError>| #[trigger]
                call_ensures(C::decode_response, (&codec, surface, &payload), annotated)
                    && match annotated {
                    Err(_) => true,
                    Ok(annotated) => exists|sanitized: Result<C::Annotated, PluginError>| #[trigger]
                        sanitizes_value(backend@, masks, codec, annotated, sanitized)
                            && match sanitized {
                            Err(_) => true,
                            Ok(sanitized) => false,
                        },
                };
            match decoded {
                Err(error) => {
                    assert(decoded == Err::<C::Annotated, FlowError>(error));
                },
                Ok(annotated) => {
                    assert(decoded == Ok::<C::Annotated, FlowError>(annotated));
                    let result = choose|sanitized: Result<C::Annotated, PluginError>| #[trigger]
                        sanitizes_value(backend@, masks, codec, annotated, sanitized)
                            && match sanitized {
                            Err(_) => true,
                            Ok(sanitized) => false,
                        };
                    assert(result == Err::<C::Annotated, PluginError>(result->Err_0));
                },
            }
        },
    }
}

/// Where a codec reads back what it laid over a payload, and a JSON form comes back from the value
/// that it is read as, the annotated form of the overlaid response has, at the end of each path to
/// a text, what the action makes of the text there where that is a target, and the text where not.
pub proof fn overlaid_response_reads_sanitized<C: LlmResponseCodec, M: DetectorMasks>(
    backend: CompiledBuiltinBackend,
    context: LlmSanitizeContext,
    payload: Json,
    codec: C,
    masks: M,
    result: Option<Json>,
    model: ResponseCodecModel<C::Annotated>,
    surface: ProviderSurface,
    before: JsonView,
    keys: Seq<Seq<char>>,
    text: Seq<char>,
)
    requires
        call_ensures(
            CompiledBuiltinBackend::sanitize_response_with_codec::<C, M>,
            (&backend, &context, payload, &codec, &masks),
            result,
        ),
        result is Some,
        describes_response_codec(codec, model),
        forall|payload: JsonView, annotated: C::Annotated| (model.decode)(
            surface,
            #[trigger] (model.overlay)(surface, payload, annotated),
        ) == Some(annotated),
        forall|json: JsonView|
            (#[trigger] (model.form.from_value)(json)) matches Ok(annotated) ==> (
            model.form.to_value)(annotated) == Ok::<JsonView, Seq<char>>(json),
        surface == if context.has_active_codec {
            context.codec->Some_0.surface->Some_0
        } else {
            backend.legacy_surface->Some_0
        },
        (model.decode)(surface, payload@) is Some,
        (model.form.to_value)((model.decode)(surface, payload@)->Some_0) == Ok::<
            JsonView,
            Seq<char>,
        >(before),
        unique_keys(before),
        value_at(before, keys) == Some(JsonView::String(text)),
        !(backend.action is Remove),
    ensures
        (model.decode)(surface, result->Some_0@) matches Some(annotated) && (model.form.to_value)(
            annotated,
        ) matches Ok(after) && value_at(after, keys) matches Some(JsonView::String(output))
            && if texts(backend.target_paths@).len() == 0 || texts(
            backend.target_paths@,
        ).contains(rendered(pointer_to(before, keys))) {
            sanitizes_text(backend.action@, masks, text, Some(output))
        } else {
            output == text
        },
{
    let body = result->Some_0;
    assert(result == Some(body));
    let selected = crate::request::surface_for(backend@, context@);
    sanitized_form_is_laid_over(backend, context, payload, codec, masks, body, selected);
    let (annotated, json, left, sanitized) = choose|
        annotated: C::Annotated,
        json: Json,
        left: Json,
        sanitized: C::Annotated,
    |
        #[trigger] call_ensures(
            C::decode_response,
            (&codec, surface, &payload),
            Ok::<C::Annotated, FlowError>(annotated),
        ) && #[trigger] call_ensures(C::to_value, (&codec, &annotated), Ok::<Json, String>(json))
            && #[trigger] sanitizes(backend@, masks, json@, left@) && #[trigger] call_ensures(
            C::from_value,
            (&codec, left),
            Ok::<C::Annotated, String>(sanitized),
        ) && call_ensures(
            C::overlay_response_payload,
            (&codec, surface, payload, &sanitized),
            body,
        );
    assert((model.decode)(surface, payload@) == Some(annotated));
    assert((model.form.to_value)(annotated) == Ok::<JsonView, Seq<char>>(json@));
    assert((model.form.from_value)(left@) == Ok::<C::Annotated, Seq<char>>(sanitized));
    assert(body@ == (model.overlay)(surface, payload@, sanitized));
    each_text_by_its_path(backend@, masks, before, keys, text, left@);
}

/// What becomes of a response: it goes to the trajectory sanitizer where there is one, is what the
/// backend leaves of it where there are no target paths, is left out where no codec is active and
/// the configured one is not for it, and is otherwise what the backend leaves of the payload with
/// the sanitized annotated form laid over it.
pub proof fn response_is_redacted<C: LlmResponseCodec, M: DetectorMasks>(
    backend: CompiledBuiltinBackend,
    payload: Json,
    context: LlmSanitizeContext,
    detected: Option<ProviderSurface>,
    codec: C,
    masks: M,
    outcome: Outcome<Json>,
)
    requires
        call_ensures(
            llm_sanitize_response_callback::<C, M>,
            (&backend, payload, &context, detected, &codec, &masks),
            outcome,
        ),
    ensures
        if backend.trajectory is Some {
            outcome == Outcome::Trajectory(payload)
        } else if backend.target_paths@.len() == 0 {
            outcome matches Outcome::Ready(ready) && sanitizes(backend@, masks, payload@, ready@)
        } else if !context.has_active_codec && (backend.legacy_surface is None || detected
            != backend.legacy_surface) {
            outcome == Outcome::<Json>::Omitted(Omission::NoCompatibleCodec)
        } else {
            match outcome {
                Outcome::Ready(ready) => exists|body: Json| #[trigger]
                    overlays_response(backend@, masks, codec, context@, payload, Some(body))
                        && sanitizes(backend@, masks, body@, ready@),
                Outcome::Omitted(reason) => reason == Omission::CodecFailure && overlays_response(
                    backend@,
                    masks,
                    codec,
                    context@,
                    payload,
                    None,
                ),
                Outcome::Trajectory(_) => false,
            }
        },
{
    assert(backend@.target_paths.len() == backend.target_paths@.len());
    if backend.trajectory is None && backend.target_paths@.len() > 0 && !(!context.has_active_codec
        && (backend.legacy_surface is None || detected != backend.legacy_surface)) {
        let overlaid = choose|overlaid: Option<Json>| #[trigger]
            overlays_response(backend@, masks, codec, context@, payload, overlaid)
                && match overlaid {
                Some(body) => outcome matches Outcome::Ready(ready) && sanitizes(
                    backend@,
                    masks,
                    body@,
                    ready@,
                ),
                None => outcome == Outcome::<Json>::Omitted(Omission::CodecFailure),
            };
        match overlaid {
            Some(body) => {
                assert(overlaid == Some(body));
            },
            None => {},
        }
    }
}

/// What becomes of a request: it goes to the trajectory sanitizer where there is one; its body is
/// what the backend leaves of it where there are no target paths, and its headers stay; it is left
/// out where no codec is active and the configured one is not for it; and otherwise it is sanitized
/// by way of its annotated form, or left out where that fails.
pub proof fn request_is_redacted<C: LlmCodec, M: DetectorMasks>(
    backend: CompiledBuiltinBackend,
    request: LlmRequest,
    context: LlmSanitizeContext,
    detected: Option<ProviderSurface>,
    codec: C,
    masks: M,
    outcome: Outcome<LlmRequest>,
)
    requires
        call_ensures(
            llm_sanitize_request_callback::<C, M>,
            (&backend, request, &context, detected, &codec, &masks),
            outcome,
        ),
    ensures
        if backend.trajectory is Some {
            outcome == Outcome::Trajectory(request)
        } else if backend.target_paths@.len() == 0 {
            outcome matches Outcome::Ready(ready) && ready.headers == request.headers && sanitizes(
                backend@,
                masks,
                request.content@,
                ready.content@,
            )
        } else if !context.has_active_codec && (backend.legacy_surface is None || detected
            != backend.legacy_surface) {
            outcome == Outcome::<LlmRequest>::Omitted(Omission::NoCompatibleCodec)
        } else {
            match outcome {
                Outcome::Ready(ready) => sanitizes_request(
                    backend@,
                    masks,
                    codec,
                    context@,
                    request,
                    Some(ready),
                ),
                Outcome::Omitted(reason) => reason == Omission::CodecFailure && sanitizes_request(
                    backend@,
                    masks,
                    codec,
                    context@,
                    request,
                    None,
                ),
                Outcome::Trajectory(_) => false,
            }
        },
{
    assert(backend@.target_paths.len() == backend.target_paths@.len());
}

/// A request by way of its annotated form: it is decoded by the codec of the setting, the annotated
/// form is written as JSON, the backend works on that, and what is left is read again. It is this,
/// and not what was decoded, that is encoded over the request, or whose target paths are brought
/// over one by one where it cannot be encoded as a whole.
pub proof fn sanitized_form_is_encoded<C: LlmCodec, M: DetectorMasks>(
    backend: CompiledBuiltinBackend,
    context: LlmSanitizeContext,
    request: LlmRequest,
    codec: C,
    masks: M,
    written: LlmRequest,
    surface: Option<ProviderSurface>,
)
    requires
        sanitizes_request(backend@, masks, codec, context@, request, Some(written)),
        surface == if context.has_active_codec {
            match context.codec {
                Some(codec) => codec.surface,
                None => None,
            }
        } else {
            backend.legacy_surface
        },
    ensures
        surface is Some && exists|
            annotated: C::Annotated,
            json: Json,
            left: Json,
            sanitized: C::Annotated,
        |
            #[trigger] call_ensures(
                C::decode,
                (&codec, surface->Some_0, &request),
                Ok::<C::Annotated, FlowError>(annotated),
            ) && #[trigger] call_ensures(
                C::to_value,
                (&codec, &annotated),
                Ok::<Json, String>(json),
            ) && #[trigger] sanitizes(backend@, masks, json@, left@)
                && #[trigger] call_ensures(
                C::from_value,
                (&codec, left),
                Ok::<C::Annotated, String>(sanitized),
            ) && (call_ensures(
                C::encode,
                (&codec, surface->Some_0, &sanitized, &request),
                Ok::<LlmRequest, FlowError>(written),
            ) || (encode_fails(codec, surface->Some_0, sanitized, request) && brings_over(
                backend@,
                codec,
                surface->Some_0,
                request@,
                sanitized,
                Some(written),
            ))),
{
    assert(surface == crate::request::surface_for(backend@, context@));
    let surface = surface->Some_0;
    let decoded = choose|annotated: Result<C::Annotated, FlowError>| #[trigger]
        call_ensures(C::decode, (&codec, surface, &request), annotated) && match annotated {
            Err(_) => false,
            Ok(annotated) => exists|sanitized: Result<C::Annotated, PluginError>| #[trigger]
                sanitizes_value(backend@, masks, codec, annotated, sanitized) && match sanitized {
                    Err(_) => false,
                    Ok(sanitized) => crate::request::writes_sanitized(
                        backend@,
                        codec,
                        surface,
                        sanitized,
                        request,
                        Some(written),
                    ),
                },
        };
    let annotated = decoded->Ok_0;
    assert(decoded == Ok::<C::Annotated, FlowError>(annotated));
    let result = choose|sanitized: Result<C::Annotated, PluginError>| #[trigger]
        sanitizes_value(backend@, masks, codec, annotated, sanitized) && match sanitized {
            Err(_) => false,
            Ok(sanitized) => crate::request::writes_sanitized(
                backend@,
                codec,
                surface,
                sanitized,
                request,
                Some(written),
            ),
        };
    let sanitized = result->Ok_0;
    value_is_sanitized_by_its_form(backend, annotated, codec, masks, result);
    let whole = choose|whole: Option<LlmRequest>| #[trigger]
        crate::request::encodes(codec, surface, sanitized, request, whole) && match whole {
            Some(_) => Some(written) == whole,
            None => brings_over(
                backend@,
                codec,
                surface,
                request@,
                sanitized,
                Some(written),
            ),
        };
    let encoded = choose|encoded: Result<LlmRequest, FlowError>| #[trigger]
        call_ensures(C::encode, (&codec, surface, &sanitized, &request), encoded)
            && match encoded {
            Ok(request) => whole == Some(request),
            Err(_) => whole is None,
        };
    match encoded {
        Ok(made) => {
            assert(encoded == Ok::<LlmRequest, FlowError>(made));
        },
        Err(error) => {
            assert(encoded == Err::<LlmRequest, FlowError>(error));
        },
    }
}

/// Whether the codec can fail to encode an annotated request over a request.
pub open spec fn encode_fails<C: LlmCodec>(
    codec: C,
    surface: ProviderSurface,
    annotated: C::Annotated,
    request: LlmRequest,
) -> bool {
    exists|error: FlowError| #[trigger]
        call_ensures(
            C::encode,
            (&codec, surface, &annotated, &request),
            Err::<LlmRequest, FlowError>(error),
        )
}

/// A request is not written only where the setting has no codec, decoding or sanitizing the
/// annotated form fails, or it can be encoded neither as a whole nor target path by target path.
pub proof fn request_without_encoding<C: LlmCodec, M: DetectorMasks>(
    backend: CompiledBuiltinBackend,
    context: LlmSanitizeContext,
    request: LlmRequest,
    codec: C,
    masks: M,
    surface: Option<ProviderSurface>,
)
    requires
        sanitizes_request(backend@, masks, codec, context@, request, None),
        surface == if context.has_active_codec {
            match context.codec {
                Some(codec) => codec.surface,
                None => None,
            }
        } else {
            backend.legacy_surface
        },
    ensures
        ({
            ||| surface is None
            ||| exists|error: FlowError| #[trigger]
                call_ensures(
                    C::decode,
                    (&codec, surface->Some_0, &request),
                    Err::<C::Annotated, FlowError>(error),
                )
            ||| exists|annotated: C::Annotated, result: Result<C::Annotated, PluginError>| #[trigger]
                call_ensures(
                    C::decode,
                    (&codec, surface->Some_0, &request),
                    Ok::<C::Annotated, FlowError>(annotated),
                ) && #[trigger] sanitizes_value(backend@, masks, codec, annotated, result) && (
                result is Err || (encode_fails(codec, surface->Some_0, result->Ok_0, request)
                    && brings_over(
                    backend@,
                    codec,
                    surface->Some_0,
                    request@,
                    result->Ok_0,
                    None,
                )))
        }),
{
    assert(surface == crate::request::surface_for(backend@, context@));
    match surface {
        None => {},
        Some(surface) => {
            let decoded = choose|annotated: Result<C::Annotated, FlowError>| #[trigger]
                call_ensures(C::decode, (&codec, surface, &request), annotated) && match annotated {
                    Err(_) => true,
                    Ok(annotated) => exists|sanitized: Result<C::Annotated, PluginError>| #[trigger]
                        sanitizes_value(backend@, masks, codec, annotated, sanitized)
                            && match sanitized {
                            Err(_) => true,
                            Ok(sanitized) => crate::request::writes_sanitized(
                                backend@,
                                codec,
                                surface,
                                sanitized,
                                request,
                                None,
                            ),
                        },
                };
            match decoded {
                Err(error) => {
                    assert(decoded == Err::<C::Annotated, FlowError>(error));
                },
                Ok(annotated) => {
                    assert(decoded == Ok::<C::Annotated, FlowError>(annotated));
                    let result = choose|sanitized: Result<C::Annotated, PluginError>| #[trigger]
                        sanitizes_value(backend@, masks, codec, annotated, sanitized)
                            && match sanitized {
                            Err(_) => true,
                            Ok(sanitized) => crate::request::writes_sanitized(
                                backend@,
                                codec,
                                surface,
                                sanitized,
                                request,
                                None,
                            ),
                        };
                    if result is Ok {
                        let whole = choose|whole: Option<LlmRequest>| #[trigger]
                            crate::request::encodes(codec, surface, result->Ok_0, request, whole)
                                && match whole {
                                Some(_) => false,
                                None => brings_over(
                                    backend@,
                                    codec,
                                    surface,
                                    request@,
                                    result->Ok_0,
                                    None,
                                ),
                            };
                        let encoded = choose|encoded: Result<LlmRequest, FlowError>| #[trigger]
                            call_ensures(
                                C::encode,
                                (&codec, surface, &result->Ok_0, &request),
                                encoded,
                            ) && match encoded {
                                Ok(request) => whole == Some(request),
                                Err(_) => whole is None,
                            };
                        assert(encoded == Err::<LlmRequest, FlowError>(encoded->Err_0));
                    }
                },
            }
        },
    }
}

/// What the functions that go by way of a codec give is what the laws on that speak of.
pub proof fn codec_passes<C: LlmCodec, R: LlmResponseCodec, M: DetectorMasks>(
    backend: CompiledBuiltinBackend,
    context: LlmSanitizeContext,
    request: LlmRequest,
    payload: Json,
    surface: ProviderSurface,
    annotated: C::Annotated,
    codec: C,
    responses: R,
    masks: M,
    written: Option<LlmRequest>,
    overlaid: Option<Json>,
    brought: Option<LlmRequest>,
)
    requires
        call_ensures(
            CompiledBuiltinBackend::sanitize_request_with_codec::<C, M>,
            (&backend, &context, &request, &codec, &masks),
            written,
        ),
        call_ensures(
            CompiledBuiltinBackend::sanitize_response_with_codec::<R, M>,
            (&backend, &context, payload, &responses, &masks),
            overlaid,
        ),
        call_ensures(
            CompiledBuiltinBackend::sanitize_request_target_paths_incrementally::<C>,
            (&backend, &codec, surface, &request, &annotated),
            brought,
        ),
    ensures
        sanitizes_request(backend@, masks, codec, context@, request, written),
        overlays_response(backend@, masks, responses, context@, payload, overlaid),
        brings_over(backend@, codec, surface, request@, annotated, brought),
{
}

/// Bringing over starts from the request as it is, and takes every target path of the backend from
/// the JSON form of the sanitized annotated request.
pub proof fn every_target_is_brought_over<C: LlmCodec>(
    backend: CompiledBuiltinBackend,
    codec: C,
    surface: ProviderSurface,
    request: LlmRequest,
    annotated: C::Annotated,
    result: Option<LlmRequest>,
)
    requires
        brings_over(backend@, codec, surface, request@, annotated, result),
    ensures
        (result is None && exists|text: String| #[trigger]
            call_ensures(C::to_value, (&codec, &annotated), Err::<Json, String>(text))) || exists|
            json: Json,
            start: LlmRequest,
        |
            start.headers@ == request.headers@ && start.content@ == request.content@
                && #[trigger] call_ensures(
                C::to_value,
                (&codec, &annotated),
                Ok::<Json, String>(json),
            ) && #[trigger] brings_targets(
                codec,
                surface,
                json@,
                texts(backend.target_paths@),
                start,
                result,
            ),
{
    let written = choose|written: Result<Json, String>| #[trigger]
        call_ensures(C::to_value, (&codec, &annotated), written) && match written {
            Err(_) => result is None,
            Ok(json) => exists|start: LlmRequest|
                start@ == request@ && #[trigger] brings_targets(
                    codec,
                    surface,
                    json@,
                    backend@.target_paths,
                    start,
                    result,
                ),
        };
    match written {
        Err(text) => {
            assert(written == Err::<Json, String>(text));
        },
        Ok(json) => {
            assert(written == Ok::<Json, String>(json));
            let start = choose|start: LlmRequest|
                start@ == request@ && #[trigger] brings_targets(
                    codec,
                    surface,
                    json@,
                    backend@.target_paths,
                    start,
                    result,
                );
            assert(start@ == request@);
        },
    }
}

/// Bringing over no target path changes nothing, bringing over one is that step, and bringing over
/// two lists is bringing over the first and, where that works, the second.
pub proof fn targets_are_brought_one_by_one<C: LlmCodec>(
    codec: C,
    surface: ProviderSurface,
    sanitized: JsonView,
    target: Seq<char>,
    first: Seq<Seq<char>>,
    second: Seq<Seq<char>>,
    current: LlmRequest,
    result: Option<LlmRequest>,
)
    ensures
        brings_targets(codec, surface, sanitized, Seq::empty(), current, result) <==> result
            == Some(current),
        brings_targets(codec, surface, sanitized, seq![target], current, result) <==> brings_target(
            codec,
            surface,
            sanitized,
            target,
            current,
            result,
        ),
        brings_targets(codec, surface, sanitized, first + second, current, result) <==> exists|
            middle: Option<LlmRequest>,
        | #[trigger]
            brings_targets(codec, surface, sanitized, first, current, middle) && match middle {
                None => result is None,
                Some(middle) => brings_targets(
                    codec,
                    surface,
                    sanitized,
                    second,
                    middle,
                    result,
                ),
            },
    decreases first.len(),
{
    reveal_with_fuel(brings_targets, 2);
    assert(seq![target].skip(1) =~= Seq::empty());
    assert(seq![target][0] == target);
    if brings_target(codec, surface, sanitized, target, current, result) {
        match result {
            Some(next) => {
                assert(brings_targets(codec, surface, sanitized, Seq::empty(), next, result));
            },
            None => {},
        }
        assert(brings_targets(codec, surface, sanitized, seq![target], current, result));
    }
    if brings_targets(codec, surface, sanitized, seq![target], current, result) {
        let next = choose|next: Option<LlmRequest>| #[trigger]
            brings_target(codec, surface, sanitized, seq![target][0], current, next) && match next {
                None => result is None,
                Some(next) => brings_targets(
                    codec,
                    surface,
                    sanitized,
                    seq![target].skip(1),
                    next,
                    result,
                ),
            };
        assert(next == result);
    }
    let both = first + second;
    if first.len() == 0 {
        assert(both =~= second);
        assert(brings_targets(codec, surface, sanitized, first, current, Some(current)));
    } else {
        assert(both.skip(1) =~= first.skip(1) + second);
        assert(both[0] == first[0]);
        if brings_targets(codec, surface, sanitized, both, current, result) {
            let next = choose|next: Option<LlmRequest>| #[trigger]
                brings_target(codec, surface, sanitized, both[0], current, next) && match next {
                    None => result is None,
                    Some(next) => brings_targets(
                        codec,
                        surface,
                        sanitized,
                        both.skip(1),
                        next,
                        result,
                    ),
                };
            match next {
                None => {
                    assert(brings_targets(codec, surface, sanitized, first, current, None));
                },
                Some(next) => {
                    targets_are_brought_one_by_one(
                        codec,
                        surface,
                        sanitized,
                        target,
                        first.skip(1),
                        second,
                        next,
                        result,
                    );
                    let middle = choose|middle: Option<LlmRequest>| #[trigger]
                        brings_targets(codec, surface, sanitized, first.skip(1), next, middle)
                            && match middle {
                            None => result is None,
                            Some(middle) => brings_targets(
                                codec,
                                surface,
                                sanitized,
                                second,
                                middle,
                                result,
                            ),
                        };
                    assert(brings_target(
                        codec,
                        surface,
                        sanitized,
                        first[0],
                        current,
                        Some(next),
                    ));
                    assert(brings_targets(codec, surface, sanitized, first, current, middle));
                },
            }
        }
        if exists|middle: Option<LlmRequest>| #[trigger]
            brings_targets(codec, surface, sanitized, first, current, middle) && match middle {
                None => result is None,
                Some(middle) => brings_targets(
                    codec,
                    surface,
                    sanitized,
                    second,
                    middle,
                    result,
                ),
            } {
            let middle = choose|middle: Option<LlmRequest>| #[trigger]
                brings_targets(codec, surface, sanitized, first, current, middle) && match middle {
                    None => result is None,
                    Some(middle) => brings_targets(
                        codec,
                        surface,
                        sanitized,
                        second,
                        middle,
                        result,
                    ),
                };
            let next = choose|next: Option<LlmRequest>| #[trigger]
                brings_target(codec, surface, sanitized, first[0], current, next) && match next {
                    None => middle is None,
                    Some(next) => brings_targets(
                        codec,
                        surface,
                        sanitized,
                        first.skip(1),
                        next,
                        middle,
                    ),
                };
            match next {
                Some(next) => {
                    targets_are_brought_one_by_one(
                        codec,
                        surface,
                        sanitized,
                        target,
                        first.skip(1),
                        second,
                        next,
                        result,
                    );
                },
                None => {},
            }
            assert(brings_target(codec, surface, sanitized, both[0], current, next));
            assert(brings_targets(codec, surface, sanitized, both, current, result));
        }
    }
}

/// Bringing over one target path. A text that is no pointer stops it; a pointer that leads nowhere
/// in the sanitized form changes nothing. Otherwise the request is decoded and written as JSON: if
/// it has an equal value there it stays, and if it has another one, the form with the sanitized
/// value put there is read and encoded over the request.
pub proof fn one_target_is_brought_over<C: LlmCodec>(
    codec: C,
    surface: ProviderSurface,
    sanitized: JsonView,
    target: Seq<char>,
    current: LlmRequest,
    result: Option<LlmRequest>,
)
    requires
        brings_target(codec, surface, sanitized, target, current, result),
    ensures
        pointer_keys(target) is None ==> result is None,
        pointer_keys(target) is Some && value_at(sanitized, pointer_keys(target)->Some_0) is None
            ==> result == Some(current),
        pointer_keys(target) is Some && value_at(sanitized, pointer_keys(target)->Some_0) is Some
            && result is Some ==> {
            let keys = pointer_keys(target)->Some_0;
            let wanted = value_at(sanitized, keys)->Some_0;
            exists|annotated: C::Annotated, json: Json| #[trigger]
                call_ensures(
                    C::decode,
                    (&codec, surface, &current),
                    Ok::<C::Annotated, FlowError>(annotated),
                ) && #[trigger] call_ensures(
                    C::to_value,
                    (&codec, &annotated),
                    Ok::<Json, String>(json),
                ) && value_at(json@, keys) is Some && if json_equal(
                    value_at(json@, keys)->Some_0,
                    wanted,
                ) {
                    result == Some(current)
                } else {
                    exists|changed: Json, updated: C::Annotated|
                        replaced_at(json@, keys, wanted) == Some(changed@)
                            && #[trigger] call_ensures(
                            C::from_value,
                            (&codec, changed),
                            Ok::<C::Annotated, String>(updated),
                        ) && #[trigger] call_ensures(
                            C::encode,
                            (&codec, surface, &updated, &current),
                            Ok::<LlmRequest, FlowError>(result->Some_0),
                        )
                }
        },
{
    if pointer_keys(target) is Some && value_at(sanitized, pointer_keys(target)->Some_0) is Some
        && result is Some {
        let keys = pointer_keys(target)->Some_0;
        let wanted = value_at(sanitized, keys)->Some_0;
        let decoded = choose|annotated: Result<C::Annotated, FlowError>| #[trigger]
            call_ensures(C::decode, (&codec, surface, &current), annotated) && match annotated {
                Err(_) => false,
                Ok(annotated) => exists|written: Result<Json, String>| #[trigger]
                    call_ensures(C::to_value, (&codec, &annotated), written) && match written {
                        Err(_) => false,
                        Ok(json) => crate::request::sets_target(
                            codec,
                            surface,
                            json@,
                            keys,
                            wanted,
                            current,
                            result,
                        ),
                    },
            };
        let annotated = decoded->Ok_0;
        assert(decoded == Ok::<C::Annotated, FlowError>(annotated));
        let written = choose|written: Result<Json, String>| #[trigger]
            call_ensures(C::to_value, (&codec, &annotated), written) && match written {
                Err(_) => false,
                Ok(json) => crate::request::sets_target(
                    codec,
                    surface,
                    json@,
                    keys,
                    wanted,
                    current,
                    result,
                ),
            };
        let json = written->Ok_0;
        assert(written == Ok::<Json, String>(json));
        if !json_equal(value_at(json@, keys)->Some_0, wanted) {
            let view = replaced_at(json@, keys, wanted)->Some_0;
            let changed = choose|changed: Json|
                changed@ == view && #[trigger] writes_changed(
                    codec,
                    surface,
                    changed,
                    current,
                    result,
                );
            let read = choose|updated: Result<C::Annotated, String>| #[trigger]
                call_ensures(C::from_value, (&codec, changed), updated) && match updated {
                    Err(_) => false,
                    Ok(updated) => crate::request::encodes(
                        codec,
                        surface,
                        updated,
                        current,
                        result,
                    ),
                };
            let updated = read->Ok_0;
            assert(read == Ok::<C::Annotated, String>(updated));
            let encoded = choose|encoded: Result<LlmRequest, FlowError>| #[trigger]
                call_ensures(C::encode, (&codec, surface, &updated, &current), encoded)
                    && match encoded {
                    Ok(request) => result == Some(request),
                    Err(_) => false,
                };
            assert(encoded == Ok::<LlmRequest, FlowError>(result->Some_0));
        }
    }
}

/// Whether bringing over one target path fails: its text is no pointer, or the request cannot be
/// decoded, written as JSON, changed there, read again or encoded.
pub proof fn one_target_is_not_brought_over<C: LlmCodec>(
    codec: C,
    surface: ProviderSurface,
    sanitized: JsonView,
    target: Seq<char>,
    current: LlmRequest,
)
    requires
        brings_target(codec, surface, sanitized, target, current, None),
        pointer_keys(target) is Some,
    ensures
        value_at(sanitized, pointer_keys(target)->Some_0) is Some,
        ({
            let keys = pointer_keys(target)->Some_0;
            let wanted = value_at(sanitized, keys)->Some_0;
            ||| exists|error: FlowError| #[trigger]
                call_ensures(
                    C::decode,
                    (&codec, surface, &current),
                    Err::<C::Annotated, FlowError>(error),
                )
            ||| exists|annotated: C::Annotated, text: String| #[trigger]
                call_ensures(
                    C::decode,
                    (&codec, surface, &current),
                    Ok::<C::Annotated, FlowError>(annotated),
                ) && #[trigger] call_ensures(
                    C::to_value,
                    (&codec, &annotated),
                    Err::<Json, String>(text),
                )
            ||| exists|annotated: C::Annotated, json: Json| #[trigger]
                call_ensures(
                    C::decode,
                    (&codec, surface, &current),
                    Ok::<C::Annotated, FlowError>(annotated),
                ) && #[trigger] call_ensures(
                    C::to_value,
                    (&codec, &annotated),
                    Ok::<Json, String>(json),
                ) && (value_at(json@, keys) is None || (!json_equal(
                    value_at(json@, keys)->Some_0,
                    wanted,
                ) && (replaced_at(json@, keys, wanted) is None || cannot_be_written(
                    codec,
                    surface,
                    replaced_at(json@, keys, wanted)->Some_0,
                    current,
                ))))
        }),
{
    let keys = pointer_keys(target)->Some_0;
    let wanted = value_at(sanitized, keys)->Some_0;
    let result: Option<LlmRequest> = None;
    let decoded = choose|annotated: Result<C::Annotated, FlowError>| #[trigger]
        call_ensures(C::decode, (&codec, surface, &current), annotated) && match annotated {
            Err(_) => true,
            Ok(annotated) => exists|written: Result<Json, String>| #[trigger]
                call_ensures(C::to_value, (&codec, &annotated), written) && match written {
                    Err(_) => true,
                    Ok(json) => crate::request::sets_target(
                        codec,
                        surface,
                        json@,
                        keys,
                        wanted,
                        current,
                        result,
                    ),
                },
        };
    match decoded {
        Err(error) => {
            assert(decoded == Err::<C::Annotated, FlowError>(error));
        },
        Ok(annotated) => {
            assert(decoded == Ok::<C::Annotated, FlowError>(annotated));
            let written = choose|written: Result<Json, String>| #[trigger]
                call_ensures(C::to_value, (&codec, &annotated), written) && match written {
                    Err(_) => true,
                    Ok(json) => crate::request::sets_target(
                        codec,
                        surface,
                        json@,
                        keys,
                        wanted,
                        current,
                        result,
                    ),
                };
            match written {
                Err(text) => {
                    assert(written == Err::<Json, String>(text));
                },
                Ok(json) => {
                    assert(written == Ok::<Json, String>(json));
                    if value_at(json@, keys) is Some && !json_equal(
                        value_at(json@, keys)->Some_0,
                        wanted,
                    ) && replaced_at(json@, keys, wanted) is Some {
                        let view = replaced_at(json@, keys, wanted)->Some_0;
                        let changed = choose|changed: Json|
                            changed@ == view && #[trigger] writes_changed(
                                codec,
                                surface,
                                changed,
                                current,
                                result,
                            );
                        let read = choose|updated: Result<C::Annotated, String>| #[trigger]
                            call_ensures(C::from_value, (&codec, changed), updated)
                                && match updated {
                                Err(_) => true,
                                Ok(updated) => crate::request::encodes(
                                    codec,
                                    surface,
                                    updated,
                                    current,
                                    result,
                                ),
                            };
                        match read {
                            Err(text) => {
                                assert(read == Err::<C::Annotated, String>(text));
                            },
                            Ok(updated) => {
                                assert(read == Ok::<C::Annotated, String>(updated));
                                let encoded = choose|encoded: Result<LlmRequest, FlowError>|
                                    #[trigger]
                                    call_ensures(
                                        C::encode,
                                        (&codec, surface, &updated, &current),
                                        encoded,
                                    ) && match encoded {
                                        Ok(request) => result == Some(request),
                                        Err(_) => true,
                                    };
                                assert(encoded == Err::<LlmRequest, FlowError>(encoded->Err_0));
                                assert(encode_fails(codec, surface, updated, current));
                            },
                        }
                        assert(cannot_be_written(codec, surface, view, current));
                    }
                },
            }
        },
    }
}

/// Whether the codec can fail to read a changed JSON form or to encode what it reads.
pub open spec fn cannot_be_written<C: LlmCodec>(
    codec: C,
    surface: ProviderSurface,
    changed: JsonView,
    current: LlmRequest,
) -> bool {
    ||| exists|json: Json, text: String|
        json@ == changed && #[trigger] call_ensures(
            C::from_value,
            (&codec, json),
            Err::<C::Annotated, String>(text),
        )
    ||| exists|json: Json, updated: C::Annotated|
        json@ == changed && #[trigger] call_ensures(
            C::from_value,
            (&codec, json),
            Ok::<C::Annotated, String>(updated),
        ) && encode_fails(codec, surface, updated, current)
}

/// The surface of the active codec is used where one is active, and the configured one where none
/// is; what a payload looks like is asked for only where that decides; and the configured codec is
/// for the payloads of its own surface.
pub proof fn surface_in_a_setting(
    backend: CompiledBuiltinBackend,
    context: LlmSanitizeContext,
    detected: Option<ProviderSurface>,
    selected: Option<ProviderSurface>,
    needed: bool,
    compatible: bool,
)
    requires
        call_ensures(CompiledBuiltinBackend::selected_surface, (&backend, &context), selected),
        call_ensures(CompiledBuiltinBackend::needs_detected_surface, (&backend, &context), needed),
        call_ensures(
            CompiledBuiltinBackend::uses_compatible_legacy_codec,
            (&backend, detected),
            compatible,
        ),
    ensures
        context.has_active_codec && context.codec is Some ==> selected
            == context.codec->Some_0.surface,
        context.has_active_codec && context.codec is None ==> selected is None,
        !context.has_active_codec ==> selected == backend.legacy_surface,
        needed <==> backend.trajectory is None && backend.target_paths@.len() > 0
            && !context.has_active_codec && backend.legacy_surface is Some,
        compatible <==> backend.legacy_surface is Some && detected is Some
            && backend.legacy_surface->Some_0 == detected->Some_0,
{
    assert(backend@.target_paths.len() == backend.target_paths@.len());
}

/// Each reason for leaving a payload out has its own words.
pub proof fn reasons_in_words(reason: Omission, text: &'static str)
    requires
        call_ensures(Omission::reason, (reason,), text),
    ensures
        reason is NoCompatibleCodec ==> text@ == "no compatible legacy codec"@,
        reason is CodecFailure ==> text@ == "codec decode, sanitize, or encode failure"@,
{
}

/// A response that is ready after a codec was asked: the backend's pass over the payload with an
/// annotated form laid over it, which is what is read from the JSON form of the decoded payload
/// after the backend has worked on that.
pub proof fn ready_response_has_the_sanitized_form<C: LlmResponseCodec, M: DetectorMasks>(
    backend: CompiledBuiltinBackend,
    payload: Json,
    context: LlmSanitizeContext,
    detected: Option<ProviderSurface>,
    codec: C,
    masks: M,
    ready: Json,
    surface: Option<ProviderSurface>,
)
    requires
        call_ensures(
            llm_sanitize_response_callback::<C, M>,
            (&backend, payload, &context, detected, &codec, &masks),
            Outcome::Ready(ready),
        ),
        backend.target_paths@.len() > 0,
        surface == if context.has_active_codec {
            match context.codec {
                Some(codec) => codec.surface,
                None => None,
            }
        } else {
            backend.legacy_surface
        },
    ensures
        backend.trajectory is None,
        surface is Some,
        exists|
            annotated: C::Annotated,
            json: Json,
            left: Json,
            sanitized: C::Annotated,
            body: Json,
        |
            #[trigger] call_ensures(
                C::decode_response,
                (&codec, surface->Some_0, &payload),
                Ok::<C::Annotated, FlowError>(annotated),
            ) && #[trigger] call_ensures(
                C::to_value,
                (&codec, &annotated),
                Ok::<Json, String>(json),
            ) && sanitizes(backend@, masks, json@, left@) && #[trigger] call_ensures(
                C::from_value,
                (&codec, left),
                Ok::<C::Annotated, String>(sanitized),
            ) && #[trigger] call_ensures(
                C::overlay_response_payload,
                (&codec, surface->Some_0, payload, &sanitized),
                body,
            ) && sanitizes(backend@, masks, body@, ready@),
{
    response_is_redacted(
        backend,
        payload,
        context,
        detected,
        codec,
        masks,
        Outcome::Ready(ready),
    );
    let body = choose|body: Json| #[trigger]
        overlays_response(backend@, masks, codec, context@, payload, Some(body)) && sanitizes(
            backend@,
            masks,
            body@,
            ready@,
        );
    sanitized_form_is_laid_over(backend, context, payload, codec, masks, body, surface);
}

/// Where a codec reads back what it encoded, and a JSON form comes back from the value that it is
/// read as, the annotated form of the sanitized request has, at the end of each path to a text,
/// what the action makes of the text there where that is a target, and the text where not.
pub proof fn encoded_request_reads_sanitized<C: LlmCodec, M: DetectorMasks>(
    backend: CompiledBuiltinBackend,
    context: LlmSanitizeContext,
    request: LlmRequest,
    codec: C,
    masks: M,
    result: Option<LlmRequest>,
    model: CodecModel<C::Annotated>,
    surface: ProviderSurface,
    before: JsonView,
    keys: Seq<Seq<char>>,
    text: Seq<char>,
)
    requires
        call_ensures(
            CompiledBuiltinBackend::sanitize_request_with_codec::<C, M>,
            (&backend, &context, &request, &codec, &masks),
            result,
        ),
        result is Some,
        describes_codec(codec, model),
        forall|annotated: C::Annotated| (model.encode)(surface, annotated, request@) is Some
            && (model.decode)(
            surface,
            (#[trigger] (model.encode)(surface, annotated, request@))->Some_0,
        ) == Some(annotated),
        forall|json: JsonView|
            (#[trigger] (model.form.from_value)(json)) matches Ok(annotated) ==> (
            model.form.to_value)(annotated) == Ok::<JsonView, Seq<char>>(json),
        surface == if context.has_active_codec {
            context.codec->Some_0.surface->Some_0
        } else {
            backend.legacy_surface->Some_0
        },
        (model.decode)(surface, request@) is Some,
        (model.form.to_value)((model.decode)(surface, request@)->Some_0) == Ok::<
            JsonView,
            Seq<char>,
        >(before),
        unique_keys(before),
        value_at(before, keys) == Some(JsonView::String(text)),
        !(backend.action is Remove),
    ensures
        (model.decode)(surface, result->Some_0@) matches Some(annotated) && (model.form.to_value)(
            annotated,
        ) matches Ok(after) && value_at(after, keys) matches Some(JsonView::String(output))
            && if texts(backend.target_paths@).len() == 0 || texts(
            backend.target_paths@,
        ).contains(rendered(pointer_to(before, keys))) {
            sanitizes_text(backend.action@, masks, text, Some(output))
        } else {
            output == text
        },
{
    let written = result->Some_0;
    assert(result == Some(written));
    let selected = crate::request::surface_for(backend@, context@);
    sanitized_form_is_encoded(backend, context, request, codec, masks, written, selected);
    let (annotated, json, left, sanitized) = choose|
        annotated: C::Annotated,
        json: Json,
        left: Json,
        sanitized: C::Annotated,
    |
        #[trigger] call_ensures(
            C::decode,
            (&codec, surface, &request),
            Ok::<C::Annotated, FlowError>(annotated),
        ) && #[trigger] call_ensures(C::to_value, (&codec, &annotated), Ok::<Json, String>(json))
            && #[trigger] sanitizes(backend@, masks, json@, left@) && #[trigger] call_ensures(
            C::from_value,
            (&codec, left),
            Ok::<C::Annotated, String>(sanitized),
        ) && (call_ensures(
            C::encode,
            (&codec, surface, &sanitized, &request),
            Ok::<LlmRequest, FlowError>(written),
        ) || (encode_fails(codec, surface, sanitized, request) && brings_over(
            backend@,
            codec,
            surface,
            request@,
            sanitized,
            Some(written),
        )));
    assert((model.decode)(surface, request@) == Some(annotated));
    assert((model.form.to_value)(annotated) == Ok::<JsonView, Seq<char>>(json@));
    assert((model.form.from_value)(left@) == Ok::<C::Annotated, Seq<char>>(sanitized));
    assert((model.encode)(surface, sanitized, request@) is Some);
    assert(!encode_fails(codec, surface, sanitized, request));
    assert((model.encode)(surface, sanitized, request@) == Some(written@));
    each_text_by_its_path(backend@, masks, before, keys, text, left@);
}

} // verus!
