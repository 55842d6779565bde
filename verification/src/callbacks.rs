//! What the built-in backend does with the payload of each kind of callback.
use vstd::prelude::*;

use crate::backend::{fits, sanitized_whole, sanitizes, BackendView, CompiledBuiltinBackend};
use crate::config::ProviderSurface;
use crate::json::{Json, JsonView};
use crate::mask::{DetectorMasks, MaskModel};
use crate::request::{
    fits_codec, sanitized_request, sanitizes_request, surface_for, CodecModel, ContextView,
    LlmCodec, LlmRequest, LlmSanitizeContext, RequestView,
};
use crate::response::{
    fits_response_codec, overlaid_response, overlays_response, LlmResponseCodec, ResponseCodecModel,
};

verus! {

/// What becomes of a payload.
#[derive(Debug)]
pub enum Outcome<T> {
    /// It is for the trajectory sanitizer.
    Trajectory(T),
    /// It is ready for the event.
    Ready(T),
    /// It is left out of the event.
    Omitted(Omission),
}

/// Why a payload is left out.
#[derive(Clone, Copy, Debug, PartialEq, Eq, Structural)]
pub enum Omission {
    /// No codec is active, and the configured one is not for this payload.
    NoCompatibleCodec,
    /// The codec could not read, sanitize or write the payload.
    CodecFailure,
}

impl Omission {
    /// The reason in words.
    pub fn reason(self) -> (text: &'static str)
        ensures
            text@ == match self {
                Omission::NoCompatibleCodec => "no compatible legacy codec"@,
                Omission::CodecFailure => "codec decode, sanitize, or encode failure"@,
            },
    {
        match self {
            Omission::NoCompatibleCodec => "no compatible legacy codec",
            Omission::CodecFailure => "codec decode, sanitize, or encode failure",
        }
    }
}

/// The outcome for a JSON payload as a mathematical value.
pub open spec fn json_outcome(outcome: Outcome<Json>) -> Outcome<JsonView> {
    match outcome {
        Outcome::Trajectory(value) => Outcome::Trajectory(value@),
        Outcome::Ready(value) => Outcome::Ready(value@),
        Outcome::Omitted(reason) => Outcome::Omitted(reason),
    }
}

/// The outcome for a request as a mathematical value.
pub open spec fn request_outcome(outcome: Outcome<LlmRequest>) -> Outcome<RequestView> {
    match outcome {
        Outcome::Trajectory(value) => Outcome::Trajectory(value@),
        Outcome::Ready(value) => Outcome::Ready(value@),
        Outcome::Omitted(reason) => Outcome::Omitted(reason),
    }
}

/// What becomes of the payload of a tool call.
pub open spec fn tool_outcome(
    backend: BackendView,
    masks: MaskModel,
    payload: JsonView,
) -> Outcome<JsonView> {
    if backend.trajectory is Some {
        Outcome::Trajectory(payload)
    } else {
        Outcome::Ready(sanitized_whole(backend, masks, payload))
    }
}

/// Whether the configured codec is for a payload of the detected surface.
pub open spec fn legacy_codec_fits(
    backend: BackendView,
    detected: Option<ProviderSurface>,
) -> bool {
    backend.legacy_surface is Some && detected == backend.legacy_surface
}

/// Whether a codec is needed for a payload and there is one to ask.
pub open spec fn asks_codec(
    backend: BackendView,
    context: ContextView,
    detected: Option<ProviderSurface>,
) -> bool {
    &&& backend.trajectory is None
    &&& backend.target_paths.len() > 0
    &&& context.has_active_codec || legacy_codec_fits(backend, detected)
    &&& surface_for(backend, context) is Some
}

/// What becomes of a request. Without target paths its body is sanitized as it is; with target
/// paths, which speak of the annotated form, a codec is needed.
pub open spec fn llm_request_outcome<A>(
    backend: BackendView,
    masks: MaskModel,
    codec: CodecModel<A>,
    context: ContextView,
    detected: Option<ProviderSurface>,
    request: RequestView,
) -> Outcome<RequestView> {
    if backend.trajectory is Some {
        Outcome::Trajectory(request)
    } else if backend.target_paths.len() == 0 {
        Outcome::Ready(
            RequestView {
                headers: request.headers,
                content: sanitized_whole(backend, masks, request.content),
            },
        )
    } else if !context.has_active_codec && !legacy_codec_fits(backend, detected) {
        Outcome::Omitted(Omission::NoCompatibleCodec)
    } else {
        match sanitized_request(backend, masks, codec, context, request) {
            Some(request) => Outcome::Ready(request),
            None => Outcome::Omitted(Omission::CodecFailure),
        }
    }
}

/// What becomes of a response. With target paths the sanitized annotated form is laid over the
/// payload, and the payload is then sanitized too.
pub open spec fn llm_response_outcome<A>(
    backend: BackendView,
    masks: MaskModel,
    codec: ResponseCodecModel<A>,
    context: ContextView,
    detected: Option<ProviderSurface>,
    payload: JsonView,
) -> Outcome<JsonView> {
    if backend.trajectory is Some {
        Outcome::Trajectory(payload)
    } else if backend.target_paths.len() == 0 {
        Outcome::Ready(sanitized_whole(backend, masks, payload))
    } else if !context.has_active_codec && !legacy_codec_fits(backend, detected) {
        Outcome::Omitted(Omission::NoCompatibleCodec)
    } else {
        match overlaid_response(backend, masks, codec, context, payload) {
            Some(payload) => Outcome::Ready(sanitized_whole(backend, masks, payload)),
            None => Outcome::Omitted(Omission::CodecFailure),
        }
    }
}

/// Whether `outcome` is what becomes of the payload of a tool call.
pub open spec fn tool_becomes<M: DetectorMasks>(
    backend: BackendView,
    masks: M,
    payload: Json,
    outcome: Outcome<Json>,
) -> bool {
    if backend.trajectory is Some {
        outcome == Outcome::Trajectory(payload)
    } else {
        outcome matches Outcome::Ready(ready) && sanitizes(backend, masks, payload@, ready@)
    }
}

/// Whether `outcome` is what becomes of a request.
pub open spec fn request_becomes<C: LlmCodec, M: DetectorMasks>(
    backend: BackendView,
    masks: M,
    codec: C,
    context: ContextView,
    detected: Option<ProviderSurface>,
    request: LlmRequest,
    outcome: Outcome<LlmRequest>,
) -> bool {
    if backend.trajectory is Some {
        outcome == Outcome::Trajectory(request)
    } else if backend.target_paths.len() == 0 {
        outcome matches Outcome::Ready(ready) && ready.headers == request.headers && sanitizes(
            backend,
            masks,
            request.content@,
            ready.content@,
        )
    } else if !context.has_active_codec && !legacy_codec_fits(backend, detected) {
        outcome == Outcome::<LlmRequest>::Omitted(Omission::NoCompatibleCodec)
    } else {
        exists|result: Option<LlmRequest>| #[trigger]
            sanitizes_request(backend, masks, codec, context, request, result) && outcome
                == match result {
                Some(request) => Outcome::Ready(request),
                None => Outcome::Omitted(Omission::CodecFailure),
            }
    }
}

/// Whether `outcome` is what becomes of a response.
pub open spec fn response_becomes<C: LlmResponseCodec, M: DetectorMasks>(
    backend: BackendView,
    masks: M,
    codec: C,
    context: ContextView,
    detected: Option<ProviderSurface>,
    payload: Json,
    outcome: Outcome<Json>,
) -> bool {
    if backend.trajectory is Some {
        outcome == Outcome::Trajectory(payload)
    } else if backend.target_paths.len() == 0 {
        outcome matches Outcome::Ready(ready) && sanitizes(backend, masks, payload@, ready@)
    } else if !context.has_active_codec && !legacy_codec_fits(backend, detected) {
        outcome == Outcome::<Json>::Omitted(Omission::NoCompatibleCodec)
    } else {
        exists|overlaid: Option<Json>| #[trigger]
            overlays_response(backend, masks, codec, context, payload, overlaid)
                && match overlaid {
                Some(body) => outcome matches Outcome::Ready(ready) && sanitizes(
                    backend,
                    masks,
                    body@,
                    ready@,
                ),
                None => outcome == Outcome::<Json>::Omitted(Omission::CodecFailure),
            }
    }
}

/// The outcome for the payload of a tool call.
pub fn tool_sanitize_callback<M: DetectorMasks>(
    backend: &CompiledBuiltinBackend,
    payload: Json,
    masks: &M,
) -> (outcome: Outcome<Json>)
    ensures
        tool_becomes(backend@, *masks, payload, outcome),
        forall|model: MaskModel|
            #[trigger] fits(backend@.action, *masks, model) ==> json_outcome(outcome)
                == tool_outcome(backend@, model, payload@),
{
    if backend.trajectory.is_some() {
        Outcome::Trajectory(payload)
    } else {
        Outcome::Ready(backend.sanitize_json_preorder_dfs(payload, masks))
    }
}

/// Whether it matters which surface a payload looks like.
pub open spec fn detection_matters(backend: BackendView, context: ContextView) -> bool {
    &&& backend.trajectory is None
    &&& backend.target_paths.len() > 0
    &&& !context.has_active_codec
    &&& backend.legacy_surface is Some
}

impl CompiledBuiltinBackend {
    /// Whether it matters which surface a payload looks like.
    pub fn needs_detected_surface(&self, context: &LlmSanitizeContext) -> (needed: bool)
        ensures
            needed == detection_matters(self@, context@),
    {
        self.trajectory.is_none() && self.target_paths.len() > 0 && !context.has_active_codec
            && self.legacy_surface.is_some()
    }

    /// Whether the configured codec is for a payload of the detected surface.
    pub fn uses_compatible_legacy_codec(&self, detected: Option<ProviderSurface>) -> (compatible:
        bool)
        ensures
            compatible == legacy_codec_fits(self@, detected),
    {
        match (self.legacy_surface, detected) {
            (Some(configured), Some(detected)) => configured == detected,
            _ => false,
        }
    }
}

/// The outcome for a request. `detected` is the surface that its body looks like.
pub fn llm_sanitize_request_callback<C: LlmCodec, M: DetectorMasks>(
    backend: &CompiledBuiltinBackend,
    request: LlmRequest,
    context: &LlmSanitizeContext,
    detected: Option<ProviderSurface>,
    codec: &C,
    masks: &M,
) -> (outcome: Outcome<LlmRequest>)
    ensures
        request_becomes(backend@, *masks, *codec, context@, detected, request, outcome),
        forall|model: MaskModel, codecs: CodecModel<C::Annotated>|
            #[trigger] fits(backend@.action, *masks, model) && #[trigger] fits_codec(
                asks_codec(backend@, context@, detected),
                *codec,
                codecs,
            ) ==> request_outcome(outcome) == llm_request_outcome(
                backend@,
                model,
                codecs,
                context@,
                detected,
                request@,
            ),
{
    if backend.trajectory.is_some() {
        return Outcome::Trajectory(request);
    }
    if backend.target_paths.len() == 0 {
        let content: Json = backend.sanitize_json_preorder_dfs(request.content, masks);
        return Outcome::Ready(LlmRequest { headers: request.headers, content });
    }
    if !context.has_active_codec && !backend.uses_compatible_legacy_codec(detected) {
        return Outcome::Omitted(Omission::NoCompatibleCodec);
    }
    let result: Option<LlmRequest> = backend.sanitize_request_with_codec(
        context,
        &request,
        codec,
        masks,
    );
    assert(sanitizes_request(backend@, *masks, *codec, context@, request, result));
    match result {
        Some(request) => Outcome::Ready(request),
        None => Outcome::Omitted(Omission::CodecFailure),
    }
}

/// The outcome for a response. `detected` is the surface that the payload looks like.
pub fn llm_sanitize_response_callback<C: LlmResponseCodec, M: DetectorMasks>(
    backend: &CompiledBuiltinBackend,
    payload: Json,
    context: &LlmSanitizeContext,
    detected: Option<ProviderSurface>,
    codec: &C,
    masks: &M,
) -> (outcome: Outcome<Json>)
    ensures
        response_becomes(backend@, *masks, *codec, context@, detected, payload, outcome),
        forall|model: MaskModel, codecs: ResponseCodecModel<C::Annotated>|
            #[trigger] fits(backend@.action, *masks, model) && #[trigger] fits_response_codec(
                asks_codec(backend@, context@, detected),
                *codec,
                codecs,
            ) ==> json_outcome(outcome) == llm_response_outcome(
                backend@,
                model,
                codecs,
                context@,
                detected,
                payload@,
            ),
{
    if backend.trajectory.is_some() {
        return Outcome::Trajectory(payload);
    }
    if backend.target_paths.len() == 0 {
        return Outcome::Ready(backend.sanitize_json_preorder_dfs(payload, masks));
    }
    if !context.has_active_codec && !backend.uses_compatible_legacy_codec(detected) {
        return Outcome::Omitted(Omission::NoCompatibleCodec);
    }
    let overlaid: Option<Json> = backend.sanitize_response_with_codec(
        context,
        payload,
        codec,
        masks,
    );
    assert(overlays_response(backend@, *masks, *codec, context@, payload, overlaid));
    match overlaid {
        Some(payload) => Outcome::Ready(backend.sanitize_json_preorder_dfs(payload, masks)),
        None => Outcome::Omitted(Omission::CodecFailure),
    }
}

/// Without a codec for it, a payload that target paths speak of is left out of the event.
pub proof fn payload_without_codec_is_omitted<C: LlmCodec, R: LlmResponseCodec, M: DetectorMasks>(
    backend: BackendView,
    masks: M,
    codec: C,
    responses: R,
    context: ContextView,
    detected: Option<ProviderSurface>,
    request: LlmRequest,
    payload: Json,
    for_request: Outcome<LlmRequest>,
    for_response: Outcome<Json>,
)
    requires
        backend.trajectory is None,
        backend.target_paths.len() > 0,
        !asks_codec(backend, context, detected),
        request_becomes(backend, masks, codec, context, detected, request, for_request),
        response_becomes(backend, masks, responses, context, detected, payload, for_response),
    ensures
        for_request is Omitted,
        for_response is Omitted,
{
}

/// A payload that is ready for the event went through the backend: the body of a request as it is
/// or by way of its annotated form, and a response as it is or with its sanitized annotated form
/// laid over it.
pub proof fn ready_payload_is_sanitized<C: LlmCodec, R: LlmResponseCodec, M: DetectorMasks>(
    backend: BackendView,
    masks: M,
    codec: C,
    responses: R,
    context: ContextView,
    detected: Option<ProviderSurface>,
    request: LlmRequest,
    payload: Json,
    ready_request: LlmRequest,
    ready_response: Json,
)
    requires
        request_becomes(
            backend,
            masks,
            codec,
            context,
            detected,
            request,
            Outcome::Ready(ready_request),
        ),
        response_becomes(
            backend,
            masks,
            responses,
            context,
            detected,
            payload,
            Outcome::Ready(ready_response),
        ),
    ensures
        if backend.target_paths.len() == 0 {
            sanitizes(backend, masks, request.content@, ready_request.content@)
        } else {
            sanitizes_request(backend, masks, codec, context, request, Some(ready_request))
        },
        if backend.target_paths.len() == 0 {
            sanitizes(backend, masks, payload@, ready_response@)
        } else {
            exists|body: Json| #[trigger]
                sanitizes(backend, masks, body@, ready_response@) && overlays_response(
                    backend,
                    masks,
                    responses,
                    context,
                    payload,
                    Some(body),
                )
        },
{
}

/// Where it does not matter which surface a payload looks like, any detected surface gives the same
/// outcomes.
pub proof fn detection_is_asked_where_it_matters<
    C: LlmCodec,
    R: LlmResponseCodec,
    M: DetectorMasks,
>(
    backend: BackendView,
    masks: M,
    codec: C,
    responses: R,
    context: ContextView,
    detected: Option<ProviderSurface>,
    request: LlmRequest,
    payload: Json,
    for_request: Outcome<LlmRequest>,
    for_response: Outcome<Json>,
)
    requires
        !detection_matters(backend, context),
    ensures
        request_becomes(backend, masks, codec, context, detected, request, for_request)
            == request_becomes(backend, masks, codec, context, None, request, for_request),
        response_becomes(backend, masks, responses, context, detected, payload, for_response)
            == response_becomes(backend, masks, responses, context, None, payload, for_response),
{
}

} // verus!
