//! Responses of large language models, and their sanitizing by way of a codec.
use vstd::prelude::*;

use crate::backend::{fits, BackendView, CompiledBuiltinBackend};
use crate::config::{PluginError, ProviderSurface};
use crate::flow::FlowError;
use crate::json::{option_view, Json, JsonView};
use crate::mask::{DetectorMasks, MaskModel};
use crate::request::{surface_for, ContextView, LlmSanitizeContext};
use crate::serial::{
    describes_form, sanitize_serializable_with_backend, sanitized_value, sanitizes_value,
    FormModel, JsonForm,
};

verus! {

/// The response codecs, by surface: each reads a payload as an annotated response, and lays an
/// annotated response over a payload.
pub trait LlmResponseCodec: JsonForm<Self::Annotated> + Sized {
    type Annotated;

    /// Reads a payload.
    fn decode_response(&self, surface: ProviderSurface, payload: &Json) -> Result<
        Self::Annotated,
        FlowError,
    >;

    /// Lays an annotated response over a payload.
    fn overlay_response_payload(
        &self,
        surface: ProviderSurface,
        payload: Json,
        annotated: &Self::Annotated,
    ) -> Json;
}

/// The response codecs as functions.
#[verifier::reject_recursive_types(A)]
pub struct ResponseCodecModel<A> {
    pub form: FormModel<A>,
    pub decode: spec_fn(ProviderSurface, JsonView) -> Option<A>,
    pub overlay: spec_fn(ProviderSurface, JsonView, A) -> JsonView,
}

/// Whether `model` gives what `codec` returns for each argument.
pub open spec fn describes_response_codec<C: LlmResponseCodec>(
    codec: C,
    model: ResponseCodecModel<C::Annotated>,
) -> bool {
    &&& describes_form(codec, model.form)
    &&& forall|
        surface: ProviderSurface,
        payload: &Json,
        result: Result<C::Annotated, FlowError>,
    |
        #[trigger] call_ensures(C::decode_response, (&codec, surface, payload), result) ==> (
        match result {
            Ok(annotated) => Some(annotated),
            Err(_) => None,
        }) == (model.decode)(surface, payload@)
    &&& forall|surface: ProviderSurface, payload: Json, annotated: &C::Annotated, result: Json|
        #[trigger] call_ensures(
            C::overlay_response_payload,
            (&codec, surface, payload, annotated),
            result,
        ) ==> result@ == (model.overlay)(surface, payload@, *annotated)
}

/// Whether `model` can be used for the codec: it describes it, or the codec is not asked.
pub open spec fn fits_response_codec<C: LlmResponseCodec>(
    asked: bool,
    codec: C,
    model: ResponseCodecModel<C::Annotated>,
) -> bool {
    asked ==> describes_response_codec(codec, model)
}

/// The payload with its sanitized annotated form laid over it.
pub open spec fn overlaid_response<A>(
    backend: BackendView,
    masks: MaskModel,
    codec: ResponseCodecModel<A>,
    context: ContextView,
    payload: JsonView,
) -> Option<JsonView> {
    match surface_for(backend, context) {
        None => None,
        Some(surface) => match (codec.decode)(surface, payload) {
            None => None,
            Some(annotated) => match sanitized_value(backend, masks, codec.form, annotated) {
                Err(_) => None,
                Ok(annotated) => Some((codec.overlay)(surface, payload, annotated)),
            },
        },
    }
}

/// Whether `result` is the payload with its sanitized annotated form laid over it.
pub open spec fn overlays_response<C: LlmResponseCodec, M: DetectorMasks>(
    backend: BackendView,
    masks: M,
    codec: C,
    context: ContextView,
    payload: Json,
    result: Option<Json>,
) -> bool {
    match surface_for(backend, context) {
        None => result is None,
        Some(surface) => exists|annotated: Result<C::Annotated, FlowError>| #[trigger]
            call_ensures(C::decode_response, (&codec, surface, &payload), annotated)
                && match annotated {
                Err(_) => result is None,
                Ok(annotated) => exists|sanitized: Result<C::Annotated, PluginError>| #[trigger]
                    sanitizes_value(backend, masks, codec, annotated, sanitized)
                        && match sanitized {
                        Err(_) => result is None,
                        Ok(sanitized) => result is Some && call_ensures(
                            C::overlay_response_payload,
                            (&codec, surface, payload, &sanitized),
                            result->Some_0,
                        ),
                    },
            },
    }
}

impl CompiledBuiltinBackend {
    /// Lays the sanitized annotated form of a payload over the payload.
    pub fn sanitize_response_with_codec<C: LlmResponseCodec, M: DetectorMasks>(
        &self,
        context: &LlmSanitizeContext,
        payload: Json,
        codec: &C,
        masks: &M,
    ) -> (result: Option<Json>)
        ensures
            overlays_response(self@, *masks, *codec, context@, payload, result),
            forall|model: MaskModel, codecs: ResponseCodecModel<C::Annotated>|
                #[trigger] fits(self@.action, *masks, model) && #[trigger] fits_response_codec(
                    surface_for(self@, context@) is Some,
                    *codec,
                    codecs,
                ) ==> option_view(result) == overlaid_response(
                    self@,
                    model,
                    codecs,
                    context@,
                    payload@,
                ),
    {
        let surface: ProviderSurface = match self.selected_surface(context) {
            Some(surface) => surface,
            None => {
                return None;
            },
        };
        let annotated: C::Annotated = match codec.decode_response(surface, &payload) {
            Ok(annotated) => annotated,
            Err(_) => {
                return None;
            },
        };
        let sanitizing: Result<C::Annotated, PluginError> = sanitize_serializable_with_backend(
            self,
            &annotated,
            codec,
            masks,
        );
        assert(sanitizes_value(self@, *masks, *codec, annotated, sanitizing));
        match sanitizing {
            Ok(sanitized) => Some(codec.overlay_response_payload(surface, payload, &sanitized)),
            Err(_) => None,
        }
    }
}

} // verus!
