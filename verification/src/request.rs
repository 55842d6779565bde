//! Requests to large language models, and their sanitizing by way of a codec.
use vstd::prelude::*;

use crate::backend::{fits, BackendView, CompiledBuiltinBackend};
use crate::config::{CodecSetting, CodecView, PluginError, ProviderSurface};
use crate::flow::FlowError;
use crate::json::{json_equal, same_json, Json, JsonView};
use crate::mask::{DetectorMasks, MaskModel};
use crate::place::{
    replace_sanitized_json_pointer_value, replaced_at, replaced_value_is_read,
    sanitized_json_pointer_value, value_at,
};
use crate::pointer::{json_pointer_segments, pointer_keys};
use crate::serial::{
    describes_form, sanitize_serializable_with_backend, sanitized_value, sanitizes_value,
    FormModel, JsonForm,
};
use crate::setup::codec_view;
use crate::text::texts;

verus! {

/// A request to a model: its headers and its body.
#[derive(Debug)]
pub struct LlmRequest {
    pub headers: Json,
    pub content: Json,
}

/// A request as a mathematical value.
#[verifier::ext_equal]
pub struct RequestView {
    pub headers: JsonView,
    pub content: JsonView,
}

impl View for LlmRequest {
    type V = RequestView;

    open spec fn view(&self) -> RequestView {
        RequestView { headers: self.headers@, content: self.content@ }
    }
}

impl LlmRequest {
    /// A second copy of the request.
    pub fn copy(&self) -> (other: LlmRequest)
        ensures
            other@ == self@,
    {
        LlmRequest { headers: self.headers.copy(), content: self.content.copy() }
    }
}

/// The view of an optional request.
pub open spec fn request_view(request: Option<LlmRequest>) -> Option<RequestView> {
    match request {
        Some(request) => Some(request@),
        None => None,
    }
}

/// In what setting a payload is sanitized: whether a codec is active, and which one.
#[derive(Debug)]
pub struct LlmSanitizeContext {
    pub has_active_codec: bool,
    pub codec: Option<CodecSetting>,
}

/// A setting as a mathematical value.
pub struct ContextView {
    pub has_active_codec: bool,
    pub codec: Option<CodecView>,
}

impl View for LlmSanitizeContext {
    type V = ContextView;

    open spec fn view(&self) -> ContextView {
        ContextView { has_active_codec: self.has_active_codec, codec: codec_view(self.codec) }
    }
}

/// The request codecs, by surface: each reads a request as an annotated request, and writes an
/// annotated request over the request it was read from.
pub trait LlmCodec: JsonForm<Self::Annotated> + Sized {
    type Annotated;

    /// Reads a request.
    fn decode(&self, surface: ProviderSurface, request: &LlmRequest) -> Result<
        Self::Annotated,
        FlowError,
    >;

    /// Writes an annotated request.
    fn encode(
        &self,
        surface: ProviderSurface,
        annotated: &Self::Annotated,
        original: &LlmRequest,
    ) -> Result<LlmRequest, FlowError>;
}

/// The request codecs as functions.
#[verifier::reject_recursive_types(A)]
pub struct CodecModel<A> {
    pub form: FormModel<A>,
    pub decode: spec_fn(ProviderSurface, RequestView) -> Option<A>,
    pub encode: spec_fn(ProviderSurface, A, RequestView) -> Option<RequestView>,
}

/// Whether `model` gives what `codec` returns for each argument.
pub open spec fn describes_codec<C: LlmCodec>(codec: C, model: CodecModel<C::Annotated>) -> bool {
    &&& describes_form(codec, model.form)
    &&& forall|
        surface: ProviderSurface,
        request: &LlmRequest,
        result: Result<C::Annotated, FlowError>,
    |
        #[trigger] call_ensures(C::decode, (&codec, surface, request), result) ==> (match result {
            Ok(annotated) => Some(annotated),
            Err(_) => None,
        }) == (model.decode)(surface, request@)
    &&& forall|
        surface: ProviderSurface,
        annotated: &C::Annotated,
        original: &LlmRequest,
        result: Result<LlmRequest, FlowError>,
    |
        #[trigger] call_ensures(C::encode, (&codec, surface, annotated, original), result) ==> (
        match result {
            Ok(request) => Some(request@),
            Err(_) => None,
        }) == (model.encode)(surface, *annotated, original@)
}

/// Whether `model` can be used for the codec: it describes it, or the codec is not asked.
pub open spec fn fits_codec<C: LlmCodec>(
    asked: bool,
    codec: C,
    model: CodecModel<C::Annotated>,
) -> bool {
    asked ==> describes_codec(codec, model)
}

/// The surface to use: that of the active codec, or else the one that was configured.
pub open spec fn surface_for(backend: BackendView, context: ContextView) -> Option<ProviderSurface> {
    if context.has_active_codec {
        match context.codec {
            Some(codec) => codec.surface,
            None => None,
        }
    } else {
        backend.legacy_surface
    }
}

/// The request `current` after one target path was brought over from the sanitized annotated
/// request. A path that leads nowhere there changes nothing.
pub open spec fn with_target<A>(
    codec: CodecModel<A>,
    surface: ProviderSurface,
    sanitized: JsonView,
    target: Seq<char>,
    current: RequestView,
) -> Option<RequestView> {
    match pointer_keys(target) {
        None => None,
        Some(keys) => match value_at(sanitized, keys) {
            None => Some(current),
            Some(wanted) => match (codec.decode)(surface, current) {
                None => None,
                Some(annotated) => match (codec.form.to_value)(annotated) {
                    Err(_) => None,
                    Ok(json) => match value_at(json, keys) {
                        None => None,
                        Some(value) => if json_equal(value, wanted) {
                            Some(current)
                        } else {
                            match replaced_at(json, keys, wanted) {
                                None => None,
                                Some(changed) => match (codec.form.from_value)(changed) {
                                    Err(_) => None,
                                    Ok(updated) => (codec.encode)(surface, updated, current),
                                },
                            }
                        },
                    },
                },
            },
        },
    }
}

/// The request `current` after the target paths were brought over one by one.
pub open spec fn with_targets<A>(
    codec: CodecModel<A>,
    surface: ProviderSurface,
    sanitized: JsonView,
    targets: Seq<Seq<char>>,
    current: RequestView,
) -> Option<RequestView>
    decreases targets.len(),
{
    if targets.len() == 0 {
        Some(current)
    } else {
        match with_target(codec, surface, sanitized, targets[0], current) {
            None => None,
            Some(next) => with_targets(codec, surface, sanitized, targets.skip(1), next),
        }
    }
}

/// The request after the target paths of the backend were brought over one by one.
pub open spec fn incremental<A>(
    backend: BackendView,
    codec: CodecModel<A>,
    surface: ProviderSurface,
    request: RequestView,
    annotated: A,
) -> Option<RequestView> {
    match (codec.form.to_value)(annotated) {
        Err(_) => None,
        Ok(sanitized) => with_targets(codec, surface, sanitized, backend.target_paths, request),
    }
}

/// The request sanitized by way of its annotated form: written back as a whole, or target path by
/// target path if it cannot be written as a whole.
pub open spec fn sanitized_request<A>(
    backend: BackendView,
    masks: MaskModel,
    codec: CodecModel<A>,
    context: ContextView,
    request: RequestView,
) -> Option<RequestView> {
    match surface_for(backend, context) {
        None => None,
        Some(surface) => match (codec.decode)(surface, request) {
            None => None,
            Some(annotated) => match sanitized_value(backend, masks, codec.form, annotated) {
                Err(_) => None,
                Ok(annotated) => match (codec.encode)(surface, annotated, request) {
                    Some(request) => Some(request),
                    None => incremental(backend, codec, surface, request, annotated),
                },
            },
        },
    }
}

/// Whether `result` is the request that the codec writes for a changed annotated form.
pub open spec fn writes_changed<C: LlmCodec>(
    codec: C,
    surface: ProviderSurface,
    changed: Json,
    current: LlmRequest,
    result: Option<LlmRequest>,
) -> bool {
    exists|updated: Result<C::Annotated, String>| #[trigger]
        call_ensures(C::from_value, (&codec, changed), updated) && match updated {
            Err(_) => result is None,
            Ok(updated) => encodes(codec, surface, updated, current, result),
        }
}

/// Whether `result` is the request that the codec writes for an annotated request.
pub open spec fn encodes<C: LlmCodec>(
    codec: C,
    surface: ProviderSurface,
    annotated: C::Annotated,
    original: LlmRequest,
    result: Option<LlmRequest>,
) -> bool {
    exists|encoded: Result<LlmRequest, FlowError>| #[trigger]
        call_ensures(C::encode, (&codec, surface, &annotated, &original), encoded) && match encoded {
            Ok(request) => result == Some(request),
            Err(_) => result is None,
        }
}

/// Whether `result` is the request after its annotated form `json` got the wanted value.
pub open spec fn sets_target<C: LlmCodec>(
    codec: C,
    surface: ProviderSurface,
    json: JsonView,
    keys: Seq<Seq<char>>,
    wanted: JsonView,
    current: LlmRequest,
    result: Option<LlmRequest>,
) -> bool {
    match value_at(json, keys) {
        None => result is None,
        Some(value) => if json_equal(value, wanted) {
            result == Some(current)
        } else {
            match replaced_at(json, keys, wanted) {
                None => result is None,
                Some(view) => exists|changed: Json|
                    changed@ == view && #[trigger] writes_changed(
                        codec,
                        surface,
                        changed,
                        current,
                        result,
                    ),
            }
        },
    }
}

/// Whether `result` is the request `current` after one target path was brought over.
pub open spec fn brings_target<C: LlmCodec>(
    codec: C,
    surface: ProviderSurface,
    sanitized: JsonView,
    target: Seq<char>,
    current: LlmRequest,
    result: Option<LlmRequest>,
) -> bool {
    match pointer_keys(target) {
        None => result is None,
        Some(keys) => match value_at(sanitized, keys) {
            None => result == Some(current),
            Some(wanted) => exists|annotated: Result<C::Annotated, FlowError>| #[trigger]
                call_ensures(C::decode, (&codec, surface, &current), annotated)
                    && match annotated {
                    Err(_) => result is None,
                    Ok(annotated) => exists|written: Result<Json, String>| #[trigger]
                        call_ensures(C::to_value, (&codec, &annotated), written) && match written {
                            Err(_) => result is None,
                            Ok(json) => sets_target(
                                codec,
                                surface,
                                json@,
                                keys,
                                wanted,
                                current,
                                result,
                            ),
                        },
                },
        },
    }
}

/// Whether `result` is the request `current` after the target paths were brought over one by one.
pub open spec fn brings_targets<C: LlmCodec>(
    codec: C,
    surface: ProviderSurface,
    sanitized: JsonView,
    targets: Seq<Seq<char>>,
    current: LlmRequest,
    result: Option<LlmRequest>,
) -> bool
    decreases targets.len(),
{
    if targets.len() == 0 {
        result == Some(current)
    } else {
        exists|next: Option<LlmRequest>| #[trigger]
            brings_target(codec, surface, sanitized, targets[0], current, next) && match next {
                None => result is None,
                Some(next) => brings_targets(
                    codec,
                    surface,
                    sanitized,
                    targets.skip(1),
                    next,
                    result,
                ),
            }
    }
}

/// Whether `result` is the request after the target paths of the backend were brought over from a
/// sanitized annotated request.
pub open spec fn brings_over<C: LlmCodec>(
    backend: BackendView,
    codec: C,
    surface: ProviderSurface,
    request: RequestView,
    annotated: C::Annotated,
    result: Option<LlmRequest>,
) -> bool {
    exists|written: Result<Json, String>| #[trigger]
        call_ensures(C::to_value, (&codec, &annotated), written) && match written {
            Err(_) => result is None,
            Ok(json) => exists|start: LlmRequest|
                start@ == request && #[trigger] brings_targets(
                    codec,
                    surface,
                    json@,
                    backend.target_paths,
                    start,
                    result,
                ),
        }
}

/// Whether `result` is the request that a sanitized annotated request is written to, as a whole or
/// target path by target path.
pub open spec fn writes_sanitized<C: LlmCodec>(
    backend: BackendView,
    codec: C,
    surface: ProviderSurface,
    annotated: C::Annotated,
    request: LlmRequest,
    result: Option<LlmRequest>,
) -> bool {
    exists|whole: Option<LlmRequest>| #[trigger]
        encodes(codec, surface, annotated, request, whole) && match whole {
            Some(_) => result == whole,
            None => brings_over(backend, codec, surface, request@, annotated, result),
        }
}

/// Whether `result` is the request sanitized by way of its annotated form.
pub open spec fn sanitizes_request<C: LlmCodec, M: DetectorMasks>(
    backend: BackendView,
    masks: M,
    codec: C,
    context: ContextView,
    request: LlmRequest,
    result: Option<LlmRequest>,
) -> bool {
    match surface_for(backend, context) {
        None => result is None,
        Some(surface) => exists|annotated: Result<C::Annotated, FlowError>| #[trigger]
            call_ensures(C::decode, (&codec, surface, &request), annotated) && match annotated {
                Err(_) => result is None,
                Ok(annotated) => exists|sanitized: Result<C::Annotated, PluginError>| #[trigger]
                    sanitizes_value(backend, masks, codec, annotated, sanitized)
                        && match sanitized {
                        Err(_) => result is None,
                        Ok(sanitized) => writes_sanitized(
                            backend,
                            codec,
                            surface,
                            sanitized,
                            request,
                            result,
                        ),
                    },
            },
    }
}

impl CompiledBuiltinBackend {
    /// The surface to use in a setting.
    pub fn selected_surface(&self, context: &LlmSanitizeContext) -> (surface: Option<
        ProviderSurface,
    >)
        ensures
            surface == surface_for(self@, context@),
    {
        if context.has_active_codec {
            match &context.codec {
                Some(codec) => codec.surface,
                None => None,
            }
        } else {
            self.legacy_surface
        }
    }

    /// Brings one target path over from the sanitized annotated request.
    fn sanitize_request_target_path<C: LlmCodec>(
        &self,
        codec: &C,
        surface: ProviderSurface,
        sanitized: &Json,
        target: &String,
        current: LlmRequest,
    ) -> (result: Option<LlmRequest>)
        ensures
            brings_target(*codec, surface, sanitized@, target@, current, result),
            forall|model: CodecModel<C::Annotated>|
                #[trigger] describes_codec(*codec, model) ==> request_view(result) == with_target(
                    model,
                    surface,
                    sanitized@,
                    target@,
                    current@,
                ),
    {
        let keys: Vec<String> = match json_pointer_segments(target.as_str()) {
            Some(keys) => keys,
            None => {
                return None;
            },
        };
        let wanted: Json = match sanitized_json_pointer_value(sanitized, keys.as_slice()) {
            Some(wanted) => wanted.copy(),
            None => {
                return Some(current);
            },
        };
        let annotated: C::Annotated = match codec.decode(surface, &current) {
            Ok(annotated) => annotated,
            Err(_) => {
                return None;
            },
        };
        let mut json: Json = match codec.to_value(&annotated) {
            Ok(json) => json,
            Err(_) => {
                return None;
            },
        };
        match sanitized_json_pointer_value(&json, keys.as_slice()) {
            None => {
                return None;
            },
            Some(value) => {
                if same_json(value, &wanted) {
                    return Some(current);
                }
            },
        }
        match replace_sanitized_json_pointer_value(&mut json, keys.as_slice(), wanted) {
            None => {
                return None;
            },
            Some(_) => {},
        }
        let ghost changed = json;
        let updated: C::Annotated = match codec.from_value(json) {
            Ok(updated) => updated,
            Err(_) => {
                assert(writes_changed(*codec, surface, changed, current, None));
                return None;
            },
        };
        let result: Option<LlmRequest> = match codec.encode(surface, &updated, &current) {
            Ok(request) => Some(request),
            Err(_) => None,
        };
        assert(encodes(*codec, surface, updated, current, result));
        assert(writes_changed(*codec, surface, changed, current, result));
        result
    }

    /// Brings the target paths over from a sanitized annotated request, one by one.
    pub fn sanitize_request_target_paths_incrementally<C: LlmCodec>(
        &self,
        codec: &C,
        surface: ProviderSurface,
        request: &LlmRequest,
        sanitized_annotated: &C::Annotated,
    ) -> (result: Option<LlmRequest>)
        ensures
            brings_over(self@, *codec, surface, request@, *sanitized_annotated, result),
            forall|model: CodecModel<C::Annotated>|
                #[trigger] describes_codec(*codec, model) ==> request_view(result) == incremental(
                    self@,
                    model,
                    surface,
                    request@,
                    *sanitized_annotated,
                ),
    {
        let written: Result<Json, String> = codec.to_value(sanitized_annotated);
        let ghost given = written;
        let sanitized: Json = match written {
            Ok(sanitized) => sanitized,
            Err(_) => {
                return None;
            },
        };
        let ghost targets = texts(self.target_paths@);
        let mut current: LlmRequest = request.copy();
        let ghost start = current;
        let mut i: usize = 0;
        assert(targets.skip(0) =~= targets);
        while i < self.target_paths.len()
            invariant
                i <= self.target_paths.len(),
                targets == texts(self.target_paths@),
                start@ == request@,
                given == Ok::<Json, String>(sanitized),
                call_ensures(C::to_value, (codec, sanitized_annotated), given),
                forall|result: Option<LlmRequest>| #[trigger]
                    brings_targets(
                        *codec,
                        surface,
                        sanitized@,
                        targets.skip(i as int),
                        current,
                        result,
                    ) ==> brings_targets(
                        *codec,
                        surface,
                        sanitized@,
                        targets,
                        start,
                        result,
                    ),
                forall|model: CodecModel<C::Annotated>|
                    #[trigger] describes_codec(*codec, model) ==> with_targets(
                        model,
                        surface,
                        sanitized@,
                        targets.skip(i as int),
                        current@,
                    ) == incremental(self@, model, surface, request@, *sanitized_annotated),
            decreases self.target_paths.len() - i,
        {
            assert(targets.skip(i as int)[0] == self.target_paths@[i as int]@);
            assert(targets.skip(i as int).skip(1) =~= targets.skip(i + 1));
            let ghost before = current;
            let next: Option<LlmRequest> = self.sanitize_request_target_path(
                codec,
                surface,
                &sanitized,
                &self.target_paths[i],
                current,
            );
            let ghost rest = targets.skip(i as int);
            assert(brings_target(*codec, surface, sanitized@, rest[0], before, next));
            match next {
                Some(next) => {
                    proof {
                        assert forall|result: Option<LlmRequest>| #[trigger]
                            brings_targets(
                                *codec,
                                surface,
                                sanitized@,
                                targets.skip(i + 1),
                                next,
                                result,
                            ) implies brings_targets(
                            *codec,
                            surface,
                            sanitized@,
                            targets,
                            start,
                            result,
                        ) by {
                            assert(brings_targets(
                                *codec,
                                surface,
                                sanitized@,
                                rest,
                                before,
                                result,
                            ));
                        }
                    }
                    current = next;
                },
                None => {
                    assert(brings_targets(*codec, surface, sanitized@, rest, before, None));
                    assert(brings_targets(*codec, surface, sanitized@, targets, start, None));
                    return None;
                },
            }
            i += 1;
        }
        assert(brings_targets(
            *codec,
            surface,
            sanitized@,
            targets.skip(i as int),
            current,
            Some(current),
        ));
        Some(current)
    }

    /// Sanitizes a request by way of its annotated form.
    pub fn sanitize_request_with_codec<C: LlmCodec, M: DetectorMasks>(
        &self,
        context: &LlmSanitizeContext,
        request: &LlmRequest,
        codec: &C,
        masks: &M,
    ) -> (result: Option<LlmRequest>)
        ensures
            sanitizes_request(self@, *masks, *codec, context@, *request, result),
            forall|model: MaskModel, codecs: CodecModel<C::Annotated>|
                #[trigger] fits(self@.action, *masks, model) && #[trigger] fits_codec(
                    surface_for(self@, context@) is Some,
                    *codec,
                    codecs,
                ) ==> request_view(result) == sanitized_request(
                    self@,
                    model,
                    codecs,
                    context@,
                    request@,
                ),
    {
        let surface: ProviderSurface = match self.selected_surface(context) {
            Some(surface) => surface,
            None => {
                return None;
            },
        };
        let annotated: C::Annotated = match codec.decode(surface, request) {
            Ok(annotated) => annotated,
            Err(_) => {
                return None;
            },
        };
        let sanitizing: Result<C::Annotated, PluginError> = sanitize_serializable_with_backend(
            self,
            &annotated,
            codec,
            masks,
        );
        assert(sanitizes_value(self@, *masks, *codec, annotated, sanitizing));
        let sanitized: C::Annotated = match sanitizing {
            Ok(sanitized) => sanitized,
            Err(_) => {
                return None;
            },
        };
        match codec.encode(surface, &sanitized, request) {
            Ok(written) => {
                assert(encodes(*codec, surface, sanitized, *request, Some(written)));
                Some(written)
            },
            Err(_) => {
                assert(encodes(*codec, surface, sanitized, *request, None));
                self.sanitize_request_target_paths_incrementally(codec, surface, request, &sanitized)
            },
        }
    }
}

/// Bringing over the target paths of two lists is bringing over those of the first, then those of
/// the second.
pub proof fn targets_come_one_by_one<A>(
    codec: CodecModel<A>,
    surface: ProviderSurface,
    sanitized: JsonView,
    first: Seq<Seq<char>>,
    second: Seq<Seq<char>>,
    current: RequestView,
)
    ensures
        with_targets(codec, surface, sanitized, first + second, current) == match with_targets(
            codec,
            surface,
            sanitized,
            first,
            current,
        ) {
            Some(next) => with_targets(codec, surface, sanitized, second, next),
            None => None,
        },
    decreases first.len(),
{
    let both = first + second;
    if first.len() == 0 {
        assert(both =~= second);
    } else {
        assert(both.skip(1) =~= first.skip(1) + second);
        match with_target(codec, surface, sanitized, first[0], current) {
            Some(next) => {
                targets_come_one_by_one(codec, surface, sanitized, first.skip(1), second, next);
            },
            None => {},
        }
    }
}

/// Whether reading gives back what was written: an annotated request from the request that it was
/// written to, and a JSON form from the value that it was read as.
pub open spec fn reads_what_it_wrote<A>(codec: CodecModel<A>) -> bool {
    &&& forall|surface: ProviderSurface, annotated: A, original: RequestView|
        (#[trigger] (codec.encode)(surface, annotated, original)) matches Some(written) ==> (
        codec.decode)(surface, written) == Some(annotated)
    &&& forall|json: JsonView|
        (#[trigger] (codec.form.from_value)(json)) matches Ok(annotated) ==> (codec.form.to_value)(
            annotated,
        ) == Ok::<JsonView, Seq<char>>(json)
}

/// Where reading gives back what was written, the annotated form of the request has, after a
/// target path was brought over, the sanitized value there.
pub proof fn target_is_brought_over<A>(
    codec: CodecModel<A>,
    surface: ProviderSurface,
    sanitized: JsonView,
    target: Seq<char>,
    current: RequestView,
)
    requires
        reads_what_it_wrote(codec),
        pointer_keys(target) is Some,
        value_at(sanitized, pointer_keys(target)->Some_0) is Some,
        with_target(codec, surface, sanitized, target, current) is Some,
    ensures
        ({
            let keys = pointer_keys(target)->Some_0;
            let wanted = value_at(sanitized, keys)->Some_0;
            let request = with_target(codec, surface, sanitized, target, current)->Some_0;
            (codec.decode)(surface, request) matches Some(annotated) && (codec.form.to_value)(
                annotated,
            ) matches Ok(json) && value_at(json, keys) matches Some(value) && (value == wanted
                || json_equal(value, wanted))
        }),
{
    let keys = pointer_keys(target)->Some_0;
    let wanted = value_at(sanitized, keys)->Some_0;
    let annotated = (codec.decode)(surface, current)->Some_0;
    let json = (codec.form.to_value)(annotated)->Ok_0;
    let value = value_at(json, keys)->Some_0;
    if !json_equal(value, wanted) {
        let changed = replaced_at(json, keys, wanted)->Some_0;
        let updated = (codec.form.from_value)(changed)->Ok_0;
        assert((codec.encode)(surface, updated, current) is Some);
        replaced_value_is_read(json, keys, wanted);
    }
}

} // verus!
