//! What the built-in backend does with the fields of an event.
use vstd::prelude::*;

use crate::backend::{fits, sanitized_whole, sanitizes, BackendView, CompiledBuiltinBackend};
use crate::callbacks::Outcome;
use crate::config::PluginError;
use crate::json::{option_view, Json, JsonView};
use crate::mask::{DetectorMasks, MaskModel};
use crate::serial::{
    describes_form, sanitize_serializable_with_backend, sanitized_value, sanitizes_value,
    FormModel, JsonForm,
};
use crate::text::same_text;

verus! {

/// What the backend reads of an event: whether it is about a scope, and its category.
#[derive(Debug)]
pub struct EventKind {
    pub scope: bool,
    pub category: Option<String>,
}

/// The fields of an event that a sanitizer may change.
#[derive(Debug)]
pub struct EventSanitizeFields<P> {
    pub data: Option<Json>,
    pub category_profile: Option<P>,
    pub metadata: Option<Json>,
}

/// The fields of an event as a mathematical value.
#[verifier::ext_equal]
pub struct FieldsView<P> {
    pub data: Option<JsonView>,
    pub category_profile: Option<P>,
    pub metadata: Option<JsonView>,
}

impl<P> View for EventSanitizeFields<P> {
    type V = FieldsView<P>;

    open spec fn view(&self) -> FieldsView<P> {
        FieldsView {
            data: option_view(self.data),
            category_profile: self.category_profile,
            metadata: option_view(self.metadata),
        }
    }
}

/// Whether an event is about a scope of the given category.
pub open spec fn is_scope_of(event: EventKind, category: Seq<char>) -> bool {
    event.scope && event.category is Some && event.category->Some_0@ == category
}

/// Whether the event is about a scope whose category is switched off. The switches are for the
/// categories `llm` and `tool`.
pub open spec fn switched_off(event: EventKind, switches: Option<(bool, bool)>) -> bool {
    match switches {
        Some((sanitize_llm, sanitize_tool)) => {
            ||| is_scope_of(event, "llm"@) && !sanitize_llm
            ||| is_scope_of(event, "tool"@) && !sanitize_tool
        },
        None => false,
    }
}

/// Whether the event is about a scope whose payload has a sanitizer of its own.
pub open spec fn is_specialized(event: EventKind) -> bool {
    is_scope_of(event, "tool"@) || is_scope_of(event, "llm"@)
}

/// An optional value, sanitized.
pub open spec fn sanitized_option(
    backend: BackendView,
    masks: MaskModel,
    value: Option<JsonView>,
) -> Option<JsonView> {
    match value {
        Some(value) => Some(sanitized_whole(backend, masks, value)),
        None => None,
    }
}

/// The fields of an event, sanitized. A specialized scope keeps its data and its profile; a
/// profile that cannot be sanitized is dropped.
pub open spec fn sanitized_fields<P>(
    backend: BackendView,
    masks: MaskModel,
    form: FormModel<P>,
    event: EventKind,
    fields: FieldsView<P>,
) -> FieldsView<P> {
    FieldsView {
        data: if is_specialized(event) {
            fields.data
        } else {
            sanitized_option(backend, masks, fields.data)
        },
        category_profile: if is_specialized(event) {
            fields.category_profile
        } else {
            match fields.category_profile {
                Some(profile) => match sanitized_value(backend, masks, form, profile) {
                    Ok(profile) => Some(profile),
                    Err(_) => None,
                },
                None => None,
            }
        },
        metadata: sanitized_option(backend, masks, fields.metadata),
    }
}

/// What becomes of the fields of an event.
pub open spec fn event_outcome<P>(
    backend: BackendView,
    masks: MaskModel,
    form: FormModel<P>,
    switches: Option<(bool, bool)>,
    event: EventKind,
    fields: FieldsView<P>,
) -> Outcome<FieldsView<P>> {
    if switched_off(event, switches) {
        Outcome::Ready(fields)
    } else if backend.trajectory is Some {
        Outcome::Trajectory(fields)
    } else {
        Outcome::Ready(sanitized_fields(backend, masks, form, event, fields))
    }
}

/// The outcome for the fields of an event as a mathematical value.
pub open spec fn fields_outcome<P>(outcome: Outcome<EventSanitizeFields<P>>) -> Outcome<
    FieldsView<P>,
> {
    match outcome {
        Outcome::Trajectory(fields) => Outcome::Trajectory(fields@),
        Outcome::Ready(fields) => Outcome::Ready(fields@),
        Outcome::Omitted(reason) => Outcome::Omitted(reason),
    }
}

/// Whether `model` can be used for the form: it describes it, or there is no profile.
pub open spec fn fits_form<P, S: JsonForm<P>>(asked: bool, form: S, model: FormModel<P>) -> bool {
    asked ==> describes_form(form, model)
}

/// Whether `left` is what is left of an optional value.
pub open spec fn sanitizes_option<M: DetectorMasks>(
    backend: BackendView,
    masks: M,
    value: Option<Json>,
    left: Option<Json>,
) -> bool {
    match value {
        Some(value) => left matches Some(left) && sanitizes(backend, masks, value@, left@),
        None => left is None,
    }
}

/// Whether `left` is what is left of an optional profile: nothing if it cannot be sanitized.
pub open spec fn sanitizes_profile<P, S: JsonForm<P>, M: DetectorMasks>(
    backend: BackendView,
    masks: M,
    form: S,
    profile: Option<P>,
    left: Option<P>,
) -> bool {
    match profile {
        Some(profile) => exists|result: Result<P, PluginError>| #[trigger]
            sanitizes_value(backend, masks, form, profile, result) && left == match result {
                Ok(profile) => Some(profile),
                Err(_) => None,
            },
        None => left is None,
    }
}

/// Whether `outcome` is what becomes of the fields of an event.
pub open spec fn event_becomes<P, S: JsonForm<P>, M: DetectorMasks>(
    backend: BackendView,
    masks: M,
    form: S,
    switches: Option<(bool, bool)>,
    event: EventKind,
    fields: EventSanitizeFields<P>,
    outcome: Outcome<EventSanitizeFields<P>>,
) -> bool {
    if switched_off(event, switches) {
        outcome == Outcome::Ready(fields)
    } else if backend.trajectory is Some {
        outcome == Outcome::Trajectory(fields)
    } else {
        &&& outcome matches Outcome::Ready(left)
        &&& if is_specialized(event) {
            left.data == fields.data && left.category_profile == fields.category_profile
        } else {
            sanitizes_option(backend, masks, fields.data, left.data) && sanitizes_profile(
                backend,
                masks,
                form,
                fields.category_profile,
                left.category_profile,
            )
        }
        &&& sanitizes_option(backend, masks, fields.metadata, left.metadata)
    }
}

/// Whether an event is about a scope of the given category.
fn scope_of(event: &EventKind, category: &str) -> (same: bool)
    ensures
        same == is_scope_of(*event, category@),
{
    match &event.category {
        Some(name) => event.scope && same_text(name.as_str(), category),
        None => false,
    }
}

/// The outcome for the fields of an event, with switches for the categories `llm` and `tool` of
/// scopes.
pub fn event_sanitize_callback_with_scope_categories<P, S: JsonForm<P>, M: DetectorMasks>(
    backend: &CompiledBuiltinBackend,
    scope_categories: Option<(bool, bool)>,
    event: &EventKind,
    fields: EventSanitizeFields<P>,
    form: &S,
    masks: &M,
) -> (outcome: Outcome<EventSanitizeFields<P>>)
    ensures
        event_becomes(backend@, *masks, *form, scope_categories, *event, fields, outcome),
        forall|model: MaskModel, forms: FormModel<P>|
            #[trigger] fits(backend@.action, *masks, model) && #[trigger] fits_form(
                fields@.category_profile is Some,
                *form,
                forms,
            ) ==> fields_outcome(outcome) == event_outcome(
                backend@,
                model,
                forms,
                scope_categories,
                *event,
                fields@,
            ),
{
    let llm_scope: bool = scope_of(event, "llm");
    let tool_scope: bool = scope_of(event, "tool");
    match scope_categories {
        Some((sanitize_llm, sanitize_tool)) => {
            if (llm_scope && !sanitize_llm) || (tool_scope && !sanitize_tool) {
                return Outcome::Ready(fields);
            }
        },
        None => {},
    }
    if backend.trajectory.is_some() {
        return Outcome::Trajectory(fields);
    }
    let mut data: Option<Json> = fields.data;
    let mut category_profile: Option<P> = fields.category_profile;
    if !llm_scope && !tool_scope {
        data = match data {
            Some(data) => Some(backend.sanitize_json_preorder_dfs(data, masks)),
            None => None,
        };
        category_profile = match category_profile {
            Some(profile) => {
                let result: Result<P, PluginError> = sanitize_serializable_with_backend(
                    backend,
                    &profile,
                    form,
                    masks,
                );
                assert(sanitizes_value(backend@, *masks, *form, profile, result));
                match result {
                    Ok(profile) => Some(profile),
                    Err(_) => None,
                }
            },
            None => None,
        };
    }
    let metadata: Option<Json> = match fields.metadata {
        Some(metadata) => Some(backend.sanitize_json_preorder_dfs(metadata, masks)),
        None => None,
    };
    Outcome::Ready(EventSanitizeFields { data, category_profile, metadata })
}

/// The outcome for the fields of any event.
pub fn event_sanitize_callback<P, S: JsonForm<P>, M: DetectorMasks>(
    backend: &CompiledBuiltinBackend,
    event: &EventKind,
    fields: EventSanitizeFields<P>,
    form: &S,
    masks: &M,
) -> (outcome: Outcome<EventSanitizeFields<P>>)
    ensures
        event_becomes(backend@, *masks, *form, None, *event, fields, outcome),
        forall|model: MaskModel, forms: FormModel<P>|
            #[trigger] fits(backend@.action, *masks, model) && #[trigger] fits_form(
                fields@.category_profile is Some,
                *form,
                forms,
            ) ==> fields_outcome(outcome) == event_outcome(
                backend@,
                model,
                forms,
                None,
                *event,
                fields@,
            ),
{
    event_sanitize_callback_with_scope_categories(backend, None, event, fields, form, masks)
}

/// The outcome for the fields of a scope event, where the categories `llm` and `tool` can be
/// switched off.
pub fn scope_event_sanitize_callback<P, S: JsonForm<P>, M: DetectorMasks>(
    backend: &CompiledBuiltinBackend,
    sanitize_llm: bool,
    sanitize_tool: bool,
    event: &EventKind,
    fields: EventSanitizeFields<P>,
    form: &S,
    masks: &M,
) -> (outcome: Outcome<EventSanitizeFields<P>>)
    ensures
        event_becomes(backend@, *masks, *form, Some((sanitize_llm, sanitize_tool)), *event, fields, outcome),
        forall|model: MaskModel, forms: FormModel<P>|
            #[trigger] fits(backend@.action, *masks, model) && #[trigger] fits_form(
                fields@.category_profile is Some,
                *form,
                forms,
            ) ==> fields_outcome(outcome) == event_outcome(
                backend@,
                model,
                forms,
                Some((sanitize_llm, sanitize_tool)),
                *event,
                fields@,
            ),
{
    event_sanitize_callback_with_scope_categories(
        backend,
        Some((sanitize_llm, sanitize_tool)),
        event,
        fields,
        form,
        masks,
    )
}

/// A scope whose payload has a sanitizer of its own keeps its data and its profile, while its
/// metadata is sanitized as that of every event; a scope that is switched off keeps it all.
pub proof fn specialized_scope_keeps_its_payload<P, S: JsonForm<P>, M: DetectorMasks>(
    backend: BackendView,
    masks: M,
    form: S,
    switches: Option<(bool, bool)>,
    event: EventKind,
    fields: EventSanitizeFields<P>,
    outcome: Outcome<EventSanitizeFields<P>>,
)
    requires
        is_specialized(event),
        backend.trajectory is None,
        event_becomes(backend, masks, form, switches, event, fields, outcome),
    ensures
        outcome matches Outcome::Ready(left) && left.data == fields.data && left.category_profile
            == fields.category_profile && if switched_off(event, switches) {
            left.metadata == fields.metadata
        } else {
            sanitizes_option(backend, masks, fields.metadata, left.metadata)
        },
{
}

/// With both categories switched on, and for an event that is about no scope of these categories
/// with any switches, the fields become what they become without switches.
pub proof fn switches_that_are_on_change_nothing<P, S: JsonForm<P>, M: DetectorMasks>(
    backend: BackendView,
    masks: M,
    form: S,
    sanitize_llm: bool,
    sanitize_tool: bool,
    event: EventKind,
    fields: EventSanitizeFields<P>,
    outcome: Outcome<EventSanitizeFields<P>>,
)
    requires
        (sanitize_llm && sanitize_tool) || !is_specialized(event),
    ensures
        event_becomes(
            backend,
            masks,
            form,
            Some((sanitize_llm, sanitize_tool)),
            event,
            fields,
            outcome,
        ) == event_becomes(backend, masks, form, None, event, fields, outcome),
{
}

} // verus!
