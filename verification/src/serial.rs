//! Values that have a JSON form, and their sanitizing by way of that form.
use vstd::prelude::*;

use crate::backend::{fits, sanitized_whole, sanitizes, BackendView, CompiledBuiltinBackend};
use crate::config::{PluginError, PluginErrorView};
use crate::json::{Json, JsonView};
use crate::mask::{DetectorMasks, MaskModel};
use crate::text::concat2;

verus! {

/// How values of a type are written as JSON and read back. An error comes as its text.
pub trait JsonForm<T> {
    /// The JSON form of a value.
    fn to_value(&self, value: &T) -> Result<Json, String>;

    /// The value of a JSON form.
    fn from_value(&self, value: Json) -> Result<T, String>;
}

/// Writing and reading as functions.
#[verifier::reject_recursive_types(T)]
pub struct FormModel<T> {
    pub to_value: spec_fn(T) -> Result<JsonView, Seq<char>>,
    pub from_value: spec_fn(JsonView) -> Result<T, Seq<char>>,
}

/// The view of a written value.
pub open spec fn written_view(result: Result<Json, String>) -> Result<JsonView, Seq<char>> {
    match result {
        Ok(value) => Ok(value@),
        Err(text) => Err(text@),
    }
}

/// The view of a value that was read.
pub open spec fn read_view<T>(result: Result<T, String>) -> Result<T, Seq<char>> {
    match result {
        Ok(value) => Ok(value),
        Err(text) => Err(text@),
    }
}

/// Whether `model` gives what `form` returns for each argument.
pub open spec fn describes_form<T, S: JsonForm<T>>(form: S, model: FormModel<T>) -> bool {
    &&& forall|value: &T, result: Result<Json, String>|
        #[trigger] call_ensures(S::to_value, (&form, value), result) ==> written_view(result) == (
        model.to_value)(*value)
    &&& forall|value: Json, result: Result<T, String>|
        #[trigger] call_ensures(S::from_value, (&form, value), result) ==> read_view(result) == (
        model.from_value)(value@)
}

/// Whether `json` is the JSON form of a value, or null where it has none.
pub open spec fn written_or_null<T, S: JsonForm<T>>(form: S, value: T, json: JsonView) -> bool {
    exists|written: Result<Json, String>| #[trigger]
        call_ensures(S::to_value, (&form, &value), written) && json == match written {
            Ok(written) => written@,
            Err(_) => JsonView::Null,
        }
}

/// Whether `json` is the JSON form of an optional value, or null where it has none.
pub open spec fn option_written<T, S: JsonForm<T>>(
    form: S,
    value: Option<T>,
    json: JsonView,
) -> bool {
    match value {
        Some(value) => written_or_null(form, value, json),
        None => json is Null,
    }
}

/// The JSON form of a value, or null where it has none.
pub fn json_or_null<T, S: JsonForm<T>>(value: &T, form: &S) -> (json: Json)
    ensures
        written_or_null(*form, *value, json@),
{
    match form.to_value(value) {
        Ok(json) => json,
        Err(_) => Json::Null,
    }
}

/// A value with its JSON form sanitized.
pub open spec fn sanitized_value<T>(
    backend: BackendView,
    masks: MaskModel,
    form: FormModel<T>,
    value: T,
) -> Result<T, PluginErrorView> {
    match (form.to_value)(value) {
        Err(text) => Err(
            PluginErrorView::Internal("failed to serialize value for PII redaction: "@ + text),
        ),
        Ok(json) => match (form.from_value)(sanitized_whole(backend, masks, json)) {
            Err(text) => Err(
                PluginErrorView::Internal(
                    "failed to deserialize sanitized value for PII redaction: "@ + text,
                ),
            ),
            Ok(value) => Ok(value),
        },
    }
}

/// Whether `result` is the value that a sanitized JSON form is read as.
pub open spec fn reads_sanitized<T, S: JsonForm<T>>(
    form: S,
    left: Json,
    result: Result<T, PluginError>,
) -> bool {
    exists|read: Result<T, String>| #[trigger]
        call_ensures(S::from_value, (&form, left), read) && match read {
            Ok(value) => result == Ok::<T, PluginError>(value),
            Err(text) => result is Err && result->Err_0@ == PluginErrorView::Internal(
                "failed to deserialize sanitized value for PII redaction: "@ + text@,
            ),
        }
}

/// Whether `result` is a value with its JSON form sanitized.
pub open spec fn sanitizes_value<T, S: JsonForm<T>, M: DetectorMasks>(
    backend: BackendView,
    masks: M,
    form: S,
    value: T,
    result: Result<T, PluginError>,
) -> bool {
    exists|written: Result<Json, String>| #[trigger]
        call_ensures(S::to_value, (&form, &value), written) && match written {
            Err(text) => result is Err && result->Err_0@ == PluginErrorView::Internal(
                "failed to serialize value for PII redaction: "@ + text@,
            ),
            Ok(json) => exists|left: Json| #[trigger]
                sanitizes(backend, masks, json@, left@) && reads_sanitized(form, left, result),
        }
}

/// The view of a sanitized value.
pub open spec fn value_result<T>(result: Result<T, PluginError>) -> Result<T, PluginErrorView> {
    match result {
        Ok(value) => Ok(value),
        Err(error) => Err(error@),
    }
}

/// Sanitizes a value by way of its JSON form.
pub fn sanitize_serializable_with_backend<T, S: JsonForm<T>, M: DetectorMasks>(
    backend: &CompiledBuiltinBackend,
    value: &T,
    form: &S,
    masks: &M,
) -> (result: Result<T, PluginError>)
    ensures
        sanitizes_value(backend@, *masks, *form, *value, result),
        forall|model: MaskModel, forms: FormModel<T>|
            #[trigger] fits(backend@.action, *masks, model) && #[trigger] describes_form(
                *form,
                forms,
            ) ==> value_result(result) == sanitized_value(backend@, model, forms, *value),
{
    let written: Result<Json, String> = form.to_value(value);
    match written {
        Err(text) => Err(
            PluginError::Internal(
                concat2("failed to serialize value for PII redaction: ", text.as_str()),
            ),
        ),
        Ok(json) => {
            let left: Json = backend.sanitize_json_preorder_dfs(json, masks);
            assert(sanitizes(backend@, *masks, json@, left@));
            let result: Result<T, PluginError> = match form.from_value(left) {
                Err(text) => Err(
                    PluginError::Internal(
                        concat2(
                            "failed to deserialize sanitized value for PII redaction: ",
                            text.as_str(),
                        ),
                    ),
                ),
                Ok(value) => Ok(value),
            };
            assert(reads_sanitized(*form, left, result));
            result
        },
    }
}

} // verus!
