//! Errors of the callback flow.
use vstd::prelude::*;

use crate::json::{Json, JsonView};

verus! {

/// Why a callback flow failed.
#[derive(Debug)]
pub enum FlowError {
    Internal(String),
}

impl View for FlowError {
    type V = Seq<char>;

    /// The message of the error.
    open spec fn view(&self) -> Seq<char> {
        match self {
            FlowError::Internal(message) => message@,
        }
    }
}

/// The view of a JSON value, or of the error in its place.
pub open spec fn flow_view(result: Result<Json, FlowError>) -> Result<JsonView, Seq<char>> {
    match result {
        Ok(value) => Ok(value@),
        Err(error) => Err(error@),
    }
}

} // verus!
