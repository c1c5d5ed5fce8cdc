//! The check on the fields that every request must have.
use crate::models::completion::CompletionRequest;
use crate::text::{blank, is_blank};
use crate::validators::validation_error::ValidationError;
use vstd::prelude::*;

verus! {

/// What is wrong with a request that names no model.
pub open spec fn missing_model_message() -> Seq<char> {
    "model field must not be empty"@
}

/// The request names a model: its `model` is more than whitespace.
pub fn validate_required_fields(req: &CompletionRequest) -> (r: Result<(), ValidationError>)
    ensures
        r is Err <==> is_blank(req.model@),
        r matches Err(e) ==> e@ == missing_model_message(),
{
    if blank(req.model.as_str()) {
        return Err(ValidationError::new("model field must not be empty"));
    }
    Ok(())
}

} // verus!
