pub mod optional_fields;
pub mod req_required_fields;
pub mod validation_error;

pub use optional_fields::{
    check_stop, validate_best_of, validate_frequency_penalty, validate_logprobs,
    validate_max_tokens, validate_n, validate_presence_penalty, validate_stop,
    validate_temperature, validate_top_p, StopSequence,
};
pub use req_required_fields::validate_required_fields;
pub use validation_error::{FieldError, Param, ValidationError};
