pub mod completion_handler;

pub use completion_handler::{
    handle_completion, validate_request, ErrorDetail, ErrorResponse, Reply,
};
