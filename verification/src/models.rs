pub mod binary32;
pub mod completion;

pub use binary32::Binary32;
pub use completion::{
    Choice, CompletionRequest, CompletionResponse, Logprobs, TopLogprob, Usage,
};
