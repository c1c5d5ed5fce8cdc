//! What a check on a request reports.
use vstd::prelude::*;

verus! {

/// A complaint about a request, as a message for whoever sent it.
#[derive(Debug)]
pub struct ValidationError {
    message: String,
}

impl View for ValidationError {
    type V = Seq<char>;

    /// The message.
    closed spec fn view(&self) -> Seq<char> {
        self.message@
    }
}

impl ValidationError {
    /// The complaint that says `message`.
    pub fn new(message: &str) -> (r: Self)
        ensures
            r@ == message@,
    {
        Self { message: message.to_string() }
    }

    /// The message.
    pub fn to_string(&self) -> (r: String)
        ensures
            r@ == self@,
    {
        self.message.clone()
    }
}

/// The fields of a request that are checked, in the order of the checks.
#[derive(Debug, Clone, Copy, PartialEq, Eq, Structural)]
pub enum Param {
    Model,
    Temperature,
    TopP,
    N,
    MaxTokens,
    PresencePenalty,
    FrequencyPenalty,
    Logprobs,
    Stop,
    BestOf,
}

impl Param {
    /// The name of the field, as requests write it.
    pub open spec fn name(self) -> Seq<char> {
        match self {
            Param::Model => "model"@,
            Param::Temperature => "temperature"@,
            Param::TopP => "top_p"@,
            Param::N => "n"@,
            Param::MaxTokens => "max_tokens"@,
            Param::PresencePenalty => "presence_penalty"@,
            Param::FrequencyPenalty => "frequency_penalty"@,
            Param::Logprobs => "logprobs"@,
            Param::Stop => "stop"@,
            Param::BestOf => "best_of"@,
        }
    }

    /// The name of the field, as requests write it.
    pub fn as_str(self) -> (r: &'static str)
        ensures
            r@ == self.name(),
    {
        match self {
            Param::Model => "model",
            Param::Temperature => "temperature",
            Param::TopP => "top_p",
            Param::N => "n",
            Param::MaxTokens => "max_tokens",
            Param::PresencePenalty => "presence_penalty",
            Param::FrequencyPenalty => "frequency_penalty",
            Param::Logprobs => "logprobs",
            Param::Stop => "stop",
            Param::BestOf => "best_of",
        }
    }
}

/// The first thing found wrong with a request: the field, and the complaint.
#[derive(Debug)]
pub struct FieldError {
    /// The field that failed its check.
    pub param: Param,
    /// What is wrong with it.
    pub message: String,
}

} // verus!
