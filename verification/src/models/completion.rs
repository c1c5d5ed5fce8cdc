//! The requests and replies of the completions endpoint.
use crate::models::binary32::{Binary32, ONE, ZERO};
use crate::validators::optional_fields::StopSequence;
use std::collections::HashMap;
use vstd::prelude::*;

verus! {

/// A request for completions.
#[derive(Debug)]
pub struct CompletionRequest {
    /// The model to use. Required: it may not be blank.
    pub model: String,
    /// The prompt to complete; the empty text where there is none.
    pub prompt: Option<String>,
    /// What comes after the completion. Not used.
    pub suffix: Option<String>,
    /// The most tokens a completion may have.
    pub max_tokens: Option<u32>,
    /// The sampling temperature, between 0 and 2.
    pub temperature: Option<Binary32>,
    /// The nucleus sampling probability, between 0 and 1.
    pub top_p: Option<Binary32>,
    /// How many completions to return.
    pub n: Option<i32>,
    /// Whether to stream partial progress. Not used.
    pub stream: Option<bool>,
    /// How many alternatives to show for each token of a completion.
    pub logprobs: Option<u32>,
    /// Whether a completion starts with the prompt.
    pub echo: Option<bool>,
    /// Where a completion stops.
    pub stop: Option<StopSequence>,
    /// The penalty on tokens that are present already, between -2 and 2.
    pub presence_penalty: Option<Binary32>,
    /// The penalty on tokens by how often they occur, between -2 and 2.
    pub frequency_penalty: Option<Binary32>,
    /// How many completions to choose the returned ones from.
    pub best_of: Option<i32>,
    /// Changes to the likelihood of given tokens. Not used.
    pub logit_bias: Option<HashMap<String, i32>>,
    /// Who the request is made for. Not used.
    pub user: Option<String>,
}

/// A completion is 16 tokens long at most unless the request says otherwise.
pub fn default_max_tokens() -> (r: Option<u32>)
    ensures
        r == Some(16u32),
{
    Some(16)
}

/// The temperature is 1 unless the request says otherwise.
pub fn default_temperature() -> (r: Option<Binary32>)
    ensures
        r matches Some(t) && t.bits == ONE && t.shown@ == "1"@,
{
    Some(Binary32::new(ONE, "1".to_string()))
}

/// The nucleus sampling probability is 1 unless the request says otherwise.
pub fn default_top_p() -> (r: Option<Binary32>)
    ensures
        r matches Some(p) && p.bits == ONE && p.shown@ == "1"@,
{
    Some(Binary32::new(ONE, "1".to_string()))
}

/// One completion is returned unless the request says otherwise.
pub fn default_n() -> (r: Option<i32>)
    ensures
        r == Some(1i32),
{
    Some(1)
}

/// Nothing is streamed unless the request says otherwise.
pub fn default_stream() -> (r: Option<bool>)
    ensures
        r == Some(false),
{
    Some(false)
}

/// The prompt is not echoed unless the request says otherwise.
pub fn default_echo() -> (r: Option<bool>)
    ensures
        r == Some(false),
{
    Some(false)
}

/// There is no suffix unless the request gives one.
pub fn default_suffix() -> (r: Option<String>)
    ensures
        r is None,
{
    None
}

/// The presence penalty is 0 unless the request says otherwise.
pub fn default_presence_penalty() -> (r: Option<Binary32>)
    ensures
        r matches Some(p) && p.bits == ZERO && p.shown@ == "0"@,
{
    Some(Binary32::new(ZERO, "0".to_string()))
}

/// The frequency penalty is 0 unless the request says otherwise.
pub fn default_frequency_penalty() -> (r: Option<Binary32>)
    ensures
        r matches Some(p) && p.bits == ZERO && p.shown@ == "0"@,
{
    Some(Binary32::new(ZERO, "0".to_string()))
}

impl Default for CompletionRequest {
    /// The request with no model and no prompt, and every other field as it
    /// is when a request leaves it out.
    fn default() -> (r: Self)
        ensures
            r.model@.len() == 0,
            r.prompt is None,
            r.suffix is None,
            r.max_tokens == Some(16u32),
            r.temperature matches Some(t) && t.bits == ONE && t.shown@ == "1"@,
            r.top_p matches Some(p) && p.bits == ONE && p.shown@ == "1"@,
            r.n == Some(1i32),
            r.stream == Some(false),
            r.logprobs is None,
            r.echo == Some(false),
            r.stop is None,
            r.presence_penalty matches Some(p) && p.bits == ZERO && p.shown@ == "0"@,
            r.frequency_penalty matches Some(p) && p.bits == ZERO && p.shown@ == "0"@,
            r.best_of is None,
            r.logit_bias is None,
            r.user is None,
    {
        Self {
            model: String::new(),
            prompt: None,
            suffix: default_suffix(),
            max_tokens: default_max_tokens(),
            temperature: default_temperature(),
            top_p: default_top_p(),
            n: default_n(),
            stream: default_stream(),
            logprobs: None,
            echo: default_echo(),
            stop: None,
            presence_penalty: default_presence_penalty(),
            frequency_penalty: default_frequency_penalty(),
            best_of: None,
            logit_bias: None,
            user: None,
        }
    }
}

/// An alternative to a token of a completion, with a made-up log-probability.
#[derive(Debug, Clone)]
pub struct TopLogprob {
    /// The alternative token.
    pub token: String,
    /// Its log-probability, in millionths.
    pub logprob: i32,
}

/// Made-up log-probabilities for the tokens of a completion. The four lists
/// run in parallel: one entry for each token.
#[derive(Debug, Clone)]
pub struct Logprobs {
    /// The tokens of the text.
    pub tokens: Vec<String>,
    /// The log-probability of each token, in millionths.
    pub token_logprobs: Vec<i32>,
    /// Where each token starts, counted in characters.
    pub text_offset: Vec<usize>,
    /// The alternatives to each token.
    pub top_logprobs: Vec<Vec<TopLogprob>>,
}

/// One completion.
#[derive(Debug, Clone)]
pub struct Choice {
    /// The text of the completion.
    pub text: String,
    /// The position of this completion among those of the reply, from 0.
    pub index: i32,
    /// Log-probabilities for the tokens, where the request asked for them.
    pub logprobs: Option<Logprobs>,
    /// Why the completion ended: `stop`, `length` or `content`.
    pub finish_reason: Option<String>,
}

/// How many tokens a request took.
#[derive(Debug)]
pub struct Usage {
    /// The tokens of the prompt.
    pub prompt_tokens: u64,
    /// The tokens of the completions.
    pub completion_tokens: u64,
    /// Both together.
    pub total_tokens: u64,
}

impl Usage {
    /// The total is the sum of the two counts.
    pub open spec fn wf(&self) -> bool {
        self.total_tokens == self.prompt_tokens + self.completion_tokens
    }
}

/// The reply to a request for completions.
#[derive(Debug)]
pub struct CompletionResponse {
    /// What names this reply.
    pub id: String,
    /// The kind of reply: `text_completion`.
    pub object: String,
    /// When the reply was made, in seconds since the epoch.
    pub created: u64,
    /// The model of the request.
    pub model: String,
    /// The completions.
    pub choices: Vec<Choice>,
    /// How many tokens the request took.
    pub usage: Usage,
}

} // verus!
