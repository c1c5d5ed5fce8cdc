//! Answering a request for completions: the checks on the request in their
//! fixed order, the completions, and the reply around them.
use crate::models::binary32::{outside, MINUS_TWO, ONE, TWO, ZERO};
use crate::models::completion::{Choice, CompletionRequest, CompletionResponse, Usage};
use crate::text::{
    chars_of, is_blank, is_whitespace, is_word_start, whitespace, words, words_from,
};
use crate::utils::choices::{create_choices, family_in, is_choice};
use crate::utils::token_counting::{
    counted, family_of_model, EncodingError, EncodingFamily, TokenCounter,
};
use crate::utils::utils::{as_unsigned, epoch_seconds, generate_uuid, get_current_timestamp};
use crate::validators::optional_fields::{
    best_of_verdict, check_stop, frequency_penalty_verdict, max_tokens_verdict, n_verdict,
    presence_penalty_verdict, stop_verdict, temperature_verdict, top_p_verdict,
    validate_best_of, validate_frequency_penalty, validate_logprobs, validate_max_tokens,
    validate_n, validate_presence_penalty, validate_temperature, validate_top_p, StopSequence,
};
use crate::validators::req_required_fields::{missing_model_message, validate_required_fields};
use crate::validators::validation_error::{FieldError, Param};
use vstd::prelude::*;

verus! {

/// What a reply says of a request that was turned down.
#[derive(Debug)]
pub struct ErrorDetail {
    /// What is wrong with the request.
    pub message: String,
    /// The kind of error: `invalid_request_error`.
    pub kind: String,
    /// The field of the request that is at fault.
    pub param: String,
    /// A code for the error; there is none.
    pub code: Option<String>,
}

/// The reply to a request that was turned down.
#[derive(Debug)]
pub struct ErrorResponse {
    pub error: ErrorDetail,
}

/// The reply to a request.
#[derive(Debug)]
pub enum Reply {
    /// The completions that were asked for; sent with status 200.
    Completed(CompletionResponse),
    /// What is wrong with the request; sent with status 400.
    Rejected(ErrorResponse),
}

impl Reply {
    /// The status that the reply is sent with.
    pub open spec fn status(&self) -> int {
        match self {
            Reply::Completed(_) => 200,
            Reply::Rejected(_) => 400,
        }
    }

    /// The status that the reply is sent with.
    pub fn status_code(&self) -> (r: u16)
        ensures
            r == self.status(),
    {
        match self {
            Reply::Completed(_) => 200,
            Reply::Rejected(_) => 400,
        }
    }
}

/// A field as the checks take it: by reference.
pub open spec fn borrowed<T>(field: &Option<T>) -> Option<&T> {
    match field {
        Some(value) => Some(value),
        None => None,
    }
}

/// What each check finds wrong with a request, in the fixed order of the
/// checks: the model, the temperature, the nucleus sampling probability, the
/// number of completions, the limit on the tokens, the two penalties, the
/// number of alternatives, the stop value, and the number of completions to
/// choose from.
pub open spec fn verdicts(req: CompletionRequest) -> Seq<(Param, Option<Seq<char>>)> {
    seq![
        (
            Param::Model,
            if is_blank(req.model@) {
                Some(missing_model_message())
            } else {
                None
            },
        ),
        (Param::Temperature, temperature_verdict(borrowed(&req.temperature))),
        (Param::TopP, top_p_verdict(borrowed(&req.top_p))),
        (Param::N, n_verdict(req.n)),
        (Param::MaxTokens, max_tokens_verdict(req.max_tokens)),
        (Param::PresencePenalty, presence_penalty_verdict(borrowed(&req.presence_penalty))),
        (Param::FrequencyPenalty, frequency_penalty_verdict(borrowed(&req.frequency_penalty))),
        (Param::Logprobs, None),
        (Param::Stop, stop_verdict(borrowed(&req.stop))),
        (Param::BestOf, best_of_verdict(req.best_of, req.n)),
    ]
}

/// The first of the checks from `from` on that finds something wrong, with
/// what it finds.
pub open spec fn first_failure_from(
    checks: Seq<(Param, Option<Seq<char>>)>,
    from: int,
) -> Option<(Param, Seq<char>)>
    decreases checks.len() - from,
{
    if from < 0 || from >= checks.len() {
        None
    } else if checks[from].1 is Some {
        Some((checks[from].0, checks[from].1->0))
    } else {
        first_failure_from(checks, from + 1)
    }
}

/// The first thing wrong with a request, by the fixed order of the checks;
/// `None` where nothing is wrong.
pub open spec fn first_failure(req: CompletionRequest) -> Option<(Param, Seq<char>)> {
    first_failure_from(verdicts(req), 0)
}

/// The failure that `r` reports is `failure`.
pub open spec fn reports(r: Result<(), FieldError>, failure: Option<(Param, Seq<char>)>) -> bool {
    match failure {
        Some((param, message)) => r matches Err(e) && e.param == param && e.message@ == message,
        None => r is Ok,
    }
}

/// Checks a request, field by field in the fixed order, and stops at the
/// first field that fails its check.
pub fn validate_request(req: &CompletionRequest) -> (r: Result<(), FieldError>)
    ensures
        reports(r, first_failure(*req)),
{
    proof {
        reveal_with_fuel(first_failure_from, 11);
    }
    if let Err(e) = validate_required_fields(req) {
        return Err(FieldError { param: Param::Model, message: e.to_string() });
    }
    if let Err(message) = validate_temperature(req.temperature.as_ref()) {
        return Err(FieldError { param: Param::Temperature, message });
    }
    if let Err(message) = validate_top_p(req.top_p.as_ref()) {
        return Err(FieldError { param: Param::TopP, message });
    }
    if let Err(message) = validate_n(req.n) {
        return Err(FieldError { param: Param::N, message });
    }
    if let Err(message) = validate_max_tokens(req.max_tokens) {
        return Err(FieldError { param: Param::MaxTokens, message });
    }
    if let Err(message) = validate_presence_penalty(req.presence_penalty.as_ref()) {
        return Err(FieldError { param: Param::PresencePenalty, message });
    }
    if let Err(message) = validate_frequency_penalty(req.frequency_penalty.as_ref()) {
        return Err(FieldError { param: Param::FrequencyPenalty, message });
    }
    if let Err(message) = validate_logprobs(req.logprobs) {
        return Err(FieldError { param: Param::Logprobs, message });
    }
    if let Err(message) = check_stop(req.stop.as_ref()) {
        return Err(FieldError { param: Param::Stop, message });
    }
    if let Err(message) = validate_best_of(req.best_of, req.n) {
        return Err(FieldError { param: Param::BestOf, message });
    }
    Ok(())
}

/// The stop texts of a request as one list: the one text, the list as it
/// is, or no text at all.
pub open spec fn stop_list(stop: Option<StopSequence>) -> Seq<Seq<char>> {
    match stop {
        Some(StopSequence::Single(s)) => seq![s@],
        Some(StopSequence::Multiple(sequences)) => sequences.deep_view(),
        None => Seq::empty(),
    }
}

/// Brings the stop value of a request into one list of texts.
pub fn stop_sequences(stop: &Option<StopSequence>) -> (r: Vec<String>)
    ensures
        r.deep_view() == stop_list(*stop),
{
    let mut out: Vec<String> = Vec::new();
    match stop {
        Some(StopSequence::Single(s)) => {
            out.push(s.clone());
        },
        Some(StopSequence::Multiple(sequences)) => {
            let mut i: usize = 0;
            while i < sequences.len()
                invariant
                    i <= sequences.len(),
                    out.deep_view() == sequences.deep_view().take(i as int),
                decreases sequences.len() - i,
            {
                let ghost before = out.deep_view();
                let sequence = sequences[i].clone();
                out.push(sequence);
                assert(out.deep_view() =~= before.push(sequence@));
                i += 1;
            }
        },
        None => {
        },
    }
    out
}

/// The number of words of `text`, as far as a `u32` can count.
pub open spec fn word_count(text: Seq<char>) -> u32 {
    if words(text).len() <= u32::MAX {
        words(text).len() as u32
    } else {
        u32::MAX
    }
}

/// Counts the words of `text`: a count of tokens for want of an encoding.
pub fn count_tokens(text: &str) -> (r: u32)
    ensures
        r == word_count(text@),
{
    let chars = chars_of(text);
    let mut count: usize = 0;
    let mut after_whitespace = true;
    let mut i: usize = 0;
    while i < chars.len()
        invariant
            i <= chars.len(),
            chars@ == text@,
            count <= i,
            after_whitespace == (i == 0 || is_whitespace(chars@[i - 1])),
            words(text@).len() == count + words_from(text@, i as int).len(),
        decreases chars.len() - i,
    {
        let here = whitespace(chars[i]);
        if !here && after_whitespace {
            count += 1;
        } else {
        }
        after_whitespace = here;
        i += 1;
    }
    if count <= u32::MAX as usize {
        count as u32
    } else {
        u32::MAX
    }
}

/// The tokens of `text` as the reply counts them: under the encoding
/// `family` where there is one and it can count them, and else by the words.
pub open spec fn estimated(family: Option<EncodingFamily>, text: Seq<char>) -> u32 {
    match family {
        Some(family) => match counted(family, text) {
            Ok(count) => count,
            Err(_) => word_count(text),
        },
        None => word_count(text),
    }
}

/// Counts the tokens of `text` as well as can be done.
pub fn estimate_tokens(counter: &Result<TokenCounter, EncodingError>, text: &str) -> (r: u32)
    ensures
        r == estimated(family_in(*counter), text@),
{
    match counter {
        Ok(token_counter) => match token_counter.count_tokens(text) {
            Ok(count) => count,
            Err(_) => count_tokens(text),
        },
        Err(_) => count_tokens(text),
    }
}

/// The tokens of the first `upto` completions together.
pub open spec fn completion_tokens(
    family: Option<EncodingFamily>,
    choices: Seq<Choice>,
    upto: int,
) -> int
    decreases upto,
{
    if upto <= 0 {
        0
    } else {
        completion_tokens(family, choices, upto - 1) + estimated(family, choices[upto - 1].text@)
    }
}

/// The usage that a reply reports: the tokens of the prompt, those of all the
/// completions, and both together, all counted under the encoding `family`.
pub open spec fn usage_reported(
    usage: Usage,
    family: Option<EncodingFamily>,
    prompt: Seq<char>,
    choices: Seq<Choice>,
) -> bool {
    &&& usage.prompt_tokens == estimated(family, prompt)
    &&& usage.completion_tokens == completion_tokens(family, choices, choices.len() as int)
    &&& usage.wf()
}

/// Counts the tokens that a request took.
pub fn usage_for(
    counter: &Result<TokenCounter, EncodingError>,
    prompt: &str,
    choices: &Vec<Choice>,
) -> (r: Usage)
    requires
        choices.len() <= i32::MAX,
    ensures
        usage_reported(r, family_in(*counter), prompt@, choices@),
{
    let prompt_tokens: u64 = estimate_tokens(counter, prompt) as u64;
    let mut completion: u64 = 0;
    let mut i: usize = 0;
    while i < choices.len()
        invariant
            i <= choices.len() <= i32::MAX,
            completion == completion_tokens(family_in(*counter), choices@, i as int),
            completion <= i * u32::MAX,
        decreases choices.len() - i,
    {
        let tokens = estimate_tokens(counter, choices[i].text.as_str());
        assert((i + 1) * u32::MAX == i * u32::MAX + u32::MAX) by (nonlinear_arith);
        assert(i * u32::MAX <= i32::MAX * u32::MAX) by (nonlinear_arith)
            requires
                i <= i32::MAX,
        ;
        completion = completion + tokens as u64;
        i += 1;
    }
    assert(choices.len() * u32::MAX <= i32::MAX * u32::MAX) by (nonlinear_arith)
        requires
            choices.len() <= i32::MAX,
    ;
    Usage {
        prompt_tokens,
        completion_tokens: completion,
        total_tokens: prompt_tokens + completion,
    }
}

/// What starts the name of every reply.
pub open spec fn id_prefix() -> Seq<char> {
    "cmpl-mock-id-"@
}

/// Puts a reply together from its parts.
pub fn assemble_response(
    model: &str,
    unique: &str,
    created: u64,
    choices: Vec<Choice>,
    usage: Usage,
) -> (r: CompletionResponse)
    ensures
        r.id@ == id_prefix() + unique@,
        r.object@ == "text_completion"@,
        r.created == created,
        r.model@ == model@,
        r.choices == choices,
        r.usage == usage,
{
    let mut id = "cmpl-mock-id-".to_string();
    id.append(unique);
    CompletionResponse {
        id,
        object: "text_completion".to_string(),
        created,
        model: model.to_string(),
        choices,
        usage,
    }
}

/// The reply that turns a request down for `failure`.
pub fn reject(failure: FieldError) -> (r: ErrorResponse)
    ensures
        r.error.message@ == failure.message@,
        r.error.kind@ == "invalid_request_error"@,
        r.error.param@ == failure.param.name(),
        r.error.code is None,
{
    ErrorResponse {
        error: ErrorDetail {
            message: failure.message,
            kind: "invalid_request_error".to_string(),
            param: failure.param.as_str().to_string(),
            code: None,
        },
    }
}

/// The prompt of a request: the empty text where it has none.
pub open spec fn prompt_of(req: CompletionRequest) -> Seq<char> {
    match req.prompt {
        Some(prompt) => prompt@,
        None => Seq::empty(),
    }
}

/// The number of completions that a request asks for: 1 where it says nothing.
pub open spec fn n_of(req: CompletionRequest) -> i32 {
    match req.n {
        Some(n) => n,
        None => 1,
    }
}

/// The limit on the tokens that a request sets: 16 where it says nothing.
pub open spec fn max_tokens_of(req: CompletionRequest) -> u32 {
    match req.max_tokens {
        Some(max_tokens) => max_tokens,
        None => 16,
    }
}

/// Whether a request wants its prompt echoed: not where it says nothing.
pub open spec fn echo_of(req: CompletionRequest) -> bool {
    match req.echo {
        Some(echo) => echo,
        None => false,
    }
}

/// `response` answers the request `req`, which passed its checks: it is a
/// `text_completion` for the model of the request, named `cmpl-mock-id-` and
/// something more, with as many completions as were asked for, at the
/// positions 0, 1, 2 and so on, each made from the request, and with the
/// usage that belongs to them, counted under the encoding of the model.
pub open spec fn answers(response: CompletionResponse, req: CompletionRequest) -> bool {
    &&& exists|unique: Seq<char>| response.id@ == id_prefix() + unique
    &&& response.object@ == "text_completion"@
    &&& response.model@ == req.model@
    &&& response.choices@.len() == n_of(req)
    &&& forall|i: int|
        0 <= i < response.choices@.len() ==> (#[trigger] response.choices@[i]).index == i
    &&& forall|i: int|
        0 <= i < response.choices@.len() ==> #[trigger] is_choice(
            response.choices@[i],
            i,
            prompt_of(req),
            stop_list(req.stop),
            max_tokens_of(req),
            echo_of(req),
            req.logprobs,
            req.model@,
        )
    &&& usage_reported(
        response.usage,
        Some(family_of_model(req.model@)),
        prompt_of(req),
        response.choices@,
    )
    &&& response.usage.total_tokens == response.usage.prompt_tokens
        + response.usage.completion_tokens
}

/// Answers a request for completions. A request that fails a check is
/// turned down with status 400, for the first check that it fails; any other
/// is answered with status 200 and its completions.
pub fn handle_completion(req: &CompletionRequest) -> (reply: Reply)
    ensures
        match first_failure(*req) {
            Some((param, message)) => {
                &&& reply matches Reply::Rejected(body)
                &&& body.error.message@ == message
                &&& body.error.kind@ == "invalid_request_error"@
                &&& body.error.param@ == param.name()
                &&& body.error.code is None
            },
            None => reply matches Reply::Completed(response) && answers(response, *req),
        },
        reply.status() == if first_failure(*req) is Some {
            400int
        } else {
            200int
        },
{
    if let Err(failure) = validate_request(req) {
        return Reply::Rejected(reject(failure));
    }
    proof {
        lemma_checked_request(*req);
    }
    let prompt: String = match &req.prompt {
        Some(prompt) => prompt.clone(),
        None => String::new(),
    };
    let max_tokens: u32 = match req.max_tokens {
        Some(max_tokens) => max_tokens,
        None => 16,
    };
    let n: i32 = match req.n {
        Some(n) => n,
        None => 1,
    };
    let echo: bool = match req.echo {
        Some(echo) => echo,
        None => false,
    };
    let logprobs = req.logprobs;
    let stops = stop_sequences(&req.stop);

    let stop_texts = stops.as_slice();
    assert(stop_texts.deep_view() =~= stop_list(req.stop));
    let choices = create_choices(
        n,
        prompt.as_str(),
        stop_texts,
        max_tokens,
        echo,
        logprobs,
        req.model.as_str(),
    );
    let counter = TokenCounter::new(req.model.as_str());
    let usage = usage_for(&counter, prompt.as_str(), &choices);
    let unique = generate_uuid();
    let created = epoch_seconds(get_current_timestamp());
    let response = assemble_response(req.model.as_str(), unique.as_str(), created, choices, usage);
    proof {
        assert(forall|i: int|
            0 <= i < response.choices@.len() ==> #[trigger] is_choice(
                response.choices@[i],
                i,
                prompt_of(*req),
                stop_list(req.stop),
                max_tokens_of(*req),
                echo_of(*req),
                req.logprobs,
                req.model@,
            ));
    }
    Reply::Completed(response)
}

/// A request that passes its checks names a model and asks for one
/// completion at least, of one token at least.
pub proof fn lemma_checked_request(req: CompletionRequest)
    requires
        first_failure(req) is None,
    ensures
        !is_blank(req.model@),
        n_of(req) >= 1,
        max_tokens_of(req) >= 1,
{
    reveal_with_fuel(first_failure_from, 11);
}

/// A check finds this wrong with the request `req`.
pub open spec fn fails(req: CompletionRequest, param: Param) -> bool {
    exists|i: int|
        0 <= i < verdicts(req).len() && (#[trigger] verdicts(req)[i]).0 == param && verdicts(
            req,
        )[i].1 is Some
}

/// No check that comes before the one on `param` finds anything wrong with `req`.
pub open spec fn passes_before(req: CompletionRequest, param: Param) -> bool {
    forall|i: int, j: int|
        0 <= i < j < verdicts(req).len() && (#[trigger] verdicts(req)[j]).0 == param ==> (
        #[trigger] verdicts(req)[i]).1 is None
}

/// A request whose model is blank, be it empty or all whitespace, is turned
/// down for its `model`, whatever else is wrong with it.
pub proof fn law_blank_model_is_rejected(req: CompletionRequest)
    requires
        is_blank(req.model@),
    ensures
        first_failure(req) == Some((Param::Model, missing_model_message())),
{
    reveal_with_fuel(first_failure_from, 2);
}

/// A request with which any check finds something wrong is turned down.
pub proof fn law_failing_request_is_rejected(req: CompletionRequest, param: Param)
    requires
        fails(req, param),
    ensures
        first_failure(req) is Some,
{
    reveal_with_fuel(first_failure_from, 11);
}

/// A request is turned down for the first field, in the order of the checks,
/// that is out of order: a field that fails its check is the one named
/// where no check before its own fails.
pub proof fn law_first_failing_field_is_named(req: CompletionRequest, param: Param)
    requires
        fails(req, param),
        passes_before(req, param),
    ensures
        first_failure(req) matches Some((named, _)) && named == param,
{
    reveal_with_fuel(first_failure_from, 11);
    let checks = verdicts(req);
    let i = choose|i: int| 0 <= i < checks.len() && (#[trigger] checks[i]).0 == param && checks[i].1 is Some;
}

/// The checks on the numbers of a request: a temperature that does not lie
/// from 0 to 2, a nucleus sampling probability that does not lie from 0 to
/// 1, a penalty that does not lie from -2 to 2, a number of completions of 0
/// or less and a limit of 0 tokens each fail the check on their field. A
/// NaN lies within no range and fails as a number out of range does.
pub proof fn law_out_of_range_fails(req: CompletionRequest)
    ensures
        req.temperature matches Some(t) && outside(t.bits, ZERO, TWO) ==> fails(
            req,
            Param::Temperature,
        ),
        req.top_p matches Some(p) && outside(p.bits, ZERO, ONE) ==> fails(req, Param::TopP),
        req.presence_penalty matches Some(p) && outside(p.bits, MINUS_TWO, TWO) ==> fails(
            req,
            Param::PresencePenalty,
        ),
        req.frequency_penalty matches Some(p) && outside(p.bits, MINUS_TWO, TWO) ==> fails(
            req,
            Param::FrequencyPenalty,
        ),
        req.n matches Some(n) && n <= 0 ==> fails(req, Param::N),
        req.max_tokens == Some(0u32) ==> fails(req, Param::MaxTokens),
{
    let checks = verdicts(req);
}

/// A request that is to choose from fewer completions than it asks for
/// fails the check on `best_of`.
pub proof fn law_best_of_below_n_fails(req: CompletionRequest)
    requires
        req.best_of matches Some(best_of) && best_of < n_of(req),
    ensures
        fails(req, Param::BestOf),
{
    let checks = verdicts(req);
}

} // verus!
