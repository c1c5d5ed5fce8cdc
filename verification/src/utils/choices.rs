//! Making the completions of a reply.
//!
//! No model is asked: a completion is the prompt, where the request wants it
//! echoed, cut at the first stop text that occurs in it or else at the limit
//! on its tokens. The log-probabilities that go with it are made up.
use crate::models::completion::{Choice, Logprobs, TopLogprob};
use crate::text::{
    chars_of, decimal, find, first_occurrence, lemma_decimal_is_one_to_one,
    lemma_word_offsets_fit, occurs, push_decimal, split_words, string_of, word_offset, words,
};
use crate::utils::token_counting::{
    counted, family_of_model, truncated, EncodingError, EncodingFamily, TokenCounter,
};
use rand::rngs::ThreadRng;
use rand::Rng;
use vstd::prelude::*;

verus! {

/// The generator of random numbers that `rand` keeps for each thread.
#[verifier::external_type_specification]
#[verifier::external_body]
pub struct ExThreadRng(rand::rngs::ThreadRng);

/// `rand::thread_rng` hands out the generator of the current thread. Nothing
/// is claimed of it.
#[verifier::external_body]
fn thread_generator() -> ThreadRng {
    rand::thread_rng()
}

/// `Rng::gen_range` on the half-open range from 0 to `bound` draws a number
/// of that range. It panics on an empty range, which `bound > 0` rules out.
#[verifier::external_body]
fn draw_below(rng: &mut ThreadRng, bound: u32) -> (r: u32)
    requires
        bound > 0,
    ensures
        r < bound,
{
    rng.gen_range(0..bound)
}

/// A made-up log-probability of a token lies above -5; it is counted in
/// millionths, so this many values are to be had.
pub const TOKEN_LOGPROB_SPAN: u32 = 5_000_000;

/// A made-up log-probability of an alternative lies above -10; it is counted
/// in millionths, so this many values are to be had.
pub const TOP_LOGPROB_SPAN: u32 = 10_000_000;

/// The alternatives to a token are named `token_0` to `token_99`.
pub const ALTERNATIVE_NAMES: u32 = 100;

/// The name of the alternative with the given number.
pub open spec fn alternative_name(number: nat) -> Seq<char> {
    "token_"@ + decimal(number)
}

/// The log-probability, in millionths, that the draw `drawn` stands for:
/// the draw 0 is the log-probability 0, and each next one lies a millionth
/// lower.
pub fn logprob_of(drawn: u32) -> (r: i32)
    requires
        drawn < TOP_LOGPROB_SPAN,
    ensures
        r == -(drawn as int),
{
    -(drawn as i32)
}

/// The alternative that two draws stand for: the first gives its name, the
/// second its log-probability.
pub fn alternative_of(name_drawn: u32, logprob_drawn: u32) -> (r: TopLogprob)
    requires
        logprob_drawn < TOP_LOGPROB_SPAN,
    ensures
        r.token@ == alternative_name(name_drawn as nat),
        r.logprob == -(logprob_drawn as int),
{
    let mut token = "token_".to_string();
    push_decimal(&mut token, name_drawn as u64);
    TopLogprob { token, logprob: logprob_of(logprob_drawn) }
}

/// `alternative` is one that the mock may make up: one of the hundred names,
/// with a log-probability above -10 and not above 0.
pub open spec fn is_mock_alternative(alternative: TopLogprob) -> bool {
    &&& exists|number: nat|
        number < ALTERNATIVE_NAMES && alternative.token@ == #[trigger] alternative_name(number)
    &&& -TOP_LOGPROB_SPAN < alternative.logprob <= 0
}

/// `alternatives` are what the mock may make up as the `count` alternatives
/// to one token: `count` of them, none under a name that another of them
/// has. There are a hundred names only, so from the hundred-and-first
/// alternative on the names come again.
pub open spec fn are_mock_alternatives(alternatives: Seq<TopLogprob>, count: u32) -> bool {
    &&& alternatives.len() == count
    &&& forall|a: int| 0 <= a < count ==> is_mock_alternative(#[trigger] alternatives[a])
    &&& forall|a: int, b: int|
        0 <= a < b < count && b < ALTERNATIVE_NAMES ==> (#[trigger] alternatives[a]).token@ != (
        #[trigger] alternatives[b]).token@
}

/// Two numbers give two names.
pub proof fn lemma_alternative_names_differ(a: nat, b: nat)
    requires
        a != b,
    ensures
        alternative_name(a) != alternative_name(b),
{
    let prefix = "token_"@;
    if alternative_name(a) == alternative_name(b) {
        assert(decimal(a) =~= alternative_name(a).subrange(
            prefix.len() as int,
            alternative_name(a).len() as int,
        ));
        assert(decimal(b) =~= alternative_name(b).subrange(
            prefix.len() as int,
            alternative_name(b).len() as int,
        ));
        lemma_decimal_is_one_to_one(a, b);
    }
}

/// `logprobs` is what the mock may make up for `text` and `count`
/// alternatives: the words of `text` as its tokens, the offset of each word,
/// a log-probability above -5 and not above 0 for each, and `count`
/// alternatives to each.
pub open spec fn is_mock_logprobs(logprobs: Logprobs, text: Seq<char>, count: u32) -> bool {
    &&& logprobs.tokens.deep_view() == words(text)
    &&& logprobs.text_offset@.len() == words(text).len()
    &&& logprobs.token_logprobs@.len() == words(text).len()
    &&& logprobs.top_logprobs@.len() == words(text).len()
    &&& forall|j: int|
        0 <= j < words(text).len() ==> #[trigger] logprobs.text_offset@[j] == word_offset(
            words(text),
            j,
        )
    &&& forall|j: int|
        0 <= j < words(text).len() ==> -TOKEN_LOGPROB_SPAN < #[trigger] logprobs.token_logprobs@[j]
            <= 0
    &&& forall|j: int|
        0 <= j < words(text).len() ==> are_mock_alternatives(
            (#[trigger] logprobs.top_logprobs@[j])@,
            count,
        )
}

/// Makes up `count` alternatives to a token. As long as there are names
/// left, each alternative gets a name that none before it has: the names
/// stand in a pool, and each draw takes one of those that are left in it.
fn draw_alternatives(rng: &mut ThreadRng, count: u32) -> (r: Vec<TopLogprob>)
    ensures
        are_mock_alternatives(r@, count),
{
    let mut pool: Vec<u32> = Vec::new();
    let mut number: u32 = 0;
    while number < ALTERNATIVE_NAMES
        invariant
            number <= ALTERNATIVE_NAMES,
            pool@.len() == number,
            forall|i: int| 0 <= i < number ==> #[trigger] pool@[i] == i,
        decreases ALTERNATIVE_NAMES - number,
    {
        pool.push(number);
        number += 1;
    }
    let mut alternatives: Vec<TopLogprob> = Vec::new();
    let mut made: u32 = 0;
    while made < count
        invariant
            made <= count,
            alternatives@.len() == made,
            pool@.len() == ALTERNATIVE_NAMES,
            forall|i: int| 0 <= i < ALTERNATIVE_NAMES ==> #[trigger] pool@[i] < ALTERNATIVE_NAMES,
            forall|x: int, y: int|
                0 <= x < y < ALTERNATIVE_NAMES ==> #[trigger] pool@[x] != #[trigger] pool@[y],
            forall|a: int|
                0 <= a < made && a < ALTERNATIVE_NAMES ==> (#[trigger] alternatives@[a]).token@
                    == alternative_name(pool@[a] as nat),
            forall|a: int| 0 <= a < made ==> is_mock_alternative(#[trigger] alternatives@[a]),
        decreases count - made,
    {
        let name_drawn: u32 = if made < ALTERNATIVE_NAMES {
            // The names before `made` are given out; take one of the others.
            let here: usize = made as usize;
            let at: usize = here + draw_below(rng, ALTERNATIVE_NAMES - made) as usize;
            let picked: u32 = pool[at];
            let moved: u32 = pool[here];
            pool.set(at, moved);
            pool.set(here, picked);
            picked
        } else {
            draw_below(rng, ALTERNATIVE_NAMES)
        };
        let logprob_drawn = draw_below(rng, TOP_LOGPROB_SPAN);
        let alternative = alternative_of(name_drawn, logprob_drawn);
        assert(alternative.token@ == alternative_name(name_drawn as nat));
        alternatives.push(alternative);
        made += 1;
    }
    assert forall|a: int, b: int|
        0 <= a < b < count && b < ALTERNATIVE_NAMES implies (#[trigger] alternatives@[a]).token@ != (
    #[trigger] alternatives@[b]).token@ by {
        lemma_alternative_names_differ(pool@[a] as nat, pool@[b] as nat);
    }
    alternatives
}

/// The text that a completion starts from: the prompt where it is echoed,
/// and nothing where it is not.
pub open spec fn seed_text(prompt: Seq<char>, echo: bool) -> Seq<char> {
    if echo {
        prompt
    } else {
        Seq::empty()
    }
}

/// What the stop texts from `from` on leave of `seed`: the part of `seed`
/// before the leftmost occurrence of the first stop text, in the order of the
/// list, that occurs in `seed` at all; `None` where none occurs.
pub open spec fn stop_cut(seed: Seq<char>, stops: Seq<Seq<char>>, from: int) -> Option<Seq<char>>
    decreases stops.len() - from,
{
    if from < 0 || from >= stops.len() {
        None
    } else if occurs(seed, stops[from]) {
        Some(seed.take(first_occurrence(seed, stops[from])))
    } else {
        stop_cut(seed, stops, from + 1)
    }
}

/// Cuts `seed` at the first stop text, in the order of the list, that occurs
/// in it.
pub fn cut_at_stop(seed: &str, stop_sequences: &[String]) -> (r: Option<String>)
    ensures
        r.deep_view() == stop_cut(seed@, stop_sequences.deep_view(), 0),
{
    let text = chars_of(seed);
    let mut i: usize = 0;
    while i < stop_sequences.len()
        invariant
            i <= stop_sequences.len(),
            text@ == seed@,
            stop_cut(seed@, stop_sequences.deep_view(), 0) == stop_cut(
                seed@,
                stop_sequences.deep_view(),
                i as int,
            ),
        decreases stop_sequences.len() - i,
    {
        let stop = chars_of(stop_sequences[i].as_str());
        if let Some(at) = find(&text, &stop) {
            let cut = string_of(&text, 0, at);
            return Some(cut);
        }
        i += 1;
    }
    None
}

/// The encoding of a counter, where there is a counter.
pub open spec fn family_in(counter: Result<TokenCounter, EncodingError>) -> Option<
    EncodingFamily,
> {
    match counter {
        Ok(counter) => Some(counter.family()),
        Err(_) => None,
    }
}

/// What the limit on the tokens leaves of `seed` under the encoding
/// `family`: where `seed` has `max_tokens` tokens or more, its first
/// `max_tokens` tokens as a text. `None` where `seed` has fewer tokens, and
/// where there is no encoding or the encoding fails on the text or on the
/// tokens that are kept: the limit is then not applied.
pub open spec fn length_cut(family: Option<EncodingFamily>, seed: Seq<char>, max_tokens: u32) -> Option<
    Seq<char>,
> {
    match family {
        Some(family) => match counted(family, seed) {
            Ok(count) => if count >= max_tokens {
                match truncated(family, seed, max_tokens) {
                    Ok(cut) => Some(cut),
                    Err(_) => None,
                }
            } else {
                None
            },
            Err(_) => None,
        },
        None => None,
    }
}

/// Cuts `seed` down to `max_tokens` tokens where it has that many or more.
pub fn cut_to_length(
    counter: &Result<TokenCounter, EncodingError>,
    seed: &str,
    max_tokens: u32,
) -> (r: Option<String>)
    ensures
        r.deep_view() == length_cut(family_in(*counter), seed@, max_tokens),
        seed@.len() == 0 && max_tokens >= 1 ==> r is None,
{
    match counter {
        Ok(token_counter) => {
            match token_counter.count_tokens(seed) {
                Ok(count) => {
                    if count >= max_tokens {
                        match token_counter.truncate_to_tokens(seed, max_tokens) {
                            Ok(cut) => Some(cut),
                            Err(_) => None,
                        }
                    } else {
                        None
                    }
                },
                Err(_) => None,
            }
        },
        Err(_) => None,
    }
}

/// `after` is `before` once its text is made from `seed` when no stop text
/// occurs in `seed`: cut to the limit on the tokens under the encoding
/// `family` and marked `length`, or left as it is and marked `content`; with
/// made-up log-probabilities for the text where `logprobs_n` asks for them.
pub open spec fn finished_unstopped(
    before: Choice,
    after: Choice,
    seed: Seq<char>,
    family: Option<EncodingFamily>,
    max_tokens: u32,
    logprobs_n: Option<u32>,
) -> bool {
    &&& after.index == before.index
    &&& match length_cut(family, seed, max_tokens) {
        Some(cut) => after.text@ == cut && after.finish_reason.deep_view() == Some("length"@),
        None => after.text@ == seed && after.finish_reason.deep_view() == Some("content"@),
    }
    &&& match logprobs_n {
        Some(count) => after.logprobs matches Some(logprobs) && is_mock_logprobs(
            logprobs,
            after.text@,
            count,
        ),
        None => after.logprobs == before.logprobs,
    }
}

/// `after` is `before` once its text is made: what `generate_text` does.
/// Where no stop text cuts the text, the limit on the tokens is applied
/// under the encoding of `model`; an empty text has no tokens and is never
/// cut by a limit of one token or more.
pub open spec fn generated(
    before: Choice,
    after: Choice,
    prompt: Seq<char>,
    stops: Seq<Seq<char>>,
    max_tokens: u32,
    echo: bool,
    logprobs_n: Option<u32>,
    model: Seq<char>,
) -> bool {
    let seed = seed_text(prompt, echo);
    match stop_cut(seed, stops, 0) {
        Some(cut) => {
            &&& after.index == before.index
            &&& after.text@ == cut
            &&& after.finish_reason.deep_view() == Some("stop"@)
            &&& after.logprobs == before.logprobs
        },
        None => {
            &&& finished_unstopped(
                before,
                after,
                seed,
                Some(family_of_model(model)),
                max_tokens,
                logprobs_n,
            )
            &&& seed.len() == 0 && max_tokens >= 1 ==> after.text@.len() == 0
                && after.finish_reason.deep_view() == Some("content"@)
        },
    }
}

/// `choice` is the completion at position `index` of a reply: a completion
/// that started out without log-probabilities at that position and had its
/// text made by `generate_text`.
pub open spec fn is_choice(
    choice: Choice,
    index: int,
    prompt: Seq<char>,
    stops: Seq<Seq<char>>,
    max_tokens: u32,
    echo: bool,
    logprobs_n: Option<u32>,
    model: Seq<char>,
) -> bool {
    exists|before: Choice|
        {
            &&& before.index == index
            &&& before.logprobs is None
            &&& #[trigger] generated(
                before,
                choice,
                prompt,
                stops,
                max_tokens,
                echo,
                logprobs_n,
                model,
            )
        }
}

impl Choice {
    /// The completion at position `index` with the given text, after the
    /// prompt where the prompt is echoed. It has no end and no
    /// log-probabilities yet.
    pub fn new(index: i32, text: String, echo: bool, prompt: &str) -> (r: Self)
        ensures
            r.index == index,
            r.text@ == seed_text(prompt@, echo) + text@,
            r.logprobs is None,
            r.finish_reason is None,
    {
        let final_text = if echo {
            let mut echoed = prompt.to_string();
            echoed.append(text.as_str());
            echoed
        } else {
            text
        };
        Choice { text: final_text, index, logprobs: None, finish_reason: None }
    }

    /// Makes up log-probabilities for `text`: its words are the tokens, each
    /// with its offset, a log-probability and `logprobs_n` alternatives.
    pub fn generate_mock_logprobs(text: &str, logprobs_n: u32) -> (r: Logprobs)
        ensures
            is_mock_logprobs(r, text@, logprobs_n),
    {
        let mut rng = thread_generator();

        let tokens = split_words(text);
        let count: usize = tokens.len();
        let ghost all = words(text@);
        let text_len: usize = text.unicode_len();

        let mut current_offset: usize = 0;
        let mut text_offset: Vec<usize> = Vec::new();
        let mut i: usize = 0;
        while i < count
            invariant
                i <= count,
                count == tokens.len(),
                all == words(text@),
                tokens.deep_view() == all,
                text_len == text@.len(),
                text_offset@.len() == i,
                i < count ==> current_offset == word_offset(all, i as int),
                forall|j: int| 0 <= j < i ==> #[trigger] text_offset@[j] == word_offset(all, j),
            decreases count - i,
        {
            text_offset.push(current_offset);
            if i + 1 < count {
                let length: usize = tokens[i].as_str().unicode_len();
                proof {
                    lemma_word_offsets_fit(text@, i as int);
                    lemma_word_offsets_fit(text@, i + 1);
                }
                current_offset = current_offset + length + 1;
            }
            i += 1;
        }

        let mut token_logprobs: Vec<i32> = Vec::new();
        let mut i: usize = 0;
        while i < count
            invariant
                i <= count,
                token_logprobs@.len() == i,
                forall|j: int|
                    0 <= j < i ==> -TOKEN_LOGPROB_SPAN < #[trigger] token_logprobs@[j] <= 0,
            decreases count - i,
        {
            let drawn = draw_below(&mut rng, TOKEN_LOGPROB_SPAN);
            token_logprobs.push(logprob_of(drawn));
            i += 1;
        }

        let mut top_logprobs: Vec<Vec<TopLogprob>> = Vec::new();
        let mut i: usize = 0;
        while i < count
            invariant
                i <= count,
                top_logprobs@.len() == i,
                forall|j: int|
                    0 <= j < i ==> are_mock_alternatives(
                        (#[trigger] top_logprobs@[j])@,
                        logprobs_n,
                    ),
            decreases count - i,
        {
            let alternatives = draw_alternatives(&mut rng, logprobs_n);
            top_logprobs.push(alternatives);
            i += 1;
        }

        Logprobs { tokens, token_logprobs, text_offset, top_logprobs }
    }

    /// Ends the completion when no stop text occurs in `generated`: cuts
    /// `generated` to the limit on the tokens where `counter` finds that many
    /// or more, and makes up log-probabilities where they are asked for.
    pub fn finish_unstopped(
        &mut self,
        generated: String,
        counter: &Result<TokenCounter, EncodingError>,
        max_tokens: u32,
        logprobs_n: Option<u32>,
    )
        ensures
            finished_unstopped(
                *old(self),
                *final(self),
                generated@,
                family_in(*counter),
                max_tokens,
                logprobs_n,
            ),
            generated@.len() == 0 && max_tokens >= 1 ==> {
                &&& final(self).text@.len() == 0
                &&& final(self).finish_reason.deep_view() == Some("content"@)
            },
    {
        match cut_to_length(counter, generated.as_str(), max_tokens) {
            Some(cut) => {
                self.finish_reason = Some("length".to_string());
                self.text = cut;
            },
            None => {
                self.text = generated;
                self.finish_reason = Some("content".to_string());
            },
        }
        if let Some(n) = logprobs_n {
            self.logprobs = Some(Choice::generate_mock_logprobs(self.text.as_str(), n));
        }
    }

    /// Makes the text of the completion. The text starts as the prompt,
    /// where it is echoed, and as nothing where it is not. The first stop
    /// text that occurs in it cuts it off and ends the completion with
    /// `stop`. Failing that, the limit of `max_tokens` cuts it and ends it
    /// with `length`, or it stays whole and ends with `content`; these two
    /// come with log-probabilities where `logprobs_n` asks for them.
    pub fn generate_text(
        &mut self,
        prompt: &str,
        stop_sequences: &[String],
        max_tokens: u32,
        echo: bool,
        logprobs_n: Option<u32>,
        model: &str,
    )
        ensures
            generated(
                *old(self),
                *final(self),
                prompt@,
                stop_sequences.deep_view(),
                max_tokens,
                echo,
                logprobs_n,
                model@,
            ),
    {
        let generated = if echo {
            prompt.to_string()
        } else {
            String::new()
        };

        if let Some(cut) = cut_at_stop(generated.as_str(), stop_sequences) {
            self.finish_reason = Some("stop".to_string());
            self.text = cut;
            return ;
        }
        let token_counter = TokenCounter::new(model);
        self.finish_unstopped(generated, &token_counter, max_tokens, logprobs_n);
    }
}

/// The completions of a reply: `n` of them, at the positions 0 to `n - 1` in
/// that order, each made as `generate_text` makes it; none where `n` is 0 or
/// less.
pub fn create_choices(
    n: i32,
    prompt: &str,
    stop_sequences: &[String],
    max_tokens: u32,
    echo: bool,
    logprobs: Option<u32>,
    model: &str,
) -> (r: Vec<Choice>)
    ensures
        r@.len() == if n > 0 {
            n as int
        } else {
            0
        },
        forall|i: int| 0 <= i < r@.len() ==> (#[trigger] r@[i]).index == i,
        forall|i: int|
            0 <= i < r@.len() ==> #[trigger] is_choice(
                r@[i],
                i,
                prompt@,
                stop_sequences.deep_view(),
                max_tokens,
                echo,
                logprobs,
                model@,
            ),
{
    let mut choices: Vec<Choice> = Vec::new();
    let mut i: i32 = 0;
    while i < n
        invariant
            0 <= i,
            i <= n || i == 0,
            choices@.len() == i,
            forall|k: int| 0 <= k < choices@.len() ==> (#[trigger] choices@[k]).index == k,
            forall|k: int|
                0 <= k < choices@.len() ==> #[trigger] is_choice(
                    choices@[k],
                    k,
                    prompt@,
                    stop_sequences.deep_view(),
                    max_tokens,
                    echo,
                    logprobs,
                    model@,
                ),
        decreases n - i,
    {
        let mut choice = Choice::new(i, String::new(), echo, prompt);
        let ghost before = choice;
        choice.generate_text(prompt, stop_sequences, max_tokens, echo, logprobs, model);
        assert(generated(
            before,
            choice,
            prompt@,
            stop_sequences.deep_view(),
            max_tokens,
            echo,
            logprobs,
            model@,
        ));
        choices.push(choice);
        i += 1;
    }
    choices
}

/// A stop text that is not empty does not occur in the empty text, so no
/// list of such stop texts cuts it.
pub proof fn lemma_nothing_stops_the_empty_text(stops: Seq<Seq<char>>, from: int)
    requires
        forall|i: int| 0 <= i < stops.len() ==> (#[trigger] stops[i]).len() > 0,
    ensures
        stop_cut(Seq::empty(), stops, from) is None,
    decreases stops.len() - from,
{
    if 0 <= from < stops.len() {
        assert forall|at: int| !crate::text::occurs_at(Seq::empty(), stops[from], at) by {}
        lemma_nothing_stops_the_empty_text(stops, from + 1);
    }
}

/// A completion that does not echo its prompt is empty and ends with
/// `content`, whatever the prompt, where no stop text cuts the empty text
/// and the limit is of one token at least.
pub proof fn law_without_echo_the_text_is_empty(
    before: Choice,
    after: Choice,
    prompt: Seq<char>,
    stops: Seq<Seq<char>>,
    max_tokens: u32,
    logprobs_n: Option<u32>,
    model: Seq<char>,
)
    requires
        generated(before, after, prompt, stops, max_tokens, false, logprobs_n, model),
        stop_cut(Seq::empty(), stops, 0) is None,
        max_tokens >= 1,
    ensures
        after.text@ == Seq::<char>::empty(),
        after.finish_reason.deep_view() == Some("content"@),
{
}

/// The completions of a reply stand at the positions 0, 1, 2 and so on:
/// the one at position `i` has the index `i`.
pub proof fn law_choices_are_indexed_in_order(
    choice: Choice,
    index: int,
    prompt: Seq<char>,
    stops: Seq<Seq<char>>,
    max_tokens: u32,
    echo: bool,
    logprobs_n: Option<u32>,
    model: Seq<char>,
)
    requires
        is_choice(choice, index, prompt, stops, max_tokens, echo, logprobs_n, model),
    ensures
        choice.index == index,
{
}

/// A prompt that is echoed, that no stop text cuts and that has as many
/// tokens as the limit or more is cut to its first tokens, as many as the
/// limit says, and ends with `length`, wherever these tokens are a text.
pub proof fn law_limit_cuts_the_echoed_prompt(
    before: Choice,
    after: Choice,
    prompt: Seq<char>,
    stops: Seq<Seq<char>>,
    max_tokens: u32,
    logprobs_n: Option<u32>,
    model: Seq<char>,
)
    requires
        generated(before, after, prompt, stops, max_tokens, true, logprobs_n, model),
        stop_cut(prompt, stops, 0) is None,
        counted(family_of_model(model), prompt) matches Ok(count) && count >= max_tokens,
        truncated(family_of_model(model), prompt, max_tokens) is Ok,
    ensures
        Ok::<Seq<char>, EncodingError>(after.text@) == truncated(
            family_of_model(model),
            prompt,
            max_tokens,
        ),
        after.finish_reason.deep_view() == Some("length"@),
{
}

/// The completions of a reply are alike: any two of them have the same text
/// and the same end. Only their positions differ, and the log-probabilities
/// that are made up for them.
pub proof fn law_choices_are_alike(
    first: Choice,
    second: Choice,
    first_index: int,
    second_index: int,
    prompt: Seq<char>,
    stops: Seq<Seq<char>>,
    max_tokens: u32,
    echo: bool,
    logprobs_n: Option<u32>,
    model: Seq<char>,
)
    requires
        is_choice(first, first_index, prompt, stops, max_tokens, echo, logprobs_n, model),
        is_choice(second, second_index, prompt, stops, max_tokens, echo, logprobs_n, model),
    ensures
        first.text@ == second.text@,
        first.finish_reason.deep_view() == second.finish_reason.deep_view(),
{
}

} // verus!
