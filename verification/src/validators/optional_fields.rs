//! The checks on the fields that a request may leave out. Each returns a
//! message that names what was found wrong, with the offending value in it.
use crate::models::binary32::{outside, Binary32, MINUS_TWO, ONE, TWO, ZERO};
use crate::text::{decimal, push_decimal, push_signed_decimal, signed_decimal};
use vstd::prelude::*;

verus! {

/// Where a completion stops: at one text, or at the first of several.
#[derive(Debug, Clone)]
pub enum StopSequence {
    Single(String),
    Multiple(Vec<String>),
}

/// The answer `r` of a check is the one that `verdict` asks for: the message
/// where there is one, and success where there is none.
pub open spec fn agrees(r: Result<(), String>, verdict: Option<Seq<char>>) -> bool {
    match verdict {
        Some(message) => r matches Err(m) && m@ == message,
        None => r is Ok,
    }
}

/// What is wrong with a number that does not lie from `low` to `high`, be it
/// below `low`, above `high` or no number at all: `complaint`, and the number
/// as it is shown after it.
pub open spec fn range_verdict(
    value: Option<&Binary32>,
    low: u32,
    high: u32,
    complaint: Seq<char>,
) -> Option<Seq<char>> {
    match value {
        Some(number) => if outside(number.bits, low, high) {
            Some(complaint + number.shown@)
        } else {
            None
        },
        None => None,
    }
}

/// What is wrong with a temperature: it does not lie from 0 to 2.
pub open spec fn temperature_verdict(temperature: Option<&Binary32>) -> Option<Seq<char>> {
    range_verdict(temperature, ZERO, TWO, "Temperature must be between 0.0 and 2.0, got "@)
}

/// The temperature, where given, lies between 0 and 2.
pub fn validate_temperature(temperature: Option<&Binary32>) -> (r: Result<(), String>)
    ensures
        agrees(r, temperature_verdict(temperature)),
{
    if let Some(temp) = temperature {
        if temp.is_outside(ZERO, TWO) {
            let mut message = "Temperature must be between 0.0 and 2.0, got ".to_string();
            message.append(temp.shown.as_str());
            return Err(message);
        }
    }
    Ok(())
}

/// What is wrong with a nucleus sampling probability: it does not lie from
/// 0 to 1.
pub open spec fn top_p_verdict(top_p: Option<&Binary32>) -> Option<Seq<char>> {
    range_verdict(top_p, ZERO, ONE, "Top_p must be between 0.0 and 1.0, got "@)
}

/// The nucleus sampling probability, where given, lies between 0 and 1.
pub fn validate_top_p(top_p: Option<&Binary32>) -> (r: Result<(), String>)
    ensures
        agrees(r, top_p_verdict(top_p)),
{
    if let Some(p) = top_p {
        if p.is_outside(ZERO, ONE) {
            let mut message = "Top_p must be between 0.0 and 1.0, got ".to_string();
            message.append(p.shown.as_str());
            return Err(message);
        }
    }
    Ok(())
}

/// What is wrong with a number of completions: it is 0 or less.
pub open spec fn n_verdict(n: Option<i32>) -> Option<Seq<char>> {
    match n {
        Some(value) => if value <= 0 {
            Some("n must be a positive integer, got "@ + signed_decimal(value as int))
        } else {
            None
        },
        None => None,
    }
}

/// The number of completions, where given, is 1 at least.
pub fn validate_n(n: Option<i32>) -> (r: Result<(), String>)
    ensures
        agrees(r, n_verdict(n)),
{
    if let Some(value) = n {
        if value <= 0 {
            let mut message = "n must be a positive integer, got ".to_string();
            push_signed_decimal(&mut message, value as i64);
            return Err(message);
        }
    }
    Ok(())
}

/// What is wrong with a limit on the tokens of a completion: it is 0.
pub open spec fn max_tokens_verdict(max_tokens: Option<u32>) -> Option<Seq<char>> {
    match max_tokens {
        Some(value) => if value == 0 {
            Some("max_tokens must be a positive integer, got "@ + decimal(value as nat))
        } else {
            None
        },
        None => None,
    }
}

/// The limit on the tokens of a completion, where given, is 1 at least.
pub fn validate_max_tokens(max_tokens: Option<u32>) -> (r: Result<(), String>)
    ensures
        agrees(r, max_tokens_verdict(max_tokens)),
{
    if let Some(value) = max_tokens {
        if value == 0 {
            let mut message = "max_tokens must be a positive integer, got ".to_string();
            push_decimal(&mut message, value as u64);
            return Err(message);
        }
    }
    Ok(())
}

/// What is wrong with a presence penalty: it does not lie from -2 to 2.
pub open spec fn presence_penalty_verdict(presence_penalty: Option<&Binary32>) -> Option<
    Seq<char>,
> {
    range_verdict(
        presence_penalty,
        MINUS_TWO,
        TWO,
        "Presence penalty must be between -2.0 and 2.0, got "@,
    )
}

/// The presence penalty, where given, lies between -2 and 2.
pub fn validate_presence_penalty(presence_penalty: Option<&Binary32>) -> (r: Result<(), String>)
    ensures
        agrees(r, presence_penalty_verdict(presence_penalty)),
{
    if let Some(value) = presence_penalty {
        if value.is_outside(MINUS_TWO, TWO) {
            let mut message = "Presence penalty must be between -2.0 and 2.0, got ".to_string();
            message.append(value.shown.as_str());
            return Err(message);
        }
    }
    Ok(())
}

/// What is wrong with a frequency penalty: it does not lie from -2 to 2.
pub open spec fn frequency_penalty_verdict(frequency_penalty: Option<&Binary32>) -> Option<
    Seq<char>,
> {
    range_verdict(
        frequency_penalty,
        MINUS_TWO,
        TWO,
        "Frequency penalty must be between -2.0 and 2.0, got "@,
    )
}

/// The frequency penalty, where given, lies between -2 and 2.
pub fn validate_frequency_penalty(frequency_penalty: Option<&Binary32>) -> (r: Result<
    (),
    String,
>)
    ensures
        agrees(r, frequency_penalty_verdict(frequency_penalty)),
{
    if let Some(value) = frequency_penalty {
        if value.is_outside(MINUS_TWO, TWO) {
            let mut message = "Frequency penalty must be between -2.0 and 2.0, got ".to_string();
            message.append(value.shown.as_str());
            return Err(message);
        }
    }
    Ok(())
}

/// What is wrong with the number of completions to choose from: it is 0 or
/// less, or, failing that, less than the number of completions to return.
pub open spec fn best_of_verdict(best_of: Option<i32>, n: Option<i32>) -> Option<Seq<char>> {
    match best_of {
        Some(b) => if b <= 0 {
            Some("best_of must be a positive integer, got "@ + signed_decimal(b as int))
        } else {
            match n {
                Some(count) => if b < count {
                    Some(
                        "best_of must be greater than or equal to n, got best_of="@
                            + signed_decimal(b as int) + " and n="@ + signed_decimal(
                            count as int,
                        ),
                    )
                } else {
                    None
                },
                None => None,
            }
        },
        None => None,
    }
}

/// The number of completions to choose from, where given, is 1 at least, and
/// no less than the number of completions to return, where that is given.
pub fn validate_best_of(best_of: Option<i32>, n: Option<i32>) -> (r: Result<(), String>)
    ensures
        agrees(r, best_of_verdict(best_of, n)),
{
    if let Some(best_of_value) = best_of {
        if best_of_value <= 0 {
            let mut message = "best_of must be a positive integer, got ".to_string();
            push_signed_decimal(&mut message, best_of_value as i64);
            return Err(message);
        }
        if let Some(n_value) = n {
            if best_of_value < n_value {
                let mut message =
                    "best_of must be greater than or equal to n, got best_of=".to_string();
                push_signed_decimal(&mut message, best_of_value as i64);
                message.append(" and n=");
                push_signed_decimal(&mut message, n_value as i64);
                return Err(message);
            }
        }
    }
    Ok(())
}

/// A count of alternatives cannot be negative, so every one is accepted.
pub fn validate_logprobs(logprobs: Option<u32>) -> (r: Result<(), String>)
    ensures
        r is Ok,
{
    Ok(())
}

/// The first position from `from` on at which `stops` holds an empty text;
/// the length of `stops` where there is none.
pub open spec fn first_empty(stops: Seq<Seq<char>>, from: int) -> int
    decreases stops.len() - from,
{
    if from < 0 || from >= stops.len() {
        stops.len() as int
    } else if stops[from].len() == 0 {
        from
    } else {
        first_empty(stops, from + 1)
    }
}

/// What is wrong with a stop value: the one text is empty, the list holds no
/// text, or, failing that, the list holds an empty text; the first of these
/// is the one named.
pub open spec fn stop_verdict(stop: Option<&StopSequence>) -> Option<Seq<char>> {
    match stop {
        None => None,
        Some(StopSequence::Single(s)) => if s@.len() == 0 {
            Some("Stop sequence cannot be empty"@)
        } else {
            None
        },
        Some(StopSequence::Multiple(sequences)) => if sequences.len() == 0 {
            Some("Stop sequences array cannot be empty"@)
        } else {
            let index = first_empty(sequences.deep_view(), 0);
            if index < sequences.len() {
                Some("Stop sequence at index "@ + decimal(index as nat) + " cannot be empty"@)
            } else {
                None
            }
        },
    }
}

/// `first_empty` finds an empty text, and the first one, wherever there is one.
pub proof fn lemma_first_empty(stops: Seq<Seq<char>>, from: int)
    requires
        0 <= from <= stops.len(),
    ensures
        from <= first_empty(stops, from) <= stops.len(),
        forall|i: int| from <= i < first_empty(stops, from) ==> (#[trigger] stops[i]).len() > 0,
        first_empty(stops, from) < stops.len() ==> stops[first_empty(stops, from)].len() == 0,
    decreases stops.len() - from,
{
    if from < stops.len() && stops[from].len() != 0 {
        lemma_first_empty(stops, from + 1);
    }
}

/// The stop value, where given, holds no empty text, and a list holds one
/// text at least.
pub fn check_stop(stop: Option<&StopSequence>) -> (r: Result<(), String>)
    ensures
        agrees(r, stop_verdict(stop)),
{
    if let Some(stop_value) = stop {
        match stop_value {
            StopSequence::Single(s) => {
                if s.as_str().is_empty() {
                    return Err("Stop sequence cannot be empty".to_string());
                }
            },
            StopSequence::Multiple(sequences) => {
                if sequences.len() == 0 {
                    return Err("Stop sequences array cannot be empty".to_string());
                }
                let mut i: usize = 0;
                while i < sequences.len()
                    invariant
                        i <= sequences.len(),
                        first_empty(sequences.deep_view(), 0) == first_empty(
                            sequences.deep_view(),
                            i as int,
                        ),
                        stop == Some(stop_value),
                        *stop_value == StopSequence::Multiple(*sequences),
                        sequences.len() > 0,
                    decreases sequences.len() - i,
                {
                    if sequences[i].as_str().is_empty() {
                        let mut message = "Stop sequence at index ".to_string();
                        push_decimal(&mut message, i as u64);
                        message.append(" cannot be empty");
                        return Err(message);
                    }
                    i += 1;
                }
            },
        }
    }
    Ok(())
}

/// The stop value, where given, holds no empty text, and a list holds one
/// text at least.
pub fn validate_stop(stop: Option<StopSequence>) -> (r: Result<(), String>)
    ensures
        agrees(
            r,
            stop_verdict(
                match stop {
                    Some(s) => Some(&s),
                    None => None,
                },
            ),
        ),
{
    check_stop(stop.as_ref())
}

} // verus!
