use completion_mock::models::completion::{Choice, Logprobs};
use std::collections::HashSet;
use completion_mock::utils::choices::{
    alternative_of, create_choices, cut_at_stop, cut_to_length, logprob_of,
};
use completion_mock::utils::token_counting::{EncodingError, TokenCounter};

fn stops(texts: &[&str]) -> Vec<String> {
    texts.iter().map(|s| s.to_string()).collect()
}

#[test]
fn three_choices_are_indexed_in_order() {
    let choices = create_choices(3, "hello", &[], 16, true, None, "gpt-4");
    assert_eq!(choices.len(), 3);
    assert_eq!(choices[0].index, 0);
    assert_eq!(choices[1].index, 1);
    assert_eq!(choices[2].index, 2);
    for choice in &choices {
        assert_eq!(choice.text, "hello");
        assert_eq!(choice.finish_reason.as_deref(), Some("content"));
        assert!(choice.logprobs.is_none());
    }
}

#[test]
fn no_choices_for_a_count_of_zero_or_less() {
    assert!(create_choices(0, "hello", &[], 16, true, None, "gpt-4").is_empty());
    assert!(create_choices(-5, "hello", &[], 16, true, None, "gpt-4").is_empty());
}

#[test]
fn a_stop_text_cuts_the_echoed_prompt() {
    let choices =
        create_choices(1, "hello world end", &stops(&["world"]), 16, true, None, "gpt-4");
    assert_eq!(choices.len(), 1);
    assert_eq!(choices[0].text, "hello ");
    assert_eq!(choices[0].finish_reason.as_deref(), Some("stop"));
    assert!(choices[0].logprobs.is_none());
}

#[test]
fn a_stopped_choice_gets_no_logprobs() {
    let mut choice = Choice::new(0, String::new(), true, "hello world end");
    choice.generate_text("hello world end", &stops(&["world"]), 16, true, Some(2), "gpt-4");
    assert_eq!(choice.text, "hello ");
    assert_eq!(choice.finish_reason.as_deref(), Some("stop"));
    assert!(choice.logprobs.is_none());
}

#[test]
fn the_first_stop_of_the_list_wins_over_the_leftmost() {
    // "end" stands later in the text than "world", but earlier in the list.
    assert_eq!(
        cut_at_stop("hello world end", &stops(&["end", "world"])),
        Some("hello world ".to_string())
    );
    assert_eq!(
        cut_at_stop("hello world end", &stops(&["nowhere", "world", "hello"])),
        Some("hello ".to_string())
    );
}

#[test]
fn a_stop_text_cuts_at_its_leftmost_occurrence() {
    assert_eq!(cut_at_stop("abcabc", &stops(&["bc"])), Some("a".to_string()));
    assert_eq!(cut_at_stop("abc", &stops(&["abc"])), Some("".to_string()));
    assert_eq!(cut_at_stop("héllo wörld", &stops(&["ö"])), Some("héllo w".to_string()));
}

#[test]
fn no_stop_text_no_cut() {
    assert_eq!(cut_at_stop("hello world end", &stops(&[])), None);
    assert_eq!(cut_at_stop("hello world end", &stops(&["x", "worlds"])), None);
    assert_eq!(cut_at_stop("", &stops(&["a"])), None);
}

#[test]
fn an_empty_stop_text_cuts_everything() {
    assert_eq!(cut_at_stop("hello", &stops(&[""])), Some("".to_string()));
    assert_eq!(cut_at_stop("", &stops(&[""])), Some("".to_string()));
}

#[test]
fn the_limit_cuts_the_echoed_prompt_to_two_tokens() {
    let prompt = "hello world end of the story";
    let counter = TokenCounter::new("gpt-4").unwrap();
    assert!(counter.count_tokens(prompt).unwrap() > 2);

    let choices = create_choices(1, prompt, &[], 2, true, None, "gpt-4");
    assert_eq!(choices.len(), 1);
    assert_eq!(choices[0].finish_reason.as_deref(), Some("length"));
    assert_eq!(choices[0].text, "hello world");
    assert_eq!(counter.count_tokens(&choices[0].text), Ok(2));
}

#[test]
fn a_prompt_at_the_limit_ends_with_length() {
    let counter = TokenCounter::new("gpt-4").unwrap();
    assert_eq!(counter.count_tokens("hello world end"), Ok(3));
    let choices = create_choices(1, "hello world end", &[], 3, true, None, "gpt-4");
    assert_eq!(choices[0].text, "hello world end");
    assert_eq!(choices[0].finish_reason.as_deref(), Some("length"));
}

#[test]
fn a_prompt_under_the_limit_ends_with_content() {
    let choices = create_choices(1, "hello world end", &[], 4, true, None, "gpt-4");
    assert_eq!(choices[0].text, "hello world end");
    assert_eq!(choices[0].finish_reason.as_deref(), Some("content"));
}

#[test]
fn without_echo_the_text_is_empty() {
    let choices =
        create_choices(2, "hello world end", &stops(&["world"]), 16, false, None, "gpt-4");
    assert_eq!(choices.len(), 2);
    for choice in &choices {
        assert_eq!(choice.text, "");
        assert_eq!(choice.finish_reason.as_deref(), Some("content"));
    }
    let choices = create_choices(1, "anything at all", &[], 1, false, None, "text-davinci-003");
    assert_eq!(choices[0].text, "");
    assert_eq!(choices[0].finish_reason.as_deref(), Some("content"));
}

#[test]
fn the_limit_is_skipped_without_a_counter() {
    let none: Result<TokenCounter, EncodingError> = Err(EncodingError::Unavailable);
    assert_eq!(cut_to_length(&none, "hello world end", 1), None);

    let mut choice = Choice::new(4, String::new(), true, "hello world end");
    choice.finish_unstopped("hello world end".to_string(), &none, 1, None);
    assert_eq!(choice.index, 4);
    assert_eq!(choice.text, "hello world end");
    assert_eq!(choice.finish_reason.as_deref(), Some("content"));
    assert!(choice.logprobs.is_none());
}

#[test]
fn the_limit_is_skipped_where_the_cut_is_no_text() {
    // One token of this character is no text, so the text stays whole.
    let counter = TokenCounter::new("gpt-4");
    assert_eq!(cut_to_length(&counter, "\u{1F9D9}", 1), None);
    let mut choice = Choice::new(0, String::new(), true, "\u{1F9D9}");
    choice.finish_unstopped("\u{1F9D9}".to_string(), &counter, 1, None);
    assert_eq!(choice.text, "\u{1F9D9}");
    assert_eq!(choice.finish_reason.as_deref(), Some("content"));
}

#[test]
fn the_limit_cuts_with_a_counter() {
    let counter = TokenCounter::new("gpt-4");
    assert_eq!(cut_to_length(&counter, "hello world end", 2), Some("hello world".to_string()));
    assert_eq!(cut_to_length(&counter, "hello world end", 3), Some("hello world end".to_string()));
    assert_eq!(cut_to_length(&counter, "hello world end", 4), None);
    assert_eq!(cut_to_length(&counter, "", 1), None);
    assert_eq!(cut_to_length(&counter, "", 0), Some("".to_string()));
}

#[test]
fn new_choice_echoes_the_prompt() {
    let choice = Choice::new(7, " and more".to_string(), true, "prompt");
    assert_eq!(choice.index, 7);
    assert_eq!(choice.text, "prompt and more");
    assert!(choice.logprobs.is_none());
    assert!(choice.finish_reason.is_none());

    let choice = Choice::new(0, "only this".to_string(), false, "prompt");
    assert_eq!(choice.text, "only this");
}

#[test]
fn draws_stand_for_alternatives() {
    assert_eq!(logprob_of(0), 0);
    assert_eq!(logprob_of(1), -1);
    assert_eq!(logprob_of(4_999_999), -4_999_999);
    assert_eq!(logprob_of(9_999_999), -9_999_999);

    let alternative = alternative_of(42, 1_500_000);
    assert_eq!(alternative.token, "token_42");
    assert_eq!(alternative.logprob, -1_500_000);
    let alternative = alternative_of(0, 0);
    assert_eq!(alternative.token, "token_0");
    assert_eq!(alternative.logprob, 0);
    assert_eq!(alternative_of(99, 9_999_999).token, "token_99");
}

#[test]
fn mock_logprobs_run_in_parallel_to_the_words() {
    let logprobs = Choice::generate_mock_logprobs("hello  wörld\tend", 3);
    assert_eq!(logprobs.tokens, vec!["hello", "wörld", "end"]);
    assert_eq!(logprobs.text_offset, vec![0, 6, 12]);
    assert_eq!(logprobs.token_logprobs.len(), 3);
    for value in &logprobs.token_logprobs {
        assert!(-5_000_000 < *value && *value <= 0);
    }
    assert_eq!(logprobs.top_logprobs.len(), 3);
    for alternatives in &logprobs.top_logprobs {
        assert_eq!(alternatives.len(), 3);
        for alternative in alternatives {
            let number: u32 = alternative.token.strip_prefix("token_").unwrap().parse().unwrap();
            assert!(number < 100);
            assert_eq!(alternative.token, format!("token_{}", number));
            assert!(-10_000_000 < alternative.logprob && alternative.logprob <= 0);
        }
    }
}

#[test]
fn mock_logprobs_of_a_text_without_words_are_empty() {
    for text in ["", "  \n "] {
        let logprobs = Choice::generate_mock_logprobs(text, 5);
        assert!(logprobs.tokens.is_empty());
        assert!(logprobs.token_logprobs.is_empty());
        assert!(logprobs.text_offset.is_empty());
        assert!(logprobs.top_logprobs.is_empty());
    }
}

#[test]
fn mock_logprobs_without_alternatives() {
    let logprobs = Choice::generate_mock_logprobs("a b", 0);
    assert_eq!(logprobs.tokens, vec!["a", "b"]);
    assert_eq!(logprobs.text_offset, vec![0, 2]);
    assert_eq!(logprobs.top_logprobs.len(), 2);
    assert!(logprobs.top_logprobs.iter().all(|alternatives| alternatives.is_empty()));
}

#[test]
fn mock_logprobs_are_drawn_anew() {
    // Twenty draws from five million values each: two runs do not agree.
    let text = "a b c d e f g h i j k l m n o p q r s t";
    let first = Choice::generate_mock_logprobs(text, 0);
    let second = Choice::generate_mock_logprobs(text, 0);
    assert_ne!(first.token_logprobs, second.token_logprobs);
}

#[test]
fn unstopped_choices_get_logprobs_on_request() {
    let choices = create_choices(2, "hello world end", &[], 16, true, Some(1), "gpt-4");
    for choice in &choices {
        assert_eq!(choice.finish_reason.as_deref(), Some("content"));
        let logprobs = choice.logprobs.as_ref().unwrap();
        assert_eq!(logprobs.tokens, vec!["hello", "world", "end"]);
        assert_eq!(logprobs.text_offset, vec![0, 6, 12]);
        assert_eq!(logprobs.top_logprobs.len(), 3);
    }
    let choices = create_choices(1, "hello world end", &[], 2, true, Some(1), "gpt-4");
    assert_eq!(choices[0].finish_reason.as_deref(), Some("length"));
    let logprobs = choices[0].logprobs.as_ref().unwrap();
    assert_eq!(logprobs.tokens, vec!["hello", "world"]);
}

#[test]
fn the_alternatives_to_a_token_have_names_of_their_own() {
    for count in [2u32, 10, 50, 100] {
        let logprobs = Choice::generate_mock_logprobs("one two three", count);
        assert_eq!(logprobs.top_logprobs.len(), 3);
        for alternatives in &logprobs.top_logprobs {
            assert_eq!(alternatives.len(), count as usize);
            let names: HashSet<&str> = alternatives.iter().map(|a| a.token.as_str()).collect();
            assert_eq!(names.len(), count as usize);
        }
    }
}

#[test]
fn a_hundred_alternatives_use_every_name() {
    let logprobs = Choice::generate_mock_logprobs("word", 100);
    let mut names: Vec<String> =
        logprobs.top_logprobs[0].iter().map(|a| a.token.clone()).collect();
    names.sort();
    let mut all: Vec<String> = (0..100).map(|i| format!("token_{}", i)).collect();
    all.sort();
    assert_eq!(names, all);
}

#[test]
fn beyond_a_hundred_alternatives_the_names_come_again() {
    let logprobs = Choice::generate_mock_logprobs("word", 150);
    let alternatives = &logprobs.top_logprobs[0];
    assert_eq!(alternatives.len(), 150);
    let first: HashSet<&str> = alternatives[..100].iter().map(|a| a.token.as_str()).collect();
    assert_eq!(first.len(), 100);
    for alternative in &alternatives[100..] {
        assert!(first.contains(alternative.token.as_str()));
        assert!(-10_000_000 < alternative.logprob && alternative.logprob <= 0);
    }
}

#[test]
fn the_names_are_drawn_anew() {
    // Ten names out of a hundred, in order: two runs do not agree.
    let names = |logprobs: &Logprobs| -> Vec<String> {
        logprobs.top_logprobs[0].iter().map(|a| a.token.clone()).collect()
    };
    let first = Choice::generate_mock_logprobs("word", 10);
    let second = Choice::generate_mock_logprobs("word", 10);
    let third = Choice::generate_mock_logprobs("word", 10);
    assert!(names(&first) != names(&second) || names(&first) != names(&third));
}

#[test]
fn all_choices_of_a_reply_are_alike() {
    let choices = create_choices(4, "hello world end of the story", &[], 3, true, Some(2), "gpt-4o");
    assert_eq!(choices.len(), 4);
    for choice in &choices {
        assert_eq!(choice.text, choices[0].text);
        assert_eq!(choice.finish_reason, choices[0].finish_reason);
        assert_eq!(choice.finish_reason.as_deref(), Some("length"));
    }
}
