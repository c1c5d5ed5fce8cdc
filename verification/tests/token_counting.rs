use completion_mock::utils::token_counting::{family_for, ChatMessage, EncodingFamily, TokenCounter};

#[test]
fn known_models_have_their_encodings() {
    assert_eq!(family_for("gpt-4"), EncodingFamily::Cl100kBase);
    assert_eq!(family_for("gpt-3.5-turbo"), EncodingFamily::Cl100kBase);
    assert_eq!(family_for("text-embedding-ada-002"), EncodingFamily::Cl100kBase);
    assert_eq!(family_for("gpt-4o"), EncodingFamily::O200kBase);
    assert_eq!(family_for("gpt-4o-mini"), EncodingFamily::O200kBase);
    assert_eq!(family_for("text-davinci-002"), EncodingFamily::P50kBase);
    assert_eq!(family_for("text-davinci-003"), EncodingFamily::P50kBase);
}

#[test]
fn models_named_after_known_ones_share_their_encodings() {
    assert_eq!(family_for("gpt-4-0613"), EncodingFamily::Cl100kBase);
    assert_eq!(family_for("gpt-4o-2024-08-06"), EncodingFamily::O200kBase);
    assert_eq!(family_for("gpt-3.5-turbo-16k"), EncodingFamily::Cl100kBase);
    assert_eq!(family_for("text-davinci-003-beta"), EncodingFamily::P50kBase);
}

#[test]
fn unknown_models_fall_back_to_cl100k_base() {
    assert_eq!(family_for(""), EncodingFamily::Cl100kBase);
    assert_eq!(family_for("gpt"), EncodingFamily::Cl100kBase);
    assert_eq!(family_for("my-own-model"), EncodingFamily::Cl100kBase);
    assert_eq!(family_for("text-davinci-001"), EncodingFamily::Cl100kBase);
    assert_eq!(family_for(" gpt-4o"), EncodingFamily::Cl100kBase);
}

#[test]
fn counts_the_tokens_of_a_text() {
    let counter = TokenCounter::new("gpt-4").unwrap();
    assert_eq!(counter.count_tokens(""), Ok(0));
    assert_eq!(counter.count_tokens("hello world"), Ok(2));
    assert_eq!(counter.count_tokens("hello world end"), Ok(3));
}

#[test]
fn counts_special_tokens_as_such() {
    let counter = TokenCounter::new("gpt-4").unwrap();
    assert_eq!(counter.count_tokens("<|endoftext|>"), Ok(1));
    assert_eq!(counter.count_tokens("hello<|endoftext|>"), Ok(2));
}

#[test]
fn counts_agree_with_the_encoding_of_the_model() {
    let text = "The quick brown fox jumps over the lazy dog, 1234567 times!\n\n    \u{65e5}\u{672c}\u{8a9e}\u{306e}\u{30c6}\u{30ad}\u{30b9}\u{30c8} \u{dc}n\u{ef}c\u{f6}d\u{e9} __init__ https://example.com/path?x=1";
    let mut counts = Vec::new();
    for (model, bpe) in [
        ("gpt-4", tiktoken_rs::cl100k_base().unwrap()),
        ("gpt-4o", tiktoken_rs::o200k_base().unwrap()),
        ("text-davinci-003", tiktoken_rs::p50k_base().unwrap()),
    ] {
        let counter = TokenCounter::new(model).unwrap();
        let expected = bpe.encode_with_special_tokens(text).len() as u32;
        assert_eq!(counter.count_tokens(text), Ok(expected));
        counts.push(expected);
    }
    // The three encodings differ on this text, so each model got its own.
    assert_ne!(counts[0], counts[1]);
    assert_ne!(counts[0], counts[2]);
    assert_ne!(counts[1], counts[2]);
}

#[test]
fn truncation_keeps_the_first_tokens() {
    let counter = TokenCounter::new("gpt-4").unwrap();
    assert_eq!(
        counter.truncate_to_tokens("hello world end", 2),
        Ok("hello world".to_string())
    );
    assert_eq!(counter.truncate_to_tokens("hello world end", 1), Ok("hello".to_string()));
    assert_eq!(counter.truncate_to_tokens("hello world end", 0), Ok("".to_string()));
}

#[test]
fn truncation_leaves_a_short_text_alone() {
    let counter = TokenCounter::new("gpt-4").unwrap();
    assert_eq!(
        counter.truncate_to_tokens("hello world end", 3),
        Ok("hello world end".to_string())
    );
    assert_eq!(
        counter.truncate_to_tokens("hello world end", 100),
        Ok("hello world end".to_string())
    );
    assert_eq!(counter.truncate_to_tokens("", 0), Ok("".to_string()));
}

#[test]
fn truncating_to_the_count_changes_nothing() {
    let counter = TokenCounter::new("gpt-4o").unwrap();
    for text in ["", "a", "hello world end", "  spaces   and\nlines ", "déjà vu \u{1F600} ok"] {
        let count = counter.count_tokens(text).unwrap();
        assert_eq!(counter.truncate_to_tokens(text, count), Ok(text.to_string()));
    }
}

#[test]
fn truncation_inside_a_character_is_an_error() {
    // The emoji takes several tokens; its first token alone is no text.
    let counter = TokenCounter::new("gpt-4").unwrap();
    let text = "\u{1F9D9}";
    let count = counter.count_tokens(text).unwrap();
    assert!(count > 1);
    assert!(counter.truncate_to_tokens(text, 1).is_err());
}

#[test]
fn usage_adds_up() {
    let counter = TokenCounter::new("gpt-4").unwrap();
    let usage = counter.calculate_usage("hello world end", "hello world").unwrap();
    assert_eq!(usage.prompt_tokens, 3);
    assert_eq!(usage.completion_tokens, 2);
    assert_eq!(usage.total_tokens, 5);
}

#[test]
fn messages_cost_three_tokens_each_beside_their_own() {
    let counter = TokenCounter::new("gpt-4").unwrap();
    assert_eq!(counter.count_messages_tokens(&[]), Ok(0));
    let messages = vec![
        ChatMessage { role: "user".to_string(), content: "hello world".to_string() },
        ChatMessage { role: "assistant".to_string(), content: "hello world end".to_string() },
    ];
    let user = counter.count_tokens("user").unwrap();
    let assistant = counter.count_tokens("assistant").unwrap();
    assert_eq!(counter.count_messages_tokens(&messages), Ok(2 + user + 3 + 3 + assistant + 3));
    assert_eq!(counter.count_messages_tokens(&messages[..1]), Ok(2 + user + 3));
}

#[test]
fn there_is_a_counter_for_every_model() {
    for model in ["", "gpt-4", "gpt-4o-mini", "text-davinci-002", "no-such-model", "  ", "gpt"] {
        assert!(TokenCounter::new(model).is_ok(), "{:?}", model);
    }
}

#[test]
fn an_unknown_model_counts_as_cl100k_base_does() {
    let text = "The quick brown fox jumps over the lazy dog, 1234567 times!\n\n    \u{65e5}\u{672c}\u{8a9e}\u{306e}\u{30c6}\u{30ad}\u{30b9}\u{30c8} \u{dc}n\u{ef}c\u{f6}d\u{e9} __init__ https://example.com/path?x=1";
    let unknown = TokenCounter::new("no-such-model").unwrap();
    let known = TokenCounter::new("gpt-4").unwrap();
    assert_eq!(unknown.count_tokens(text), known.count_tokens(text));
    let other = TokenCounter::new("gpt-4o").unwrap();
    assert_ne!(unknown.count_tokens(text), other.count_tokens(text));
}

#[test]
fn nothing_is_left_of_a_text_cut_to_no_tokens() {
    let counter = TokenCounter::new("text-davinci-003").unwrap();
    assert_eq!(counter.truncate_to_tokens("hello world", 0), Ok(String::new()));
}
