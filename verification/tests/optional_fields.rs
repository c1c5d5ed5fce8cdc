use completion_mock::models::binary32::Binary32;
use completion_mock::validators::{
    validate_best_of, validate_frequency_penalty, validate_logprobs, validate_max_tokens,
    validate_n, validate_presence_penalty, validate_stop, validate_temperature, validate_top_p,
    StopSequence,
};

fn number(value: f32) -> Binary32 {
    Binary32::new(value.to_bits(), value.to_string())
}

#[test]
fn test_validate_temperature() {
    assert!(validate_temperature(None).is_ok());
    assert!(validate_temperature(Some(&number(0.0))).is_ok());
    assert!(validate_temperature(Some(&number(1.0))).is_ok());
    assert!(validate_temperature(Some(&number(2.0))).is_ok());
    assert!(validate_temperature(Some(&number(-0.1))).is_err());
    assert!(validate_temperature(Some(&number(2.1))).is_err());
}

#[test]
fn test_validate_top_p() {
    assert!(validate_top_p(None).is_ok());
    assert!(validate_top_p(Some(&number(0.0))).is_ok());
    assert!(validate_top_p(Some(&number(0.5))).is_ok());
    assert!(validate_top_p(Some(&number(1.0))).is_ok());
    assert!(validate_top_p(Some(&number(-0.1))).is_err());
    assert!(validate_top_p(Some(&number(1.1))).is_err());
}

#[test]
fn test_validate_n() {
    assert!(validate_n(None).is_ok());
    assert!(validate_n(Some(1)).is_ok());
    assert!(validate_n(Some(100)).is_ok());
    assert!(validate_n(Some(0)).is_err());
    assert!(validate_n(Some(-1)).is_err());
}

#[test]
fn test_validate_max_tokens() {
    assert!(validate_max_tokens(None).is_ok());
    assert!(validate_max_tokens(Some(1)).is_ok());
    assert!(validate_max_tokens(Some(100)).is_ok());
    assert!(validate_max_tokens(Some(0)).is_err());
}

#[test]
fn test_validate_presence_penalty() {
    assert!(validate_presence_penalty(None).is_ok());
    assert!(validate_presence_penalty(Some(&number(-2.0))).is_ok());
    assert!(validate_presence_penalty(Some(&number(0.0))).is_ok());
    assert!(validate_presence_penalty(Some(&number(2.0))).is_ok());
    assert!(validate_presence_penalty(Some(&number(-2.1))).is_err());
    assert!(validate_presence_penalty(Some(&number(2.1))).is_err());
}

#[test]
fn test_validate_frequency_penalty() {
    assert!(validate_frequency_penalty(None).is_ok());
    assert!(validate_frequency_penalty(Some(&number(-2.0))).is_ok());
    assert!(validate_frequency_penalty(Some(&number(0.0))).is_ok());
    assert!(validate_frequency_penalty(Some(&number(2.0))).is_ok());
    assert!(validate_frequency_penalty(Some(&number(-2.1))).is_err());
    assert!(validate_frequency_penalty(Some(&number(2.1))).is_err());
}

#[test]
fn test_validate_best_of() {
    // Test basic positive integer validation
    assert!(validate_best_of(None, None).is_ok());
    assert!(validate_best_of(Some(1), None).is_ok());
    assert!(validate_best_of(Some(0), None).is_err());

    // Test relationship with n
    assert!(validate_best_of(Some(5), Some(3)).is_ok());
    assert!(validate_best_of(Some(5), Some(5)).is_ok());
    assert!(validate_best_of(Some(3), Some(5)).is_err());
}

#[test]
fn test_validate_logprobs() {
    assert!(validate_logprobs(None).is_ok());
    assert!(validate_logprobs(Some(0)).is_ok());
    assert!(validate_logprobs(Some(1)).is_ok());
    assert!(validate_logprobs(Some(100)).is_ok());
}

#[test]
fn test_validate_stop() {
    // Test None case
    assert!(validate_stop(None).is_ok());

    // Test single string cases
    assert!(validate_stop(Some(StopSequence::Single("stop".to_string()))).is_ok());
    assert!(validate_stop(Some(StopSequence::Single("".to_string()))).is_err());

    // Test array cases
    assert!(validate_stop(Some(StopSequence::Multiple(vec![
        "stop1".to_string(),
        "stop2".to_string()
    ])))
    .is_ok());
    assert!(validate_stop(Some(StopSequence::Multiple(vec![]))).is_err());
    assert!(validate_stop(Some(StopSequence::Multiple(vec![
        "valid".to_string(),
        "".to_string()
    ])))
    .is_err());
}

#[test]
fn messages_name_the_offending_value() {
    assert_eq!(
        validate_temperature(Some(&number(2.1))),
        Err("Temperature must be between 0.0 and 2.0, got 2.1".to_string())
    );
    assert_eq!(
        validate_temperature(Some(&number(-0.1))),
        Err("Temperature must be between 0.0 and 2.0, got -0.1".to_string())
    );
    assert_eq!(
        validate_top_p(Some(&number(1.5))),
        Err("Top_p must be between 0.0 and 1.0, got 1.5".to_string())
    );
    assert_eq!(
        validate_presence_penalty(Some(&number(-3.0))),
        Err("Presence penalty must be between -2.0 and 2.0, got -3".to_string())
    );
    assert_eq!(
        validate_frequency_penalty(Some(&number(2.5))),
        Err("Frequency penalty must be between -2.0 and 2.0, got 2.5".to_string())
    );
    assert_eq!(validate_n(Some(0)), Err("n must be a positive integer, got 0".to_string()));
    assert_eq!(validate_n(Some(-17)), Err("n must be a positive integer, got -17".to_string()));
    assert_eq!(
        validate_n(Some(i32::MIN)),
        Err("n must be a positive integer, got -2147483648".to_string())
    );
    assert_eq!(
        validate_max_tokens(Some(0)),
        Err("max_tokens must be a positive integer, got 0".to_string())
    );
    assert_eq!(
        validate_best_of(Some(0), Some(3)),
        Err("best_of must be a positive integer, got 0".to_string())
    );
    assert_eq!(
        validate_best_of(Some(-4), None),
        Err("best_of must be a positive integer, got -4".to_string())
    );
    assert_eq!(
        validate_best_of(Some(3), Some(5)),
        Err("best_of must be greater than or equal to n, got best_of=3 and n=5".to_string())
    );
}

#[test]
fn stop_messages_name_the_first_empty_entry() {
    assert_eq!(
        validate_stop(Some(StopSequence::Single(String::new()))),
        Err("Stop sequence cannot be empty".to_string())
    );
    assert_eq!(
        validate_stop(Some(StopSequence::Multiple(vec![]))),
        Err("Stop sequences array cannot be empty".to_string())
    );
    assert_eq!(
        validate_stop(Some(StopSequence::Multiple(vec![
            "a".to_string(),
            "".to_string(),
            "b".to_string(),
            "".to_string()
        ]))),
        Err("Stop sequence at index 1 cannot be empty".to_string())
    );
    assert_eq!(
        validate_stop(Some(StopSequence::Multiple(vec!["".to_string()]))),
        Err("Stop sequence at index 0 cannot be empty".to_string())
    );
    let mut many: Vec<String> = (0..12).map(|i| format!("s{}", i)).collect();
    many[11] = String::new();
    assert_eq!(
        validate_stop(Some(StopSequence::Multiple(many))),
        Err("Stop sequence at index 11 cannot be empty".to_string())
    );
}

#[test]
fn numbers_that_are_no_numbers_fail_the_range_checks() {
    assert_eq!(
        validate_temperature(Some(&number(f32::NAN))),
        Err("Temperature must be between 0.0 and 2.0, got NaN".to_string())
    );
    assert!(validate_temperature(Some(&number(-f32::NAN))).is_err());
    assert!(validate_top_p(Some(&number(f32::NAN))).is_err());
    assert!(validate_presence_penalty(Some(&number(f32::NAN))).is_err());
    assert!(validate_frequency_penalty(Some(&number(f32::NAN))).is_err());
    let quiet = Binary32::new(0x7fc0_0001, "NaN".to_string());
    let signalling = Binary32::new(0xff80_0001, "NaN".to_string());
    assert!(validate_temperature(Some(&quiet)).is_err());
    assert!(validate_temperature(Some(&signalling)).is_err());
}

#[test]
fn zeros_and_infinities_at_the_range_checks() {
    assert!(validate_temperature(Some(&number(-0.0))).is_ok());
    assert!(validate_presence_penalty(Some(&number(-0.0))).is_ok());
    assert!(validate_temperature(Some(&number(f32::INFINITY))).is_err());
    assert!(validate_temperature(Some(&number(f32::NEG_INFINITY))).is_err());
    assert!(validate_presence_penalty(Some(&number(f32::NEG_INFINITY))).is_err());
}
