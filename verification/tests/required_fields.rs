use completion_mock::models::completion::CompletionRequest;
use completion_mock::validators::{validate_required_fields, ValidationError};

#[test]
fn test_validate_empty_model() {
    let req = CompletionRequest {
        model: "".to_string(),
        prompt: Some("test prompt".to_string()),
        ..Default::default() // This will use all the default values we defined
    };

    let result = validate_required_fields(&req);
    assert!(result.is_err());
    assert_eq!(
        result.unwrap_err().to_string(),
        "model field must not be empty"
    );
}

#[test]
fn test_validate_valid_request() {
    let req = CompletionRequest {
        model: "gpt-3.5-turbo".to_string(),
        prompt: Some("test prompt".to_string()),
        ..Default::default()
    };

    let result = validate_required_fields(&req);
    assert!(result.is_ok());
}

#[test]
fn whitespace_only_model_is_missing() {
    for model in [" ", "\t\n", "\u{a0}\u{3000} ", "\u{2003}\u{85}"] {
        let req = CompletionRequest { model: model.to_string(), ..Default::default() };
        let result = validate_required_fields(&req);
        assert_eq!(result.unwrap_err().to_string(), "model field must not be empty");
    }
}

#[test]
fn model_with_whitespace_around_it_is_present() {
    let req = CompletionRequest { model: "  gpt-4 ".to_string(), ..Default::default() };
    assert!(validate_required_fields(&req).is_ok());
}

#[test]
fn validation_error_keeps_its_message() {
    let error = ValidationError::new("something is wrong");
    assert_eq!(error.to_string(), "something is wrong");
}

#[test]
fn default_request_has_the_documented_defaults() {
    let req = CompletionRequest::default();
    assert_eq!(req.model, "");
    assert!(req.prompt.is_none());
    assert!(req.suffix.is_none());
    assert_eq!(req.max_tokens, Some(16));
    assert_eq!(req.temperature.as_ref().map(|t| t.bits), Some(1.0f32.to_bits()));
    assert_eq!(req.top_p.as_ref().map(|t| t.bits), Some(1.0f32.to_bits()));
    assert_eq!(req.n, Some(1));
    assert_eq!(req.stream, Some(false));
    assert!(req.logprobs.is_none());
    assert_eq!(req.echo, Some(false));
    assert!(req.stop.is_none());
    assert_eq!(req.presence_penalty.as_ref().map(|t| t.bits), Some(0.0f32.to_bits()));
    assert_eq!(req.frequency_penalty.as_ref().map(|t| t.bits), Some(0.0f32.to_bits()));
    assert_eq!(req.temperature.as_ref().map(|t| t.shown.clone()), Some(1.0f32.to_string()));
    assert_eq!(req.presence_penalty.as_ref().map(|t| t.shown.clone()), Some(0.0f32.to_string()));
    assert!(req.best_of.is_none());
    assert!(req.logit_bias.is_none());
    assert!(req.user.is_none());
}
