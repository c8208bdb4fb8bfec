use afd::result::failure;
use afd::result::failure_with;
use afd::result::is_failure;
use afd::result::is_success;
use afd::result::success;
use afd::result::success_with;
use afd::result::CommandResult;
use afd::result::FailureOptions;
use afd::result::ResultMetadata;
use afd::result::ResultOptions;
use afd::CommandError;
use afd::Double;
use afd::Warning;

#[test]
fn result_test_success_result() {
    let result: CommandResult<String> = success("hello".to_string());
    assert!(result.success);
    assert_eq!(result.data, Some("hello".to_string()));
    assert!(result.error.is_none());
}

#[test]
fn result_test_failure_result() {
    let error = CommandError::not_found("Todo", "123");
    let result: CommandResult<String> = failure(error.clone());
    assert!(!result.success);
    assert!(result.data.is_none());
    assert_eq!(result.error.as_ref().unwrap().code, "NOT_FOUND");
}

#[test]
fn test_is_success() {
    let result = success("data".to_string());
    assert!(is_success(&result));
    assert!(!is_failure(&result));
}

#[test]
fn test_is_failure() {
    let error = CommandError::validation("bad input", None);
    let result: CommandResult<()> = failure(error);
    assert!(is_failure(&result));
    assert!(!is_success(&result));
}

#[test]
fn test_success_with_options() {
    let opts = ResultOptions {
        confidence: Some(Double::from_bits(0.95f64.to_bits())),
        reasoning: Some("Test reasoning".to_string()),
        ..Default::default()
    };
    let result = success_with("data".to_string(), opts);

    assert_eq!(result.confidence.map(|c| f64::from_bits(c.to_bits())), Some(0.95));
    assert_eq!(result.reasoning, Some("Test reasoning".to_string()));
}

#[test]
fn failure_with_keeps_warnings_and_metadata() {
    let options = FailureOptions {
        warnings: Some(vec![Warning::new("W", "careful")]),
        metadata: Some(ResultMetadata { execution_time_ms: Some(3), ..Default::default() }),
    };
    let result: CommandResult<u8> = failure_with(CommandError::internal("x"), options);
    assert!(!result.success);
    assert!(result.data.is_none());
    assert_eq!(result.error.as_ref().unwrap().code, "INTERNAL_ERROR");
    assert_eq!(result.warnings.as_ref().unwrap()[0].code, "W");
    assert_eq!(result.metadata.as_ref().unwrap().execution_time_ms, Some(3));
    assert!(result.confidence.is_none());

    let empty: CommandResult<u8> = CommandResult::default();
    assert!(!is_success(&empty));
    assert!(!is_failure(&empty));
    let plain: CommandResult<u8> = failure_with(CommandError::internal("x"), FailureOptions::default());
    assert!(plain.warnings.is_none());
}
