use afd::create_data_chunk;
use afd::create_progress_chunk;
use afd::error_codes;
use afd::failure;
use afd::is_failure;
use afd::is_native;
use afd::is_success;
use afd::is_wasm;
use afd::success;
use afd::CommandError;
use afd::CommandResult;
use afd::Double;
use afd::PlanStep;
use afd::Source;
use afd::SourceType;
use afd::Warning;
use afd::VERSION;

#[test]
fn test_version() {
    assert!(!VERSION.is_empty());
}

#[test]
fn lib_test_success_result() {
    let result = success(42);
    assert!(result.success);
    assert_eq!(result.data, Some(42));
    assert!(result.error.is_none());
}

#[test]
fn lib_test_failure_result() {
    let error = CommandError::not_found("Item", "123");
    let result: CommandResult<()> = failure(error);
    assert!(!result.success);
    assert!(result.error.is_some());
    assert_eq!(result.error.as_ref().unwrap().code, "NOT_FOUND");
}

#[test]
fn lib_test_type_guards() {
    let success_result = success("ok".to_string());
    assert!(is_success(&success_result));
    assert!(!is_failure(&success_result));

    let error = CommandError::validation("bad input", None);
    let failure_result: CommandResult<String> = failure(error);
    assert!(!is_success(&failure_result));
    assert!(is_failure(&failure_result));
}

#[test]
fn test_error_codes() {
    assert_eq!(error_codes::NOT_FOUND, "NOT_FOUND");
    assert_eq!(error_codes::VALIDATION_ERROR, "VALIDATION_ERROR");
    assert_eq!(error_codes::TIMEOUT, "TIMEOUT");
}

#[test]
fn test_metadata_types() {
    let source = Source::new("Test", SourceType::Api);
    assert_eq!(source.name, "Test");

    let step = PlanStep::new(1, "First step");
    assert_eq!(step.step, 1);

    let warning = Warning::new("DEPRECATION", "This is deprecated");
    assert_eq!(warning.code, "DEPRECATION");
}

#[test]
fn test_streaming_types() {
    let progress = create_progress_chunk(Double::from_bits(50.0f64.to_bits()), "Halfway done");
    assert_eq!(f64::from_bits(progress.progress.to_bits()), 50.0);

    let data = create_data_chunk("partial", false);
    assert!(!data.is_final);
}

#[test]
fn test_feature_detection() {
    let _native = is_native();
    let _wasm = is_wasm();
}

#[test]
fn feature_detection_values() {
    assert!(is_native());
    assert!(!is_wasm());
    assert_eq!(error_codes::COMMAND_NOT_FOUND, "COMMAND_NOT_FOUND");
    assert_eq!(error_codes::COMMAND_CANCELLED, "COMMAND_CANCELLED");
    assert_eq!(error_codes::RATE_LIMITED, "RATE_LIMITED");
}
