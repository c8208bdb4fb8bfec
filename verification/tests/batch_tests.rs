use afd::batch::create_batch_request;
use afd::batch::create_batch_result;
use afd::batch::create_failed_batch_result;
use afd::batch::is_batch_command;
use afd::batch::is_batch_request;
use afd::batch::is_batch_result;
use afd::batch::skipped_result;
use afd::batch::successful_confidences;
use afd::batch::BatchCommand;
use afd::batch::BatchCommandResult;
use afd::batch::BatchOptions;
use afd::batch::BatchRequest;
use afd::batch::BatchRun;
use afd::batch::BatchSummary;
use afd::json::JsonMap;
use afd::json::JsonValue;
use afd::result::failure;
use afd::result::success;
use afd::result::success_with;
use afd::result::ResultOptions;
use afd::CommandError;
use afd::CommandResult;
use afd::Double;

fn s(text: &str) -> JsonValue {
    JsonValue::String(text.to_string())
}

fn obj(members: Vec<(&str, JsonValue)>) -> JsonValue {
    let mut map = JsonMap::new();
    for (key, value) in members {
        map.insert(key, value);
    }
    JsonValue::Object(map)
}

fn d(value: f64) -> Double {
    Double::from_bits(value.to_bits())
}

fn sure(data: u8, confidence: f64) -> CommandResult<u8> {
    success_with(data, ResultOptions { confidence: Some(d(confidence)), ..Default::default() })
}

#[test]
fn test_batch_command_creation() {
    let cmd = BatchCommand::new("1", "todo-create", obj(vec![("title", s("Test"))]))
        .with_priority(10)
        .with_tags(vec!["important".to_string()]);

    assert_eq!(cmd.id, "1");
    assert_eq!(cmd.command, "todo-create");
    assert_eq!(cmd.priority, Some(10));
}

#[test]
fn test_batch_request() {
    let commands = vec![
        BatchCommand::new("1", "cmd1", obj(vec![])),
        BatchCommand::new("2", "cmd2", obj(vec![])),
    ];

    let request = BatchRequest::new(commands)
        .with_options(BatchOptions { continue_on_error: true, ..Default::default() });

    assert_eq!(request.commands.len(), 2);
    assert!(request.options.continue_on_error);
}

#[test]
fn test_batch_result_creation() {
    let results = vec![
        BatchCommandResult::success("1", "cmd1", success::<String>("result1".to_string())),
        BatchCommandResult::success("2", "cmd2", success::<String>("result2".to_string())),
    ];

    let batch_result =
        create_batch_result(results, "2025-01-01T00:00:00Z", "2025-01-01T00:00:01Z", 1000, None);

    assert!(batch_result.success);
    assert_eq!(batch_result.summary.total, 2);
    assert_eq!(batch_result.summary.succeeded, 2);
    assert_eq!(batch_result.summary.failed, 0);
}

#[test]
fn batch_test_type_guards() {
    let cmd = obj(vec![("id", s("1")), ("command", s("test")), ("input", obj(vec![]))]);
    assert!(is_batch_command(&cmd));

    let request = obj(vec![
        ("commands", JsonValue::Array(vec![cmd])),
        ("options", obj(vec![("continueOnError", JsonValue::Bool(false))])),
    ]);
    assert!(is_batch_request(&request));
}

#[test]
fn batch_guards_reject_other_shapes() {
    assert!(!is_batch_command(&obj(vec![("id", s("1")), ("command", s("test"))])));
    assert!(!is_batch_request(&obj(vec![("commands", JsonValue::Array(vec![]))])));
    assert!(!is_batch_result(&obj(vec![("results", s("x")), ("summary", s("y"))])));
    assert!(is_batch_result(&obj(vec![
        ("results", s("x")),
        ("summary", s("y")),
        ("timing", JsonValue::Null),
    ])));
}

#[test]
fn batch_result_counts_and_timing() {
    let results = vec![
        BatchCommandResult::success("1", "a", sure(1, 0.9)).with_duration(4),
        BatchCommandResult::success("2", "b", failure(CommandError::internal("x"))),
        BatchCommandResult::success("3", "c", sure(3, 0.7)),
        BatchCommandResult::success("4", "d", success(4)),
    ];
    assert_eq!(successful_confidences(&results), vec![d(0.9), d(0.7)]);

    let result = create_batch_result(results, "t0", "t1", 1003, Some(d(0.8)));
    assert!(!result.success);
    assert_eq!(result.results.len(), 4);
    assert_eq!(result.results[0].duration_ms, Some(4));
    assert_eq!(result.summary.total, 4);
    assert_eq!(result.summary.succeeded, 3);
    assert_eq!(result.summary.failed, 1);
    assert_eq!(result.summary.skipped, 0);
    assert_eq!(result.summary.average_confidence, Some(d(0.8)));
    assert_eq!(result.timing.started_at, "t0");
    assert_eq!(result.timing.ended_at, Some("t1".to_string()));
    assert_eq!(result.timing.total_ms, Some(1003));
    assert_eq!(result.timing.average_ms, Some(250));
    assert!(result.error.is_none());
}

#[test]
fn batch_result_without_stated_confidence_has_no_average() {
    let results = vec![
        BatchCommandResult::success("1", "a", success(1u8)),
        BatchCommandResult::success("2", "b", failure(CommandError::internal("x"))),
    ];
    assert!(successful_confidences(&results).is_empty());
    let result = create_batch_result(results, "t0", "t1", 10, Some(d(0.5)));
    assert_eq!(result.summary.average_confidence, None);

    let none: Vec<BatchCommandResult<u8>> = vec![];
    let empty = create_batch_result(none, "t0", "t1", 10, None);
    assert!(empty.success);
    assert_eq!(empty.summary.total, 0);
    assert_eq!(empty.timing.average_ms, None);
}

#[test]
fn all_successful_results_make_a_successful_batch() {
    for count in 0..6usize {
        let results: Vec<BatchCommandResult<usize>> = (0..count)
            .map(|i| BatchCommandResult::success("id", "c", success(i)))
            .collect();
        let result = create_batch_result(results, "a", "b", 5, None);
        assert_eq!(result.summary.succeeded, count);
        assert_eq!(result.summary.failed, 0);
        assert!(result.success);
    }
}

#[test]
fn failed_batch_result_and_summary() {
    let failed = create_failed_batch_result::<u8>(CommandError::internal("down"), "t0");
    assert!(!failed.success);
    assert!(failed.results.is_empty());
    assert_eq!(failed.summary, BatchSummary::new(0, 0, 0, 0));
    assert_eq!(failed.timing.started_at, "t0");
    assert_eq!(failed.timing.ended_at, None);
    assert_eq!(failed.timing.total_ms, None);
    assert_eq!(failed.error.as_ref().unwrap().code, "INTERNAL_ERROR");

    let summary = BatchSummary::new(10, 8, 2, 0);
    assert_eq!((summary.total, summary.succeeded, summary.failed, summary.skipped), (10, 8, 2, 0));
    assert_eq!(summary.average_confidence, None);
    let request = create_batch_request(vec![BatchCommand::new("1", "c", 0u8)]);
    assert!(!request.options.continue_on_error);
    assert!(request.context.is_none());
}

#[test]
fn a_stopped_run_pads_with_skipped_outcomes() {
    let mut run: BatchRun<u8> = BatchRun::new(&BatchOptions::default());
    assert!(run.admits());
    run.record("1".to_string(), "a".to_string(), success(1), 5);
    assert!(run.admits());
    run.record("2".to_string(), "b".to_string(), failure(CommandError::internal("x")), 6);
    assert!(!run.admits());
    run.skip("3".to_string(), "c".to_string());
    assert!(!run.admits());
    let result = run.finish("t0".to_string(), "t1".to_string(), 12, None);
    assert_eq!(result.results.len(), 3);
    assert_eq!(result.results[2].id, "3");
    assert_eq!(result.results[2].command, "c");
    assert_eq!(result.results[2].duration_ms, Some(0));
    let error = result.results[2].result.error.as_ref().unwrap();
    assert_eq!(error.code, "COMMAND_SKIPPED");
    assert_eq!(error.message, "Command skipped due to previous error");
    assert_eq!(error.suggestion, None);
    assert_eq!(error.retryable, None);
    assert_eq!(result.summary.succeeded, 1);
    assert_eq!(result.summary.failed, 2);
    assert!(!result.success);
    assert_eq!(result.timing.average_ms, Some(4));

    let skipped = skipped_result::<u8>("9".to_string(), "z".to_string());
    assert!(!skipped.result.success && skipped.result.data.is_none());
}

#[test]
fn a_continuing_run_admits_after_failures() {
    let options = BatchOptions { continue_on_error: true, ..Default::default() };
    let mut run: BatchRun<u8> = BatchRun::new(&options);
    run.record("1".to_string(), "a".to_string(), failure(CommandError::internal("x")), 1);
    assert!(run.admits());
    run.record("2".to_string(), "b".to_string(), failure(CommandError::internal("y")), 1);
    assert!(run.admits());
    run.record("3".to_string(), "c".to_string(), success(3), 1);
    assert!(run.admits());
    let result = run.finish("t0".to_string(), "t1".to_string(), 3, None);
    assert_eq!(result.summary.failed, 2);
    assert_eq!(result.summary.succeeded, 1);
}

#[test]
fn a_finished_run_keeps_the_mean_where_a_confidence_was_stated() {
    let mut run: BatchRun<u8> = BatchRun::new(&BatchOptions::default());
    run.record("1".to_string(), "a".to_string(), sure(1, 0.9), 1);
    run.record("2".to_string(), "b".to_string(), sure(2, 0.7), 1);
    assert_eq!(successful_confidences(&run.results), vec![d(0.9), d(0.7)]);
    let result = run.finish("t0".to_string(), "t1".to_string(), 2, Some(d(0.8)));
    assert_eq!(result.summary.average_confidence, Some(d(0.8)));

    let mut silent: BatchRun<u8> = BatchRun::new(&BatchOptions::default());
    silent.record("1".to_string(), "a".to_string(), success(1), 1);
    let result = silent.finish("t0".to_string(), "t1".to_string(), 2, Some(d(0.8)));
    assert_eq!(result.summary.average_confidence, None);
}
