use afd::commands::CommandContext;
use afd::commands::CommandDefinition;
use afd::commands::CommandHandler;
use afd::commands::CommandRegistry;
use afd::json::JsonMap;
use afd::json::JsonNumber;
use afd::json::JsonValue;
use afd::metadata::Alternative;
use afd::metadata::Source;
use afd::metadata::SourceType;
use afd::metadata::Warning;
use afd::pipeline::build_confidence_breakdown;
use afd::pipeline::build_pipeline_metadata;
use afd::pipeline::aggregate_pipeline_alternatives;
use afd::pipeline::aggregate_pipeline_reasoning;
use afd::pipeline::aggregate_pipeline_sources;
use afd::pipeline::create_pipeline;
use afd::pipeline::final_data;
use afd::pipeline::plan_step;
use afd::pipeline::step_outcome;
use afd::pipeline::PipelineCondition;
use afd::pipeline::PipelineContext;
use afd::pipeline::PipelineOptions;
use afd::pipeline::PipelineRun;
use afd::pipeline::PipelineStep;
use afd::pipeline::StepMetadata;
use afd::pipeline::StepPlan;
use afd::pipeline::StepResult;
use afd::pipeline::StepStatus;
use afd::result::failure;
use afd::result::success;
use afd::result::success_with;
use afd::result::ResultOptions;
use afd::CommandError;
use afd::CommandResult;
use afd::Double;

fn s(text: &str) -> JsonValue {
    JsonValue::String(text.to_string())
}

fn n(value: u64) -> JsonValue {
    JsonValue::Number(JsonNumber::PosInt(value))
}

fn obj(members: Vec<(&str, JsonValue)>) -> JsonValue {
    let mut map = JsonMap::new();
    for (key, value) in members {
        map.insert(key, value);
    }
    JsonValue::Object(map)
}

fn d(value: f64) -> Double {
    Double::from_bits(value.to_bits())
}

fn f(value: Double) -> f64 {
    f64::from_bits(value.to_bits())
}

enum Scripted {
    User,
    Echo,
    Fail,
}

impl CommandHandler for Scripted {
    fn execute(&self, input: JsonValue, _context: CommandContext) -> CommandResult<JsonValue> {
        match self {
            Scripted::User => success_with(
                obj(vec![("id", n(7)), ("name", s("Ann"))]),
                ResultOptions {
                    confidence: Some(d(0.9)),
                    reasoning: Some("looked up".to_string()),
                    sources: Some(vec![Source::new("db", SourceType::Database).with_url("pg://u")]),
                    warnings: Some(vec![Warning::new("STALE", "old row")]),
                    alternatives: Some(vec![Alternative::new(s("Bob"), "older").with_confidence(d(0.4))]),
                    ..Default::default()
                },
            ),
            Scripted::Echo => success_with(
                input,
                ResultOptions { confidence: Some(d(0.7)), ..Default::default() },
            ),
            Scripted::Fail => failure(CommandError::internal("down")),
        }
    }
}

fn registry() -> CommandRegistry<Scripted> {
    let mut registry = CommandRegistry::new();
    registry.register(CommandDefinition::new("user", "d", vec![], Scripted::User)).unwrap();
    registry.register(CommandDefinition::new("echo", "d", vec![], Scripted::Echo)).unwrap();
    registry.register(CommandDefinition::new("fail", "d", vec![], Scripted::Fail)).unwrap();
    registry
}

fn step(command: &str, input: Option<JsonValue>) -> PipelineStep {
    PipelineStep { command: command.to_string(), input, alias: None, when: None, stream: None }
}

fn done(index: usize, status: StepStatus, data: Option<JsonValue>, time: u64) -> StepResult {
    StepResult {
        index,
        alias: None,
        command: "c".to_string(),
        status,
        data,
        error: None,
        execution_time_ms: time,
        metadata: None,
    }
}

#[test]
fn a_step_whose_condition_fails_is_skipped() {
    let mut context = PipelineContext::default();
    context.previous_result = Some(done(0, StepStatus::Success, Some(obj(vec![("name", s("x"))])), 1));
    let mut gated = step("echo", Some(s("$prev.name")));
    gated.alias = Some("mail".to_string());
    gated.when = Some(PipelineCondition::Exists { exists: "$prev.email".to_string() });
    match plan_step(&gated, 4, &context) {
        StepPlan::Skip(outcome) => {
            assert_eq!(outcome.status, StepStatus::Skipped);
            assert_eq!(outcome.data, None);
            assert_eq!(outcome.error, None);
            assert_eq!(outcome.index, 4);
            assert_eq!(outcome.alias, Some("mail".to_string()));
            assert_eq!(outcome.command, "echo");
            assert_eq!(outcome.execution_time_ms, 0);
            assert!(outcome.metadata.is_none());
        }
        StepPlan::Run { .. } => panic!("the step was to be skipped"),
    }
    gated.when = Some(PipelineCondition::Exists { exists: "$prev.name".to_string() });
    match plan_step(&gated, 4, &context) {
        StepPlan::Run { command, input } => {
            assert_eq!(command, "echo");
            assert_eq!(input, Some(s("x")));
        }
        StepPlan::Skip(_) => panic!("the step was to run"),
    }
    match plan_step(&step("user", None), 0, &context) {
        StepPlan::Run { command, input } => {
            assert_eq!(command, "user");
            assert_eq!(input, None);
        }
        StepPlan::Skip(_) => panic!("the step was to run"),
    }
}

#[test]
fn a_pipeline_feeds_each_step_from_the_ones_before() {
    let mut first = step("user", None);
    first.alias = Some("who".to_string());
    let mut gated = step("echo", Some(s("never")));
    gated.when = Some(PipelineCondition::Exists { exists: "$prev.email".to_string() });
    let request = create_pipeline(
        vec![
            first,
            step("echo", Some(obj(vec![("greet", s("$prev.name")), ("from", s("$input.app"))]))),
            gated,
            step("echo", Some(s("$steps.who.id"))),
        ],
        None,
    );
    let result = registry().execute_pipeline(&request, Some(obj(vec![("app", s("cli"))])));
    assert_eq!(result.steps.len(), 4);
    let statuses: Vec<StepStatus> = result.steps.iter().map(|r| r.status).collect();
    assert_eq!(
        statuses,
        vec![StepStatus::Success, StepStatus::Success, StepStatus::Skipped, StepStatus::Success]
    );
    assert_eq!(result.steps[1].data, Some(obj(vec![("greet", s("Ann")), ("from", s("cli"))])));
    assert_eq!(result.steps[3].data, Some(n(7)));
    assert_eq!(result.data, Some(n(7)));
    assert_eq!(result.steps.iter().map(|r| r.index).collect::<Vec<_>>(), vec![0, 1, 2, 3]);
    assert_eq!(f(result.metadata.confidence), 0.7);
    assert_eq!(result.metadata.completed_steps, 3);
    assert_eq!(result.metadata.total_steps, 4);
    assert_eq!(result.metadata.confidence_breakdown.len(), 3);
    assert_eq!(result.metadata.confidence_breakdown[0].alias, Some("who".to_string()));
    assert_eq!(f(result.metadata.confidence_breakdown[0].confidence), 0.9);
    assert_eq!(result.metadata.confidence_breakdown[2].step, 3);
    assert_eq!(result.metadata.reasoning.len(), 1);
    assert_eq!(result.metadata.reasoning[0].reasoning, "looked up");
    assert_eq!(result.metadata.reasoning[0].command, "user");
    assert_eq!(result.metadata.warnings.len(), 1);
    assert_eq!(result.metadata.warnings[0].step_alias, Some("who".to_string()));
    assert_eq!(result.metadata.sources.len(), 1);
    assert_eq!(result.metadata.sources[0].url, Some("pg://u".to_string()));
    assert_eq!(result.metadata.alternatives.len(), 1);
    assert_eq!(result.metadata.alternatives[0].data, s("Bob"));
    assert_eq!(result.metadata.alternatives[0].confidence, Some(d(0.4)));
    let time: u64 = result.steps.iter().map(|r| r.execution_time_ms).sum();
    assert_eq!(result.metadata.execution_time_ms, time);
}

#[test]
fn a_pipeline_stops_at_the_first_failure() {
    let request = create_pipeline(
        vec![step("user", None), step("fail", None), step("echo", Some(s("$prev")))],
        None,
    );
    let result = registry().execute_pipeline(&request, None);
    assert_eq!(result.steps.len(), 2);
    assert_eq!(result.steps[1].status, StepStatus::Failure);
    assert_eq!(result.steps[1].error.as_ref().unwrap().code, "INTERNAL_ERROR");
    assert_eq!(result.data, Some(obj(vec![("id", n(7)), ("name", s("Ann"))])));
    assert_eq!(result.metadata.completed_steps, 1);
    assert_eq!(result.metadata.total_steps, 3);
    assert_eq!(f(result.metadata.confidence), 0.9);

    let unknown = create_pipeline(vec![step("nobody", None), step("user", None)], None);
    let result = registry().execute_pipeline(&unknown, None);
    assert_eq!(result.steps.len(), 1);
    assert_eq!(result.steps[0].error.as_ref().unwrap().code, "COMMAND_NOT_FOUND");
    assert_eq!(result.data, None);
    assert_eq!(f(result.metadata.confidence), 0.0);
}

#[test]
fn a_pipeline_that_continues_reaches_every_step() {
    let options = PipelineOptions { continue_on_failure: Some(true), ..Default::default() };
    let request = create_pipeline(
        vec![step("fail", None), step("echo", Some(s("$prev"))), step("fail", None), step("user", None)],
        Some(options),
    );
    let result = registry().execute_pipeline(&request, None);
    let statuses: Vec<StepStatus> = result.steps.iter().map(|r| r.status).collect();
    assert_eq!(
        statuses,
        vec![StepStatus::Failure, StepStatus::Success, StepStatus::Failure, StepStatus::Success]
    );
    assert_eq!(result.steps[1].data, Some(JsonValue::Null));
    assert_eq!(result.metadata.completed_steps, 2);

    let unset = PipelineOptions { continue_on_failure: Some(false), ..Default::default() };
    let request = create_pipeline(vec![step("fail", None), step("user", None)], Some(unset));
    assert_eq!(registry().execute_pipeline(&request, None).steps.len(), 1);
    let empty = registry().execute_pipeline(&create_pipeline(vec![], None), None);
    assert!(empty.steps.is_empty());
    assert_eq!(empty.data, None);
    assert_eq!(empty.metadata.total_steps, 0);
}

#[test]
fn a_run_keeps_the_step_before_at_hand() {
    let mut run = PipelineRun::new(Some(s("in")), &None);
    assert!(run.admits());
    let first = step_outcome(&step("user", None), 0, success(n(1)), 3);
    assert_eq!(first.status, StepStatus::Success);
    assert_eq!(first.execution_time_ms, 3);
    run.record(first);
    assert!(run.admits());
    assert_eq!(run.context.previous_result.as_ref().unwrap().data, Some(n(1)));
    run.record(step_outcome(&step("fail", None), 1, failure(CommandError::internal("x")), 4));
    assert!(!run.admits());
    assert_eq!(run.context.previous_result.as_ref().unwrap().status, StepStatus::Failure);
    let result = run.finish(&[step("user", None), step("fail", None), step("echo", None)]);
    assert_eq!(result.data, Some(n(1)));
    assert_eq!(result.metadata.execution_time_ms, 7);
    assert_eq!(result.metadata.total_steps, 3);
}

#[test]
fn what_the_steps_say_together() {
    let mut stated = done(0, StepStatus::Success, Some(n(1)), u64::MAX - 1);
    stated.metadata = Some(StepMetadata {
        confidence: Some(d(0.5)),
        reasoning: Some("because".to_string()),
        sources: Some(vec![Source::new("a", SourceType::Api), Source::new("b", SourceType::File)]),
        alternatives: Some(vec![Alternative::new(n(2), "second")]),
        ..Default::default()
    });
    let mut failed = done(1, StepStatus::Failure, None, 5);
    failed.metadata = Some(StepMetadata {
        confidence: Some(d(0.1)),
        reasoning: Some("unheard".to_string()),
        sources: Some(vec![Source::new("c", SourceType::User)]),
        ..Default::default()
    });
    let silent = done(2, StepStatus::Success, None, 5);
    let steps = vec![stated, failed, silent];
    let defs = vec![step("x", None), step("y", None), PipelineStep {
        alias: Some("third".to_string()),
        ..step("z", None)
    }];

    let metadata = build_pipeline_metadata(&steps, Some(&defs), 3);
    assert_eq!(f(metadata.confidence), 0.5);
    assert_eq!(metadata.execution_time_ms, u64::MAX);
    assert_eq!(metadata.completed_steps, 2);
    assert_eq!(metadata.total_steps, 3);
    assert!(metadata.result_metadata.is_none());

    let breakdown = build_confidence_breakdown(&steps, Some(&defs));
    assert_eq!(breakdown.len(), 2);
    assert_eq!((breakdown[0].step, f(breakdown[0].confidence)), (0, 0.5));
    assert_eq!(breakdown[0].reasoning, Some("because".to_string()));
    assert_eq!(breakdown[0].alias, None);
    assert_eq!((breakdown[1].step, f(breakdown[1].confidence)), (2, 1.0));
    assert_eq!(breakdown[1].alias, Some("third".to_string()));
    assert_eq!(build_confidence_breakdown(&steps, None)[1].alias, None);

    let reasoning = aggregate_pipeline_reasoning(&steps);
    assert_eq!(reasoning.len(), 1);
    assert_eq!(reasoning[0].step_index, 0);
    let sources = aggregate_pipeline_sources(&steps);
    let named: Vec<(&str, usize)> = sources.iter().map(|s| (s.name.as_str(), s.step_index)).collect();
    assert_eq!(named, vec![("a", 0), ("b", 0), ("c", 1)]);
    let alternatives = aggregate_pipeline_alternatives(&steps);
    assert_eq!(alternatives.len(), 1);
    assert_eq!(alternatives[0].reason, "second");
    assert_eq!(alternatives[0].confidence, None);

    assert_eq!(final_data(&steps), None);
    assert_eq!(final_data(&steps[..2]), Some(n(1)));
    assert_eq!(final_data(&[]), None);
    assert_eq!(build_pipeline_metadata(&[], None, usize::MAX).total_steps, u32::MAX);
}
