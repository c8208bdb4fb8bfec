use afd::batch::BatchCommand;
use afd::batch::BatchOptions;
use afd::batch::BatchRequest;
use afd::commands::command_to_mcp_tool;
use afd::commands::create_command_registry;
use afd::commands::CommandContext;
use afd::commands::CommandDefinition;
use afd::commands::CommandHandler;
use afd::commands::CommandParameter;
use afd::commands::CommandRegistry;
use afd::commands::ExecutionTime;
use afd::commands::JsonSchema;
use afd::commands::JsonSchemaType;
use afd::handoff::get_handoff_protocol;
use afd::handoff::is_handoff_command;
use afd::json::JsonMap;
use afd::json::JsonValue;
use afd::result::failure;
use afd::result::success;
use afd::result::success_with;
use afd::result::ResultOptions;
use afd::Double;
use afd::CommandError;
use afd::CommandResult;

fn s(text: &str) -> JsonValue {
    JsonValue::String(text.to_string())
}

fn obj(members: Vec<(&str, JsonValue)>) -> JsonValue {
    let mut map = JsonMap::new();
    for (key, value) in members {
        map.insert(key, value);
    }
    JsonValue::Object(map)
}

struct TestHandler;

impl CommandHandler for TestHandler {
    fn execute(&self, input: JsonValue, _context: CommandContext) -> CommandResult<JsonValue> {
        success(obj(vec![("echo", input)]))
    }
}

enum Scripted {
    Echo,
    Fail,
    Trace,
    Sure(f64),
}

fn mean(values: Vec<Double>) -> Double {
    let sum: f64 = values.iter().map(|v| f64::from_bits(v.to_bits())).sum();
    Double::from_bits((sum / values.len() as f64).to_bits())
}

impl CommandHandler for Scripted {
    fn execute(&self, input: JsonValue, context: CommandContext) -> CommandResult<JsonValue> {
        match self {
            Scripted::Echo => success(input),
            Scripted::Fail => failure(CommandError::validation("no", None)),
            Scripted::Trace => match context.trace_id {
                Some(id) => success(s(&id)),
                None => success(JsonValue::Null),
            },
            Scripted::Sure(confidence) => success_with(
                input,
                ResultOptions {
                    confidence: Some(Double::from_bits(confidence.to_bits())),
                    ..Default::default()
                },
            ),
        }
    }
}

fn scripted() -> CommandRegistry<Scripted> {
    let mut registry = CommandRegistry::new();
    registry.register(CommandDefinition::new("echo", "Echo", vec![], Scripted::Echo)).unwrap();
    registry.register(CommandDefinition::new("fail", "Fail", vec![], Scripted::Fail)).unwrap();
    registry.register(CommandDefinition::new("trace", "Trace", vec![], Scripted::Trace)).unwrap();
    registry.register(CommandDefinition::new("sure", "Sure", vec![], Scripted::Sure(0.5))).unwrap();
    registry.register(CommandDefinition::new("surer", "Surer", vec![], Scripted::Sure(1.0))).unwrap();
    registry
}

fn batch(names: &[&str], continue_on_error: bool) -> BatchRequest<JsonValue> {
    let commands = names
        .iter()
        .enumerate()
        .map(|(i, name)| BatchCommand::new(&format!("id{}", i), name, s(name)))
        .collect();
    BatchRequest::new(commands)
        .with_options(BatchOptions { continue_on_error, ..Default::default() })
}

#[test]
fn test_command_registry() {
    let mut registry = CommandRegistry::new();

    let cmd = CommandDefinition::new(
        "test.echo",
        "Echoes input back",
        vec![CommandParameter::required_string("message", "Message to echo")],
        TestHandler,
    );

    registry.register(cmd).unwrap();
    assert!(registry.has("test.echo"));

    let result = registry.execute("test.echo", obj(vec![("message", s("hello"))]), None);

    assert!(result.success);
}

#[test]
fn test_command_not_found() {
    let registry: CommandRegistry<TestHandler> = CommandRegistry::new();

    let result = registry.execute("nonexistent", obj(vec![]), None);

    assert!(!result.success);
    assert_eq!(result.error.as_ref().unwrap().code, "COMMAND_NOT_FOUND");
}

#[test]
fn test_command_to_mcp_tool() {
    let cmd = CommandDefinition::new(
        "test.create",
        "Creates a test",
        vec![
            CommandParameter::required_string("name", "Test name"),
            CommandParameter::optional_string("description", "Test description"),
        ],
        TestHandler,
    );

    let tool = command_to_mcp_tool(&cmd);

    assert_eq!(tool.name, "test.create");
    assert_eq!(tool.input_schema.required, vec!["name"]);
    assert!(tool.input_schema.properties.contains_key("name"));
    assert!(tool.input_schema.properties.contains_key("description"));
}

#[test]
fn test_handoff_command() {
    let cmd = CommandDefinition::new("stream.connect", "Connect to stream", vec![], TestHandler)
        .as_handoff_with_protocol("websocket");

    assert!(cmd.handoff);
    assert_eq!(cmd.handoff_protocol, Some("websocket".to_string()));
    assert!(is_handoff_command(&cmd));
}

#[test]
fn test_list_handoff_commands() {
    let mut registry = CommandRegistry::new();

    let cmd1 = CommandDefinition::new("test.regular", "Regular command", vec![], TestHandler);

    let cmd2 = CommandDefinition::new("stream.connect", "Connect to stream", vec![], TestHandler)
        .as_handoff_with_protocol("websocket");

    let cmd3 =
        CommandDefinition::new("events.subscribe", "Subscribe to events", vec![], TestHandler)
            .with_tags(vec!["handoff".to_string(), "events".to_string()]);

    registry.register(cmd1).unwrap();
    registry.register(cmd2).unwrap();
    registry.register(cmd3).unwrap();

    let handoff_commands = registry.list_handoff_commands();
    assert_eq!(handoff_commands.len(), 2);
}

#[test]
fn a_second_command_of_the_same_name_is_refused() {
    let mut registry = CommandRegistry::new();
    let first = CommandDefinition::new("a.b", "first", vec![], TestHandler).with_category("one");
    let second = CommandDefinition::new("a.b", "second", vec![], TestHandler).with_category("two");
    assert_eq!(registry.register(first), Ok(()));
    assert_eq!(
        registry.register(second),
        Err("Command 'a.b' is already registered".to_string())
    );
    assert_eq!(registry.list().len(), 1);
    let held = registry.get("a.b").unwrap();
    assert_eq!(held.description, "first");
    assert_eq!(held.category, Some("one".to_string()));
    assert!(registry.get("a.c").is_none());
    assert!(!registry.has("a"));
}

#[test]
fn lists_keep_the_order_of_registration() {
    let mut registry = create_command_registry();
    for (name, category) in [("c", Some("x")), ("a", None), ("b", Some("x")), ("d", Some("y"))] {
        let mut command = CommandDefinition::new(name, "d", vec![], TestHandler);
        if let Some(category) = category {
            command = command.with_category(category);
        }
        registry.register(command).unwrap();
    }
    let all: Vec<String> = registry.list().iter().map(|c| c.name.clone()).collect();
    assert_eq!(all, vec!["c", "a", "b", "d"]);
    let x: Vec<String> = registry.list_by_category("x").iter().map(|c| c.name.clone()).collect();
    assert_eq!(x, vec!["c", "b"]);
    assert!(registry.list_by_category("z").is_empty());
    assert!(registry.list_handoff_commands().is_empty());
    assert!(CommandRegistry::<TestHandler>::default().list().is_empty());
}

#[test]
fn not_found_result_is_exact() {
    let registry = scripted();
    let result = registry.execute("nope", JsonValue::Null, None);
    let error = result.error.as_ref().unwrap();
    assert!(result.data.is_none());
    assert_eq!(error.code, "COMMAND_NOT_FOUND");
    assert_eq!(error.message, "Command 'nope' not found");
    assert_eq!(error.suggestion, Some("Use 'afd tools' to see available commands".to_string()));
    assert_eq!(error.retryable, Some(false));
    assert!(error.details.is_none() && error.cause.is_none());
}

#[test]
fn execute_hands_input_and_context_to_the_handler() {
    let registry = scripted();
    let echoed = registry.execute("echo", s("hi"), None);
    assert_eq!(echoed.data, Some(s("hi")));
    let traced =
        registry.execute("trace", JsonValue::Null, Some(CommandContext::new().with_trace_id("t-1")));
    assert_eq!(traced.data, Some(s("t-1")));
    let untraced = registry.execute("trace", JsonValue::Null, None);
    assert_eq!(untraced.data, Some(JsonValue::Null));
    let context = CommandContext::new().with_timeout(30);
    assert_eq!(context.timeout_ms, Some(30));
    assert!(context.trace_id.is_none());
}

#[test]
fn an_empty_batch_fails_as_a_whole() {
    let registry = scripted();
    let result = registry.execute_batch(BatchRequest::new(vec![]), mean);
    assert!(!result.success);
    assert!(result.results.is_empty());
    let error = result.error.as_ref().unwrap();
    assert_eq!(error.code, "INVALID_BATCH_REQUEST");
    assert_eq!(error.message, "Batch request must contain at least one command");
    assert_eq!(error.suggestion, Some("Provide an array of commands to execute".to_string()));
    assert_eq!(error.retryable, Some(false));
    assert_eq!(result.summary.total, 0);
    assert_eq!(result.timing.total_ms, Some(0));
    assert_eq!(result.timing.average_ms, None);
    assert!(result.timing.ended_at.is_some());
    assert!(!result.timing.started_at.is_empty());
}

#[test]
fn a_batch_that_stops_pads_the_rest() {
    let registry = scripted();
    let result = registry.execute_batch(batch(&["echo", "fail", "echo", "missing", "echo"], false), mean);
    assert_eq!(result.results.len(), 5);
    let ids: Vec<&str> = result.results.iter().map(|r| r.id.as_str()).collect();
    assert_eq!(ids, vec!["id0", "id1", "id2", "id3", "id4"]);
    let names: Vec<&str> = result.results.iter().map(|r| r.command.as_str()).collect();
    assert_eq!(names, vec!["echo", "fail", "echo", "missing", "echo"]);
    assert!(result.results[0].result.success);
    assert_eq!(result.results[0].result.data, Some(s("echo")));
    assert_eq!(result.results[1].result.error.as_ref().unwrap().code, "VALIDATION_ERROR");
    for skipped in &result.results[2..] {
        assert_eq!(skipped.result.error.as_ref().unwrap().code, "COMMAND_SKIPPED");
        assert_eq!(skipped.duration_ms, Some(0));
        assert!(skipped.result.data.is_none());
    }
    assert!(!result.success);
    assert_eq!(result.summary.total, 5);
    assert_eq!(result.summary.succeeded, 1);
    assert_eq!(result.summary.failed, 4);
    assert_eq!(result.summary.skipped, 0);
    assert!(result.error.is_none());
    let total = result.timing.total_ms.unwrap();
    assert_eq!(result.timing.average_ms, Some(total / 5));
}

#[test]
fn a_batch_that_continues_runs_every_command() {
    let registry = scripted();
    let result = registry.execute_batch(batch(&["fail", "echo", "missing", "echo"], true), mean);
    assert_eq!(result.results.len(), 4);
    let codes: Vec<Option<&str>> = result
        .results
        .iter()
        .map(|r| r.result.error.as_ref().map(|e| e.code.as_str()))
        .collect();
    assert_eq!(codes, vec![Some("VALIDATION_ERROR"), None, Some("COMMAND_NOT_FOUND"), None]);
    assert_eq!(result.summary.succeeded, 2);
    assert_eq!(result.summary.failed, 2);
    assert!(!result.success);

    let fine = registry.execute_batch(batch(&["echo", "trace"], false), mean);
    assert!(fine.success);
    assert_eq!(fine.summary.succeeded, 2);
    assert_eq!(fine.summary.failed, 0);
    assert!(fine.results.iter().all(|r| r.duration_ms.is_some()));
}

#[test]
fn builders_set_one_field_each() {
    let command = CommandDefinition::new("n", "d", vec![], TestHandler)
        .with_category("c")
        .with_returns(JsonSchema { schema_type: Some(JsonSchemaType::Array), ..Default::default() })
        .as_mutation()
        .with_execution_time(ExecutionTime::Slow)
        .with_tags(vec!["t".to_string()])
        .with_version("1.2.3")
        .as_handoff();
    assert_eq!(command.name, "n");
    assert_eq!(command.description, "d");
    assert_eq!(command.category, Some("c".to_string()));
    assert_eq!(command.returns.as_ref().unwrap().schema_type, Some(JsonSchemaType::Array));
    assert!(command.mutation);
    assert_eq!(command.execution_time, Some(ExecutionTime::Slow));
    assert_eq!(command.tags, Some(vec!["t".to_string()]));
    assert_eq!(command.version, Some("1.2.3".to_string()));
    assert!(command.handoff);
    assert!(command.handoff_protocol.is_none());
    assert!(is_handoff_command(&command));
    assert_eq!(get_handoff_protocol(&command), None);

    let plain = CommandDefinition::new("n", "d", vec![], TestHandler);
    assert!(!is_handoff_command(&plain));
    let tagged = CommandDefinition::new("n", "d", vec![], TestHandler)
        .with_tags(vec!["events".to_string()]);
    assert!(!is_handoff_command(&tagged));
    let named = CommandDefinition::new("n", "d", vec![], TestHandler)
        .as_handoff_with_protocol("sse");
    assert_eq!(get_handoff_protocol(&named), Some("sse"));
}

#[test]
fn tools_describe_each_parameter() {
    let own = JsonSchema {
        schema_type: Some(JsonSchemaType::Integer),
        format: Some("int32".to_string()),
        ..Default::default()
    };
    let mut with_schema = CommandParameter::required_number("count", "How many");
    with_schema.schema = Some(own);
    let command = CommandDefinition::new(
        "t",
        "d",
        vec![
            CommandParameter::required_boolean("flag", "A flag"),
            with_schema,
            CommandParameter::optional_string("mode", "A mode")
                .with_default(s("fast"))
                .with_enum(vec![s("fast"), s("slow")]),
        ],
        TestHandler,
    );
    let tool = command_to_mcp_tool(&command);
    assert_eq!(tool.description, "d");
    assert_eq!(tool.input_schema.schema_type, "object");
    assert_eq!(tool.input_schema.required, vec!["flag", "count"]);
    assert_eq!(tool.input_schema.properties.len(), 3);
    let flag = tool.input_schema.properties.get("flag").unwrap();
    assert_eq!(flag.schema_type, Some(JsonSchemaType::Boolean));
    assert_eq!(flag.description, Some("A flag".to_string()));
    assert!(flag.default.is_none() && flag.enum_values.is_none());
    let count = tool.input_schema.properties.get("count").unwrap();
    assert_eq!(count.schema_type, Some(JsonSchemaType::Integer));
    assert_eq!(count.format, Some("int32".to_string()));
    assert!(count.description.is_none());
    let mode = tool.input_schema.properties.get("mode").unwrap();
    assert_eq!(mode.default, Some(s("fast")));
    assert_eq!(mode.enum_values, Some(vec![s("fast"), s("slow")]));
    assert!(tool.input_schema.properties.get("other").is_none());

    let bare = command_to_mcp_tool(&CommandDefinition::new("t", "d", vec![], TestHandler));
    assert!(bare.input_schema.properties.is_empty());
    assert!(bare.input_schema.required.is_empty());
}

#[test]
fn a_batch_states_the_mean_confidence_of_what_succeeded() {
    let registry = scripted();
    let result = registry.execute_batch(batch(&["sure", "echo", "fail", "surer"], true), mean);
    assert_eq!(result.summary.succeeded, 3);
    assert_eq!(
        result.summary.average_confidence.map(|c| f64::from_bits(c.to_bits())),
        Some(0.75)
    );
    let stopped = registry.execute_batch(batch(&["sure", "fail", "surer"], false), mean);
    assert_eq!(
        stopped.summary.average_confidence.map(|c| f64::from_bits(c.to_bits())),
        Some(0.5)
    );
    let silent = registry.execute_batch(batch(&["echo", "trace"], false), mean);
    assert!(silent.success);
    assert_eq!(silent.summary.average_confidence, None);
    let failed = registry.execute_batch(batch(&["fail", "missing"], true), mean);
    assert_eq!(failed.summary.average_confidence, None);
}

#[test]
fn unregistered_commands_in_a_stopping_batch() {
    let registry: CommandRegistry<TestHandler> = CommandRegistry::new();
    let request = BatchRequest::new(vec![
        BatchCommand::new("1", "a", obj(vec![])),
        BatchCommand::new("2", "b", obj(vec![])),
        BatchCommand::new("3", "c", obj(vec![])),
    ]);
    let result = registry.execute_batch(request, mean);
    assert_eq!(result.results.len(), 3);
    assert_eq!(result.results[0].result.error.as_ref().unwrap().code, "COMMAND_NOT_FOUND");
    assert_eq!((result.results[1].id.as_str(), result.results[1].command.as_str()), ("2", "b"));
    assert_eq!((result.results[2].id.as_str(), result.results[2].command.as_str()), ("3", "c"));
    for skipped in &result.results[1..] {
        assert_eq!(skipped.result.error.as_ref().unwrap().code, "COMMAND_SKIPPED");
        assert_eq!(skipped.duration_ms, Some(0));
    }
    assert!(!result.success);
    assert_eq!(result.summary.total, 3);
    assert_eq!(result.summary.succeeded, 0);
    assert!(result.error.is_none());
}

#[test]
fn a_missing_and_a_registered_command_in_a_continuing_batch() {
    let mut registry = CommandRegistry::new();
    registry.register(CommandDefinition::new("ok", "Echo", vec![], TestHandler)).unwrap();
    let request = BatchRequest::new(vec![
        BatchCommand::new("1", "missing", obj(vec![])),
        BatchCommand::new("2", "ok", obj(vec![])),
    ])
    .with_options(BatchOptions { continue_on_error: true, ..Default::default() });
    let result = registry.execute_batch(request, mean);
    assert_eq!(result.results.len(), 2);
    assert_eq!(result.results[0].result.error.as_ref().unwrap().code, "COMMAND_NOT_FOUND");
    assert!(result.results[1].result.success);
    assert_eq!(result.results[1].result.data, Some(obj(vec![("echo", obj(vec![]))])));
    assert_eq!(result.summary.total, 2);
    assert_eq!(result.summary.succeeded, 1);
    assert!(!result.success);
}
