use afd::bootstrap::bootstrap_tags;
use afd::bootstrap::build_docs_output;
use afd::bootstrap::build_help_output;
use afd::bootstrap::build_schema_output;
use afd::bootstrap::command_passes_filter;
use afd::bootstrap::default_format;
use afd::bootstrap::docs_reasoning;
use afd::bootstrap::generate_command_docs;
use afd::bootstrap::generate_typescript_type;
use afd::bootstrap::help_reasoning;
use afd::bootstrap::schema_reasoning;
use afd::bootstrap::to_pascal_case;
use afd::bootstrap::DocsInput;
use afd::bootstrap::HelpInput;
use afd::bootstrap::SchemaFormat;
use afd::bootstrap::SchemaInput;
use afd::bootstrap::BOOTSTRAP_CATEGORY;
use afd::commands::CommandContext;
use afd::commands::CommandDefinition;
use afd::commands::CommandHandler;
use afd::commands::CommandParameter;
use afd::commands::CommandRegistry;
use afd::json::JsonValue;
use afd::result::success;
use afd::text::has_substring;
use afd::text::join;
use afd::CommandResult;

struct TestHandler;

impl CommandHandler for TestHandler {
    fn execute(&self, _input: JsonValue, _context: CommandContext) -> CommandResult<JsonValue> {
        success(JsonValue::Bool(true))
    }
}

fn s(text: &str) -> JsonValue {
    JsonValue::String(text.to_string())
}

fn registry() -> CommandRegistry<TestHandler> {
    let mut registry = CommandRegistry::new();
    let cmd1 = CommandDefinition::new(
        "todo-create",
        "Create a new todo item",
        vec![
            CommandParameter::required_string("title", "The todo title"),
            CommandParameter::optional_string("description", "Optional description"),
        ],
        TestHandler,
    )
    .with_category("todo")
    .with_tags(vec!["todo".to_string(), "write".to_string()])
    .as_mutation();
    let cmd2 = CommandDefinition::new("todo-list", "List all todos", vec![], TestHandler)
        .with_category("todo")
        .with_tags(vec!["todo".to_string(), "read".to_string()]);
    let cmd3 = CommandDefinition::new(
        "user-get",
        "Get user by ID",
        vec![CommandParameter::required_string("id", "User ID")],
        TestHandler,
    )
    .with_category("user")
    .with_tags(vec!["user".to_string(), "read".to_string()]);
    let cmd4 = CommandDefinition::new("ping", "Ping", vec![], TestHandler);
    registry.register(cmd1).unwrap();
    registry.register(cmd2).unwrap();
    registry.register(cmd3).unwrap();
    registry.register(cmd4).unwrap();
    registry
}

#[test]
fn names_in_pascal_case() {
    assert_eq!(to_pascal_case("todo-create"), "TodoCreate");
    assert_eq!(to_pascal_case("user.get_by_id"), "UserGetById");
    assert_eq!(to_pascal_case("--a--b--"), "AB");
    assert_eq!(to_pascal_case(""), "");
    assert_eq!(to_pascal_case("already"), "Already");
    assert_eq!(to_pascal_case("x-\u{df}y"), "XSSy");
    assert_eq!(to_pascal_case("\u{e9}t\u{e9}"), "\u{c9}t\u{e9}");
    assert_eq!(to_pascal_case("a b"), "A b");
}

#[test]
fn listing_all_commands() {
    let commands = registry().list();
    let output = build_help_output(&commands, &HelpInput::default());
    assert_eq!(output.total, 4);
    assert!(!output.filtered);
    let names: Vec<&str> = output.commands.iter().map(|c| c.name.as_str()).collect();
    assert_eq!(names, vec!["todo-create", "todo-list", "user-get", "ping"]);
    assert!(output.commands.iter().all(|c| c.category.is_none() && c.tags.is_none()));
    assert!(output.commands.iter().all(|c| c.mutation.is_none()));
    let groups: Vec<(&str, usize)> = output
        .grouped_by_category
        .iter()
        .map(|g| (g.category.as_str(), g.commands.len()))
        .collect();
    assert_eq!(groups, vec![("todo", 2), ("user", 1), ("uncategorized", 1)]);
    assert_eq!(output.grouped_by_category[0].commands[1].name, "todo-list");
    assert_eq!(help_reasoning(output.total, &None), "Listing all 4 available commands");
    assert_eq!(default_format(), "brief");
}

#[test]
fn listing_with_a_filter_and_in_full() {
    let commands = registry().list();
    let input = HelpInput { filter: Some("TODO".to_string()), format: "full".to_string() };
    let output = build_help_output(&commands, &input);
    assert_eq!(output.total, 2);
    assert!(output.filtered);
    assert_eq!(output.commands[0].category, Some("todo".to_string()));
    assert_eq!(output.commands[0].tags, Some(vec!["todo".to_string(), "write".to_string()]));
    assert_eq!(output.commands[0].mutation, Some(true));
    assert_eq!(output.commands[1].mutation, Some(false));
    assert_eq!(output.grouped_by_category.len(), 1);
    assert_eq!(
        help_reasoning(output.total, &input.filter),
        "Found 2 commands matching \"TODO\""
    );
    let read = HelpInput { filter: Some("read".to_string()), format: "brief".to_string() };
    let names: Vec<String> =
        build_help_output(&commands, &read).commands.iter().map(|c| c.name.clone()).collect();
    assert_eq!(names, vec!["todo-list", "user-get"]);
    let none = HelpInput { filter: Some("zzz".to_string()), format: "brief".to_string() };
    assert_eq!(build_help_output(&commands, &none).total, 0);
    assert!(command_passes_filter(&commands[3], "in"));
    assert!(command_passes_filter(&commands[3], ""));
    assert!(!command_passes_filter(&commands[3], "pong"));
    assert!(!command_passes_filter(&commands[0], "TODO"));
    assert!(command_passes_filter(&commands[2], "use"));
}

#[test]
fn substrings_and_joins() {
    let chars = |text: &str| text.chars().collect::<Vec<char>>();
    assert!(has_substring(&chars("hello"), &chars("ell")));
    assert!(has_substring(&chars("hello"), &chars("")));
    assert!(has_substring(&chars("hello"), &chars("hello")));
    assert!(has_substring(&chars("hello"), &chars("lo")));
    assert!(!has_substring(&chars("hello"), &chars("hello!")));
    assert!(!has_substring(&chars("hello"), &chars("lol")));
    assert!(!has_substring(&chars(""), &chars("a")));
    assert_eq!(join(&vec!["a".to_string(), "".to_string(), "c".to_string()], ", "), "a, , c");
    assert_eq!(join(&vec!["only".to_string()], "\n"), "only");
    assert_eq!(join(&vec![], "\n"), "");
    assert_eq!(bootstrap_tags(), vec!["bootstrap", "read", "safe"]);
    assert_eq!(BOOTSTRAP_CATEGORY, "bootstrap");
}

#[test]
fn the_document_of_a_command() {
    let commands = registry().list();
    let wanted = [
        "### `todo-create`",
        "",
        "Create a new todo item",
        "",
        "**Tags:** `todo`, `write`",
        "",
        "**Mutation:** Yes",
        "",
        "**Parameters:**",
        "",
        "| Name | Type | Required | Description |",
        "|------|------|----------|-------------|",
        "| title | string | Yes | The todo title |",
        "| description | string | No | Optional description |",
        "",
        "---",
        "",
    ]
    .join("\n");
    assert_eq!(generate_command_docs(&commands[0]), wanted);
    assert_eq!(
        generate_command_docs(&commands[3]),
        "### `ping`\n\nPing\n\n**Mutation:** No (read-only)\n\n---\n"
    );
    let untagged = CommandDefinition::new("x", "d", vec![], TestHandler).with_tags(vec![]);
    assert_eq!(
        generate_command_docs(&untagged),
        "### `x`\n\nd\n\n**Mutation:** No (read-only)\n\n---\n"
    );
}

#[test]
fn documents_are_ordered_by_category_and_name() {
    let commands = registry().list();
    let output = build_docs_output(&commands, &DocsInput::default());
    assert_eq!(output.command_count, 4);
    assert!(output.markdown.starts_with("# Command Documentation\n\n## General\n\n### `ping`"));
    let headings: Vec<&str> =
        output.markdown.lines().filter(|l| l.starts_with("## ") || l.starts_with("### ")).collect();
    assert_eq!(
        headings,
        vec![
            "## General",
            "### `ping`",
            "## todo",
            "### `todo-create`",
            "### `todo-list`",
            "## user",
            "### `user-get`",
        ]
    );
    let wanted = format!(
        "# Command Documentation\n\n## General\n\n{}\n## todo\n\n{}\n{}\n## user\n\n{}",
        generate_command_docs(&commands[3]),
        generate_command_docs(&commands[0]),
        generate_command_docs(&commands[1]),
        generate_command_docs(&commands[2]),
    );
    assert_eq!(output.markdown, wanted);
    assert_eq!(docs_reasoning(4, &None), "Generated documentation for 4 commands");

    let mut shuffled = CommandRegistry::new();
    for (name, category) in [("b", "z"), ("a", "z"), ("c", "a"), ("B", "z"), ("ab", "z")] {
        shuffled
            .register(CommandDefinition::new(name, "d", vec![], TestHandler).with_category(category))
            .unwrap();
    }
    let output = build_docs_output(&shuffled.list(), &DocsInput::default());
    let headings: Vec<&str> =
        output.markdown.lines().filter(|l| l.starts_with("## ") || l.starts_with("### ")).collect();
    assert_eq!(
        headings,
        vec!["## a", "### `c`", "## z", "### `B`", "### `a`", "### `ab`", "### `b`"]
    );
}

#[test]
fn documents_of_one_command() {
    let commands = registry().list();
    let one = DocsInput { command: Some("user-get".to_string()) };
    let output = build_docs_output(&commands, &one);
    assert_eq!(output.command_count, 1);
    assert_eq!(
        output.markdown,
        format!("# Command Documentation\n\n## user\n\n{}", generate_command_docs(&commands[2]))
    );
    assert_eq!(docs_reasoning(1, &one.command), "Generated documentation for \"user-get\"");

    let missing = DocsInput { command: Some("nonexistent".to_string()) };
    let output = build_docs_output(&commands, &missing);
    assert_eq!(output.command_count, 0);
    assert!(output.markdown.is_empty());
    assert_eq!(docs_reasoning(0, &missing.command), "Command \"nonexistent\" not found");
    let nothing: Vec<std::sync::Arc<CommandDefinition<TestHandler>>> = vec![];
    assert_eq!(
        build_docs_output(&nothing, &DocsInput::default()).markdown,
        "# Command Documentation\n"
    );
}

#[test]
fn schemas_as_tools_and_as_typescript() {
    let mut registry = CommandRegistry::new();
    let command = CommandDefinition::new(
        "todo-create",
        "Create a new todo item",
        vec![
            CommandParameter::required_string("title", "The todo title"),
            CommandParameter::optional_string("description", "Optional description")
                .with_default(JsonValue::Null),
            CommandParameter::required_string("priority", "Priority level")
                .with_enum(vec![s("low"), s("medium"), s("high")])
                .with_default(s("medium")),
            CommandParameter::required_number("count", "How many"),
            CommandParameter::required_boolean("done", "Whether done"),
        ],
        TestHandler,
    )
    .with_category("todo")
    .as_mutation();
    registry.register(command).unwrap();
    registry.register(CommandDefinition::new("todo-list", "List all todos", vec![], TestHandler)).unwrap();
    let commands = registry.list();

    let output = build_schema_output(&commands, &SchemaInput::default());
    assert_eq!(output.total, 2);
    assert_eq!(output.format, SchemaFormat::Json);
    assert!(output.schemas[0].typescript.is_none());
    let mcp = output.schemas[0].mcp_tool.as_ref().unwrap();
    assert!(mcp.input_schema.properties.contains_key("title"));
    assert!(mcp.input_schema.properties.contains_key("description"));
    assert!(mcp.input_schema.properties.contains_key("priority"));
    let priority = mcp.input_schema.properties.get("priority").unwrap();
    assert!(priority.enum_values.is_some());
    assert!(priority.default.is_some());
    let listed = output.schemas[1].mcp_tool.as_ref().unwrap();
    assert!(listed.input_schema.properties.is_empty());
    assert!(listed.input_schema.required.is_empty());
    assert_eq!(schema_reasoning(2, &None), "Exported 2 command schemas");

    let typed = SchemaInput { command: None, format: SchemaFormat::Typescript };
    let output = build_schema_output(&commands, &typed);
    assert_eq!(output.format, SchemaFormat::Typescript);
    assert!(output.schemas[0].mcp_tool.is_none());
    let ts = output.schemas[0].typescript.as_ref().unwrap();
    assert!(ts.contains("interface TodoCreateInput"));
    assert_eq!(
        ts,
        "// Create a new todo item\ninterface TodoCreateInput {\n  title: string;\n  description?: string;\n  priority: string;\n  count: number;\n  done: boolean;\n}"
    );
    assert_eq!(
        generate_typescript_type(&commands[1]),
        "// List all todos\ninterface TodoListInput {\n}"
    );

    let one = SchemaInput { command: Some("todo-list".to_string()), format: SchemaFormat::Json };
    let output = build_schema_output(&commands, &one);
    assert_eq!(output.total, 1);
    assert_eq!(output.schemas[0].name, "todo-list");
    assert_eq!(output.schemas[0].description, "List all todos");
    assert_eq!(schema_reasoning(1, &one.command), "Exported schema for \"todo-list\"");
    let none = SchemaInput { command: Some("nope".to_string()), format: SchemaFormat::Json };
    assert_eq!(build_schema_output(&commands, &none).total, 0);
    assert_eq!(schema_reasoning(0, &none.command), "Command \"nope\" not found");
}

fn todo_registry() -> CommandRegistry<TestHandler> {
    let mut registry = CommandRegistry::new();
    let cmd1 = CommandDefinition::new(
        "todo-create",
        "Create a new todo item",
        vec![
            CommandParameter::required_string("title", "The todo title"),
            CommandParameter::optional_string("description", "Optional description"),
        ],
        TestHandler,
    )
    .with_category("todo")
    .with_tags(vec!["todo".to_string(), "write".to_string()])
    .as_mutation();
    let cmd2 = CommandDefinition::new("todo-list", "List all todos", vec![], TestHandler)
        .with_category("todo")
        .with_tags(vec!["todo".to_string(), "read".to_string()]);
    registry.register(cmd1).unwrap();
    registry.register(cmd2).unwrap();
    registry
}

fn help_registry() -> CommandRegistry<TestHandler> {
    let mut registry = todo_registry();
    let cmd3 = CommandDefinition::new(
        "user-get",
        "Get user by ID",
        vec![CommandParameter::required_string("id", "User ID")],
        TestHandler,
    )
    .with_category("user")
    .with_tags(vec!["user".to_string(), "read".to_string()]);
    registry.register(cmd3).unwrap();
    registry
}

fn schema_registry() -> CommandRegistry<TestHandler> {
    let mut registry = CommandRegistry::new();
    let cmd = CommandDefinition::new(
        "todo-create",
        "Create a new todo item",
        vec![
            CommandParameter::required_string("title", "The todo title"),
            CommandParameter::optional_string("description", "Optional description")
                .with_default(JsonValue::Null),
            CommandParameter::required_string("priority", "Priority level")
                .with_enum(vec![s("low"), s("medium"), s("high")])
                .with_default(s("medium")),
        ],
        TestHandler,
    )
    .with_category("todo")
    .as_mutation();
    registry.register(cmd).unwrap();
    registry
}

#[test]
fn test_afd_docs_all() {
    let output = build_docs_output(&todo_registry().list(), &DocsInput::default());
    assert_eq!(output.command_count, 2);
    assert!(output.markdown.contains("# Command Documentation"));
}

#[test]
fn test_afd_docs_not_found() {
    let input = DocsInput { command: Some("nonexistent".to_string()) };
    let output = build_docs_output(&todo_registry().list(), &input);
    assert_eq!(output.command_count, 0);
    assert!(output.markdown.is_empty());
}

#[test]
fn test_afd_help_list_all() {
    let output = build_help_output(&help_registry().list(), &HelpInput::default());
    assert_eq!(output.total, 3);
    assert!(!output.filtered);
}

#[test]
fn test_afd_help_filter_by_tag() {
    let input = HelpInput { filter: Some("todo".to_string()), ..Default::default() };
    let output = build_help_output(&help_registry().list(), &input);
    assert_eq!(output.total, 2);
    assert!(output.filtered);
}

#[test]
fn test_afd_help_grouped_by_category() {
    let output = build_help_output(&help_registry().list(), &HelpInput::default());
    let group = |name: &str| output.grouped_by_category.iter().find(|g| g.category == name);
    assert!(group("todo").is_some());
    assert!(group("user").is_some());
    assert_eq!(group("todo").unwrap().commands.len(), 2);
    assert_eq!(group("user").unwrap().commands.len(), 1);
}

#[test]
fn test_afd_schema_json() {
    let output = build_schema_output(&schema_registry().list(), &SchemaInput::default());
    assert_eq!(output.total, 1);
    assert_eq!(output.format, SchemaFormat::Json);
    assert!(output.schemas[0].mcp_tool.is_some());
}

#[test]
fn test_afd_schema_typescript() {
    let input = SchemaInput { command: None, format: SchemaFormat::Typescript };
    let output = build_schema_output(&schema_registry().list(), &input);
    assert_eq!(output.format, SchemaFormat::Typescript);
    assert!(output.schemas[0].typescript.is_some());
    let ts = output.schemas[0].typescript.as_ref().unwrap();
    assert!(ts.contains("interface TodoCreateInput"));
}

#[test]
fn test_afd_schema_includes_properties() {
    let output = build_schema_output(&schema_registry().list(), &SchemaInput::default());
    let mcp = output.schemas[0].mcp_tool.as_ref().unwrap();
    assert!(mcp.input_schema.properties.contains_key("title"));
    assert!(mcp.input_schema.properties.contains_key("description"));
    assert!(mcp.input_schema.properties.contains_key("priority"));
}

#[test]
fn test_afd_schema_includes_enum_and_default() {
    let output = build_schema_output(&schema_registry().list(), &SchemaInput::default());
    let mcp = output.schemas[0].mcp_tool.as_ref().unwrap();
    let priority = mcp.input_schema.properties.get("priority").unwrap();
    assert!(priority.enum_values.is_some());
    assert!(priority.default.is_some());
}

#[test]
fn test_afd_schema_empty_parameters() {
    let mut registry = CommandRegistry::new();
    let cmd = CommandDefinition::new("todo-list", "List all todos", vec![], TestHandler);
    registry.register(cmd).unwrap();
    let output = build_schema_output(&registry.list(), &SchemaInput::default());
    let mcp = output.schemas[0].mcp_tool.as_ref().unwrap();
    assert!(mcp.input_schema.properties.is_empty());
    assert!(mcp.input_schema.required.is_empty());
}
