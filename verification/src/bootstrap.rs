//! What the commands that describe a registry work out: listings, documents
//! and schemas of the commands held.

use vstd::prelude::*;
use std::sync::Arc;
use crate::commands::command_to_mcp_tool;
use crate::commands::pointed;
use crate::commands::stands_for;
use crate::commands::select;
use crate::commands::CommandDefinition;
use crate::commands::CommandParameter;
use crate::commands::JsonSchemaType;
use crate::commands::McpTool;
use crate::pipeline::text;
use crate::text::chars_lt;
use crate::text::chars_of;
use crate::text::concat2;
use crate::text::concat3;
use crate::text::contains;
use crate::text::decimal;
use crate::text::decimal_string;
use crate::text::has_substring;
use crate::text::join;
use crate::text::lemma_text_lt_total;
use crate::text::lemma_text_lt_transitive;
use crate::text::joined;
use crate::text::lowercase;
use crate::text::push_line;
use crate::text::str_eq;
use crate::text::text_lt;
use crate::text::to_lowercase;
use crate::text::to_uppercase;
use crate::text::uppercase;

verus! {

/// The category of the commands that describe a registry.
pub const BOOTSTRAP_CATEGORY: &'static str = "bootstrap";

/// The tags of the commands that describe a registry.
pub fn bootstrap_tags() -> (r: Vec<String>)
    ensures
        r.deep_view() == seq!["bootstrap"@, "read"@, "safe"@],
{
    let mut tags: Vec<String> = Vec::new();
    push_line(&mut tags, String::from_str("bootstrap"));
    push_line(&mut tags, String::from_str("read"));
    push_line(&mut tags, String::from_str("safe"));
    proof {
        assert(tags.deep_view() =~= seq!["bootstrap"@, "read"@, "safe"@]);
    }
    tags
}

/// What the listing of commands is asked for.
#[derive(Debug, Clone)]
pub struct HelpInput {
    /// Text that the name, the category or a tag of a command must hold.
    pub filter: Option<String>,
    /// `brief` or `full`.
    pub format: String,
}

/// The format of a listing that asks for none.
pub fn default_format() -> (r: String)
    ensures
        r@ == "brief"@,
{
    String::from_str("brief")
}

impl Default for HelpInput {
    fn default() -> (r: HelpInput)
        ensures
            r.filter is None,
            r.format@ == "brief"@,
    {
        HelpInput { filter: None, format: default_format() }
    }
}

/// A command in a listing.
#[derive(Debug, Clone)]
pub struct CommandInfo {
    pub name: String,
    pub description: String,
    pub category: Option<String>,
    pub tags: Option<Vec<String>>,
    pub mutation: Option<bool>,
}

/// The commands of one category in a listing.
#[derive(Debug, Clone)]
pub struct CategoryGroup {
    pub category: String,
    pub commands: Vec<CommandInfo>,
}

/// A listing of commands.
#[derive(Debug, Clone)]
pub struct HelpOutput {
    /// The commands, in the order of the registry.
    pub commands: Vec<CommandInfo>,
    /// How many there are.
    pub total: usize,
    /// Whether a filter was applied.
    pub filtered: bool,
    /// The same commands by category, the categories in the order in which
    /// they first occur.
    pub grouped_by_category: Vec<CategoryGroup>,
}

/// What the documents are asked for.
#[derive(Debug, Clone)]
pub struct DocsInput {
    /// The one command to document; all where none is named.
    pub command: Option<String>,
}

impl Default for DocsInput {
    fn default() -> (r: DocsInput)
        ensures
            r.command is None,
    {
        DocsInput { command: None }
    }
}

/// The documents of commands.
#[derive(Debug, Clone)]
pub struct DocsOutput {
    pub markdown: String,
    pub command_count: usize,
}

/// The forms in which schemas are given.
#[derive(Debug, Clone, Copy, PartialEq, Eq, Structural)]
pub enum SchemaFormat {
    Json,
    Typescript,
}

impl Default for SchemaFormat {
    fn default() -> (r: SchemaFormat)
        ensures
            r == SchemaFormat::Json,
    {
        SchemaFormat::Json
    }
}

/// What the schemas are asked for.
#[derive(Debug, Clone)]
pub struct SchemaInput {
    /// The one command to describe; all where none is named.
    pub command: Option<String>,
    /// The form of the schemas.
    pub format: SchemaFormat,
}

impl Default for SchemaInput {
    fn default() -> (r: SchemaInput)
        ensures
            r.command is None,
            r.format == SchemaFormat::Json,
    {
        SchemaInput { command: None, format: SchemaFormat::Json }
    }
}

/// The schema of one command.
#[derive(Debug, Clone)]
pub struct SchemaInfo {
    pub name: String,
    pub description: String,
    pub mcp_tool: Option<McpTool>,
    pub typescript: Option<String>,
}

/// The schemas of commands.
#[derive(Debug, Clone)]
pub struct SchemaOutput {
    pub schemas: Vec<SchemaInfo>,
    pub total: usize,
    pub format: SchemaFormat,
}

/// The character parts the words of a name.
pub open spec fn is_separator(c: char) -> bool {
    c == '-' || c == '_' || c == '.'
}

/// A name in Pascal case: the separators are dropped and the first
/// character of each word is put in upper case. `at_start` says that the
/// next character begins a word.
pub open spec fn pascal(s: Seq<char>, at_start: bool) -> Seq<char>
    decreases s.len(),
{
    if s.len() == 0 {
        Seq::empty()
    } else if is_separator(s[0]) {
        pascal(s.drop_first(), true)
    } else if at_start {
        uppercase(s[0]) + pascal(s.drop_first(), false)
    } else {
        seq![s[0]] + pascal(s.drop_first(), false)
    }
}

/// A name in Pascal case: `todo-create` gives `TodoCreate`.
pub fn to_pascal_case(s: &str) -> (r: String)
    ensures
        r@ == pascal(s@, true),
{
    let chars = chars_of(s);
    let n = chars.len();
    let mut out = String::new();
    let mut at_start = true;
    let mut i: usize = 0;
    proof {
        assert(s@.skip(0) =~= s@);
    }
    while i < n
        invariant
            i <= n,
            n == chars.len(),
            chars@ == s@,
            pascal(s@, true) == out@ + pascal(s@.skip(i as int), at_start),
        decreases n - i,
    {
        let c = chars[i];
        let ghost rest = s@.skip(i as int);
        proof {
            assert(rest[0] == c);
            assert(rest.drop_first() =~= s@.skip(i + 1));
        }
        if c == '-' || c == '_' || c == '.' {
            at_start = true;
        } else if at_start {
            let upper = to_uppercase(c);
            proof {
                assert(out@ + (uppercase(c) + pascal(s@.skip(i + 1), false)) =~= (out@ + uppercase(
                    c,
                )) + pascal(s@.skip(i + 1), false));
            }
            out.append(upper.as_str());
            at_start = false;
        } else {
            let one = s.substring_char(i, i + 1);
            proof {
                assert(one@ =~= seq![c]);
                assert(out@ + (seq![c] + pascal(s@.skip(i + 1), false)) =~= (out@ + seq![c])
                    + pascal(s@.skip(i + 1), false));
            }
            out.append(one);
        }
        i += 1;
    }
    proof {
        assert(s@.skip(n as int) =~= Seq::<char>::empty());
        assert(out@ + Seq::<char>::empty() =~= out@);
    }
    out
}

/// The name of a schema type, as documents write it.
pub open spec fn schema_type_name(t: JsonSchemaType) -> Seq<char> {
    match t {
        JsonSchemaType::String => "string"@,
        JsonSchemaType::Number => "number"@,
        JsonSchemaType::Boolean => "boolean"@,
        JsonSchemaType::Object => "object"@,
        JsonSchemaType::Array => "array"@,
        JsonSchemaType::Null => "null"@,
        JsonSchemaType::Integer => "integer"@,
    }
}

/// The TypeScript type that stands for a schema type.
pub open spec fn typescript_name(t: JsonSchemaType) -> Seq<char> {
    match t {
        JsonSchemaType::String => "string"@,
        JsonSchemaType::Number => "number"@,
        JsonSchemaType::Integer => "number"@,
        JsonSchemaType::Boolean => "boolean"@,
        JsonSchemaType::Array => "unknown[]"@,
        JsonSchemaType::Object => "Record<string, unknown>"@,
        JsonSchemaType::Null => "null"@,
    }
}

fn schema_type_str(t: JsonSchemaType) -> (r: &'static str)
    ensures
        r@ == schema_type_name(t),
{
    match t {
        JsonSchemaType::String => "string",
        JsonSchemaType::Number => "number",
        JsonSchemaType::Boolean => "boolean",
        JsonSchemaType::Object => "object",
        JsonSchemaType::Array => "array",
        JsonSchemaType::Null => "null",
        JsonSchemaType::Integer => "integer",
    }
}

fn typescript_str(t: JsonSchemaType) -> (r: &'static str)
    ensures
        r@ == typescript_name(t),
{
    match t {
        JsonSchemaType::String => "string",
        JsonSchemaType::Number => "number",
        JsonSchemaType::Integer => "number",
        JsonSchemaType::Boolean => "boolean",
        JsonSchemaType::Array => "unknown[]",
        JsonSchemaType::Object => "Record<string, unknown>",
        JsonSchemaType::Null => "null",
    }
}

/// The line that declares a parameter in a TypeScript interface.
pub open spec fn typescript_field(p: CommandParameter) -> Seq<char> {
    "  "@ + p.name@ + if p.required {
        ""@
    } else {
        "?"@
    } + ": "@ + typescript_name(p.param_type) + ";"@
}

/// The lines of the TypeScript interface of a command's input.
pub open spec fn typescript_lines<H>(command: CommandDefinition<H>) -> Seq<Seq<char>> {
    seq!["// "@ + command.description@, "interface "@ + pascal(command.name@, true) + "Input {"@]
        + Seq::new(
        command.parameters@.len(),
        |i: int| typescript_field(command.parameters@[i]),
    ) + seq!["}"@]
}

/// The TypeScript interface of a command's input: a comment with the
/// description, then one field for each parameter.
pub fn generate_typescript_type<H>(command: &CommandDefinition<H>) -> (r: String)
    ensures
        r@ == joined(typescript_lines(*command), "\n"@),
{
    let mut lines: Vec<String> = Vec::new();
    proof {
        assert(lines.deep_view() =~= Seq::<Seq<char>>::empty());
    }
    push_line(&mut lines, concat2("// ", command.description.as_str()));
    let name = to_pascal_case(command.name.as_str());
    push_line(&mut lines, concat3("interface ", name.as_str(), "Input {"));
    let ghost head = lines.deep_view();
    let ghost fields = Seq::new(
        command.parameters@.len(),
        |i: int| typescript_field(command.parameters@[i]),
    );
    let mut i: usize = 0;
    proof {
        assert(head =~= seq![
            "// "@ + command.description@,
            "interface "@ + pascal(command.name@, true) + "Input {"@,
        ]);
        assert(lines.deep_view() =~= head + fields.take(0));
    }
    while i < command.parameters.len()
        invariant
            i <= command.parameters.len(),
            fields == Seq::new(
                command.parameters@.len(),
                |i: int| typescript_field(command.parameters@[i]),
            ),
            lines.deep_view() == head + fields.take(i as int),
        decreases command.parameters.len() - i,
    {
        let p = &command.parameters[i];
        let optional = if p.required {
            ""
        } else {
            "?"
        };
        let mut line = concat3("  ", p.name.as_str(), optional);
        line.append(": ");
        line.append(typescript_str(p.param_type));
        line.append(";");
        proof {
            assert(line@ == fields[i as int]);
            assert(fields.take(i + 1) =~= fields.take(i as int).push(fields[i as int]));
            assert((head + fields.take(i as int)).push(line@) =~= head + fields.take(i + 1));
        }
        push_line(&mut lines, line);
        i += 1;
    }
    proof {
        assert(fields.take(command.parameters.len() as int) =~= fields);
    }
    push_line(&mut lines, String::from_str("}"));
    proof {
        assert(lines.deep_view() =~= typescript_lines(*command));
    }
    join(&lines, "\n")
}

/// The tags of a command between backticks.
pub open spec fn tag_marks(tags: Seq<String>) -> Seq<Seq<char>> {
    Seq::new(tags.len(), |i: int| "`"@ + tags[i]@ + "`"@)
}

/// The row of a parameter in the table of a command's document.
pub open spec fn parameter_row(p: CommandParameter) -> Seq<char> {
    "| "@ + p.name@ + " | "@ + schema_type_name(p.param_type) + " | "@ + if p.required {
        "Yes"@
    } else {
        "No"@
    } + " | "@ + p.description@ + " |"@
}

/// The lines about the tags of a command: none where it has no tags.
pub open spec fn tag_lines<H>(command: CommandDefinition<H>) -> Seq<Seq<char>> {
    match command.tags {
        Some(tags) => if tags@.len() > 0 {
            seq!["**Tags:** "@ + joined(tag_marks(tags@), ", "@), ""@]
        } else {
            Seq::empty()
        },
        None => Seq::empty(),
    }
}

/// The lines about the parameters of a command: a table, or none where it
/// has no parameters.
pub open spec fn parameter_lines<H>(command: CommandDefinition<H>) -> Seq<Seq<char>> {
    if command.parameters@.len() > 0 {
        seq![
            "**Parameters:**"@,
            ""@,
            "| Name | Type | Required | Description |"@,
            "|------|------|----------|-------------|"@,
        ] + Seq::new(command.parameters@.len(), |i: int| parameter_row(command.parameters@[i]))
            + seq![""@]
    } else {
        Seq::empty()
    }
}

/// The lines of the document of a command.
pub open spec fn document_lines<H>(command: CommandDefinition<H>) -> Seq<Seq<char>> {
    seq!["### `"@ + command.name@ + "`"@, ""@, command.description@, ""@] + tag_lines(command)
        + seq![
        "**Mutation:** "@ + if command.mutation {
            "Yes"@
        } else {
            "No (read-only)"@
        },
        ""@,
    ] + parameter_lines(command) + seq!["---"@, ""@]
}

/// The document of a command in Markdown: its name, its description, its
/// tags, whether it changes anything, and a table of its parameters.
pub fn generate_command_docs<H>(command: &CommandDefinition<H>) -> (r: String)
    ensures
        r@ == joined(document_lines(*command), "\n"@),
{
    let mut lines: Vec<String> = Vec::new();
    proof {
        assert(lines.deep_view() =~= Seq::<Seq<char>>::empty());
    }
    push_line(&mut lines, concat3("### `", command.name.as_str(), "`"));
    push_line(&mut lines, String::new());
    push_line(&mut lines, command.description.clone());
    push_line(&mut lines, String::new());
    proof {
        reveal_strlit("");
        assert(""@ =~= Seq::<char>::empty());
        assert(lines.deep_view() =~= seq![
            "### `"@ + command.name@ + "`"@,
            ""@,
            command.description@,
            ""@,
        ]);
    }
    let ghost head = lines.deep_view();
    match &command.tags {
        Some(tags) => {
            if tags.len() > 0 {
                let mut marks: Vec<String> = Vec::new();
                let mut k: usize = 0;
                proof {
                    assert(marks.deep_view() =~= tag_marks(tags@).take(0));
                }
                while k < tags.len()
                    invariant
                        k <= tags.len(),
                        marks.deep_view() == tag_marks(tags@).take(k as int),
                    decreases tags.len() - k,
                {
                    let mark = concat3("`", tags[k].as_str(), "`");
                    proof {
                        assert(tag_marks(tags@).take(k + 1) =~= tag_marks(tags@).take(
                            k as int,
                        ).push(mark@));
                    }
                    push_line(&mut marks, mark);
                    k += 1;
                }
                proof {
                    assert(tag_marks(tags@).take(tags.len() as int) =~= tag_marks(tags@));
                }
                let list = join(&marks, ", ");
                push_line(&mut lines, concat2("**Tags:** ", list.as_str()));
                push_line(&mut lines, String::new());
            }
        },
        None => {},
    }
    proof {
        assert(lines.deep_view() =~= head + tag_lines(*command));
    }
    let mutation = if command.mutation {
        "Yes"
    } else {
        "No (read-only)"
    };
    push_line(&mut lines, concat2("**Mutation:** ", mutation));
    push_line(&mut lines, String::new());
    let ghost middle = lines.deep_view();
    if command.parameters.len() > 0 {
        push_line(&mut lines, String::from_str("**Parameters:**"));
        push_line(&mut lines, String::new());
        push_line(&mut lines, String::from_str("| Name | Type | Required | Description |"));
        push_line(&mut lines, String::from_str("|------|------|----------|-------------|"));
        let ghost table = lines.deep_view();
        let ghost rows = Seq::new(
            command.parameters@.len(),
            |i: int| parameter_row(command.parameters@[i]),
        );
        let mut i: usize = 0;
        proof {
            assert(lines.deep_view() =~= table + rows.take(0));
        }
        while i < command.parameters.len()
            invariant
                i <= command.parameters.len(),
                rows == Seq::new(
                    command.parameters@.len(),
                    |i: int| parameter_row(command.parameters@[i]),
                ),
                lines.deep_view() == table + rows.take(i as int),
            decreases command.parameters.len() - i,
        {
            let p = &command.parameters[i];
            let required = if p.required {
                "Yes"
            } else {
                "No"
            };
            let mut row = concat3("| ", p.name.as_str(), " | ");
            row.append(schema_type_str(p.param_type));
            row.append(" | ");
            row.append(required);
            row.append(" | ");
            row.append(p.description.as_str());
            row.append(" |");
            proof {
                assert(row@ == rows[i as int]);
                assert(rows.take(i + 1) =~= rows.take(i as int).push(rows[i as int]));
                assert((table + rows.take(i as int)).push(row@) =~= table + rows.take(i + 1));
            }
            push_line(&mut lines, row);
            i += 1;
        }
        proof {
            assert(rows.take(command.parameters.len() as int) =~= rows);
        }
        push_line(&mut lines, String::new());
        proof {
            assert(lines.deep_view() =~= middle + parameter_lines(*command));
        }
    }
    proof {
        assert(lines.deep_view() =~= middle + parameter_lines(*command));
    }
    push_line(&mut lines, String::from_str("---"));
    push_line(&mut lines, String::new());
    proof {
        assert(lines.deep_view() =~= document_lines(*command));
    }
    join(&lines, "\n")
}

/// The command passes a filter: the filter, in lower case, occurs in the
/// lower case of a tag, of the category or of the name of the command.
pub open spec fn passes_filter<H>(command: CommandDefinition<H>, filter: Seq<char>) -> bool {
    ||| (command.tags matches Some(tags) && exists|i: int|
        0 <= i < tags@.len() && contains(lowercase((#[trigger] tags@[i])@), filter))
    ||| (command.category matches Some(c) && contains(lowercase(c@), filter))
    ||| contains(lowercase(command.name@), filter)
}

fn lower_holds(text: &str, filter: &Vec<char>) -> (r: bool)
    ensures
        r == contains(lowercase(text@), filter@),
{
    let lower = to_lowercase(text);
    let chars = chars_of(lower.as_str());
    has_substring(&chars, filter)
}

/// Whether a command passes a filter that is in lower case already.
pub fn command_passes_filter<H>(command: &CommandDefinition<H>, filter: &str) -> (r: bool)
    ensures
        r == passes_filter(*command, filter@),
{
    let wanted = chars_of(filter);
    let mut tagged = false;
    match &command.tags {
        Some(tags) => {
            let mut i: usize = 0;
            while i < tags.len()
                invariant
                    i <= tags.len(),
                    wanted@ == filter@,
                    tagged == exists|j: int|
                        0 <= j < i && contains(lowercase((#[trigger] tags@[j])@), filter@),
                decreases tags.len() - i,
            {
                if lower_holds(tags[i].as_str(), &wanted) {
                    tagged = true;
                }
                i += 1;
            }
        },
        None => {},
    }
    let in_category = match &command.category {
        Some(c) => lower_holds(c.as_str(), &wanted),
        None => false,
    };
    tagged || in_category || lower_holds(command.name.as_str(), &wanted)
}

/// What a listing says of a command.
pub struct InfoView {
    pub name: Seq<char>,
    pub description: Seq<char>,
    pub category: Option<Seq<char>>,
    pub tags: Option<Seq<Seq<char>>>,
    pub mutation: Option<bool>,
}

impl DeepView for CommandInfo {
    type V = InfoView;

    open spec fn deep_view(&self) -> InfoView {
        InfoView {
            name: self.name@,
            description: self.description@,
            category: text(self.category),
            tags: match self.tags {
                Some(t) => Some(t.deep_view()),
                None => None,
            },
            mutation: self.mutation,
        }
    }
}

/// What a listing says of a command: its name and description, and in full
/// also its category, its tags and whether it changes anything.
pub open spec fn info_of<H>(command: CommandDefinition<H>, full: bool) -> InfoView {
    InfoView {
        name: command.name@,
        description: command.description@,
        category: if full {
            text(command.category)
        } else {
            None
        },
        tags: if full {
            match command.tags {
                Some(t) => Some(t.deep_view()),
                None => None,
            }
        } else {
            None
        },
        mutation: if full {
            Some(command.mutation)
        } else {
            None
        },
    }
}

/// The entry of a command in a listing.
pub fn command_info<H>(command: &CommandDefinition<H>, full: bool) -> (r: CommandInfo)
    ensures
        r.deep_view() == info_of(*command, full),
{
    let tags = if full {
        match &command.tags {
            Some(t) => {
                let mut out: Vec<String> = Vec::new();
                let mut i: usize = 0;
                proof {
                    assert(out.deep_view() =~= t.deep_view().take(0));
                }
                while i < t.len()
                    invariant
                        i <= t.len(),
                        out.deep_view() == t.deep_view().take(i as int),
                    decreases t.len() - i,
                {
                    let tag = t[i].clone();
                    proof {
                        assert(t.deep_view().take(i + 1) =~= t.deep_view().take(i as int).push(
                            tag@,
                        ));
                    }
                    push_line(&mut out, tag);
                    i += 1;
                }
                proof {
                    assert(t.deep_view().take(t.len() as int) =~= t.deep_view());
                }
                Some(out)
            },
            None => None,
        }
    } else {
        None
    };
    CommandInfo {
        name: command.name.clone(),
        description: command.description.clone(),
        category: if full {
            command.category.clone()
        } else {
            None
        },
        tags,
        mutation: if full {
            Some(command.mutation)
        } else {
            None
        },
    }
}

/// The category under which a listing puts a command.
pub open spec fn listed_category<H>(command: CommandDefinition<H>) -> Seq<char> {
    match command.category {
        Some(c) => c@,
        None => "uncategorized"@,
    }
}

/// The commands of one category in a listing, as plain values.
pub struct GroupView {
    pub category: Seq<char>,
    pub commands: Seq<InfoView>,
}

impl DeepView for CategoryGroup {
    type V = GroupView;

    open spec fn deep_view(&self) -> GroupView {
        GroupView { category: self.category@, commands: self.commands.deep_view() }
    }
}

/// The place of the group of a category.
pub open spec fn group_place(groups: Seq<GroupView>, category: Seq<char>) -> Option<int> {
    if exists|i: int| 0 <= i < groups.len() && (#[trigger] groups[i]).category == category {
        Some(
            choose|i: int|
                0 <= i < groups.len() && (#[trigger] groups[i]).category == category && forall|
                    j: int,
                |
                    0 <= j < i ==> (#[trigger] groups[j]).category != category,
        )
    } else {
        None
    }
}

/// The groups with one more command: it joins the group of its category,
/// or opens a new group after the others.
pub open spec fn group_add(groups: Seq<GroupView>, category: Seq<char>, info: InfoView) -> Seq<
    GroupView,
> {
    match group_place(groups, category) {
        Some(i) => groups.update(
            i,
            GroupView { category: groups[i].category, commands: groups[i].commands.push(info) },
        ),
        None => groups.push(GroupView { category, commands: seq![info] }),
    }
}

/// The commands that pass, by category.
pub open spec fn grouped<H>(
    commands: Seq<CommandDefinition<H>>,
    keep: spec_fn(CommandDefinition<H>) -> bool,
    full: bool,
) -> Seq<GroupView>
    decreases commands.len(),
{
    if commands.len() == 0 {
        Seq::empty()
    } else if keep(commands.last()) {
        group_add(
            grouped(commands.drop_last(), keep, full),
            listed_category(commands.last()),
            info_of(commands.last(), full),
        )
    } else {
        grouped(commands.drop_last(), keep, full)
    }
}

/// The commands that pass, as a listing says them.
pub open spec fn listed<H>(
    commands: Seq<CommandDefinition<H>>,
    keep: spec_fn(CommandDefinition<H>) -> bool,
    full: bool,
) -> Seq<InfoView>
    decreases commands.len(),
{
    if commands.len() == 0 {
        Seq::empty()
    } else if keep(commands.last()) {
        listed(commands.drop_last(), keep, full).push(info_of(commands.last(), full))
    } else {
        listed(commands.drop_last(), keep, full)
    }
}

/// The commands that a listing keeps: those that pass its filter, in lower
/// case, or all where it has none.
pub open spec fn kept_by<H>(filter: Option<String>) -> spec_fn(CommandDefinition<H>) -> bool {
    |c: CommandDefinition<H>|
        match filter {
            Some(f) => passes_filter(c, lowercase(f@)),
            None => true,
        }
}

fn add_to_groups(groups: &mut Vec<CategoryGroup>, category: String, info: CommandInfo)
    ensures
        final(groups).deep_view() == group_add(
            old(groups).deep_view(),
            category@,
            info.deep_view(),
        ),
{
    let ghost before = groups.deep_view();
    let mut i: usize = 0;
    while i < groups.len()
        invariant
            i <= groups.len(),
            groups.deep_view() == before,
            before == old(groups).deep_view(),
            forall|j: int| 0 <= j < i ==> (#[trigger] before[j]).category != category@,
        decreases groups.len() - i,
    {
        if str_eq(groups[i].category.as_str(), category.as_str()) {
            proof {
                assert(before[i as int].category == category@);
                let c = choose|c: int|
                    0 <= c < before.len() && (#[trigger] before[c]).category == category@
                        && forall|j: int| 0 <= j < c ==> (#[trigger] before[j]).category
                        != category@;
                if c < i {
                    assert(before[c].category != category@);
                } else if i < c {
                    assert(before[i as int].category != category@);
                }
            }
            let ghost held = groups@[i as int].commands.deep_view();
            let ghost all = groups@;
            groups[i].commands.push(info);
            proof {
                assert(groups@[i as int].commands.deep_view() =~= held.push(info.deep_view()));
                assert(groups@.len() == all.len());
                assert(forall|k: int| 0 <= k < all.len() && k != i ==> groups@[k] == all[k]);
                assert(groups@[i as int].category == all[i as int].category);
                assert(groups.deep_view() =~= group_add(before, category@, info.deep_view()));
            }
            return ;
        }
        i += 1;
    }
    let mut commands: Vec<CommandInfo> = Vec::new();
    commands.push(info);
    proof {
        assert(commands.deep_view() =~= seq![info.deep_view()]);
    }
    groups.push(CategoryGroup { category, commands });
    proof {
        assert(groups.deep_view() =~= group_add(before, category@, info.deep_view()));
    }
}

/// The listing of the commands that pass the filter of `input`, each as a
/// brief or a full entry, as a list and by category.
pub fn build_help_output<H>(commands: &Vec<Arc<CommandDefinition<H>>>, input: &HelpInput) -> (r:
    HelpOutput)
    ensures
        r.commands.deep_view() == listed(
            pointed(commands@),
            kept_by(input.filter),
            input.format@ == "full"@,
        ),
        r.total == r.commands@.len(),
        r.filtered == input.filter is Some,
        r.grouped_by_category.deep_view() == grouped(
            pointed(commands@),
            kept_by(input.filter),
            input.format@ == "full"@,
        ),
{
    let ghost all = pointed(commands@);
    let ghost keep = kept_by::<H>(input.filter);
    let full = str_eq(input.format.as_str(), "full");
    let lower = match &input.filter {
        Some(f) => Some(to_lowercase(f.as_str())),
        None => None,
    };
    let mut infos: Vec<CommandInfo> = Vec::new();
    let mut groups: Vec<CategoryGroup> = Vec::new();
    let mut i: usize = 0;
    proof {
        assert(all.take(0) =~= Seq::<CommandDefinition<H>>::empty());
        assert(infos.deep_view() =~= listed(all.take(0), keep, full));
        assert(groups.deep_view() =~= grouped(all.take(0), keep, full));
    }
    while i < commands.len()
        invariant
            i <= commands.len(),
            all == pointed(commands@),
            keep == kept_by::<H>(input.filter),
            lower is Some <==> input.filter is Some,
            lower matches Some(l) ==> l@ == lowercase(input.filter->0@),
            infos.deep_view() == listed(all.take(i as int), keep, full),
            groups.deep_view() == grouped(all.take(i as int), keep, full),
        decreases commands.len() - i,
    {
        let command: &CommandDefinition<H> = &commands[i];
        proof {
            assert(all.take(i + 1).drop_last() =~= all.take(i as int));
            assert(all.take(i + 1).last() == all[i as int]);
            assert(all[i as int] == *command);
        }
        let passes = match &lower {
            Some(l) => command_passes_filter(command, l.as_str()),
            None => true,
        };
        if passes {
            let category = match &command.category {
                Some(c) => c.clone(),
                None => String::from_str("uncategorized"),
            };
            let ghost before = infos.deep_view();
            add_to_groups(&mut groups, category, command_info(command, full));
            infos.push(command_info(command, full));
            proof {
                assert(infos.deep_view() =~= before.push(info_of(*command, full)));
            }
        }
        i += 1;
    }
    proof {
        assert(all.take(commands.len() as int) =~= all);
    }
    let total = infos.len();
    HelpOutput {
        commands: infos,
        total,
        filtered: input.filter.is_some(),
        grouped_by_category: groups,
    }
}

/// What a listing says of itself.
pub fn help_reasoning(total: usize, filter: &Option<String>) -> (r: String)
    ensures
        r@ == match filter {
            Some(f) => "Found "@ + decimal(total as nat) + " commands matching \""@ + f@ + "\""@,
            None => "Listing all "@ + decimal(total as nat) + " available commands"@,
        },
{
    let count = decimal_string(total as u64);
    match filter {
        Some(f) => {
            let mut r = concat3("Found ", count.as_str(), " commands matching \"");
            r.append(f.as_str());
            r.append("\"");
            r
        },
        None => concat3("Listing all ", count.as_str(), " available commands"),
    }
}

/// The commands that an input names: the one of that name, or all where
/// it names none.
pub open spec fn named_by<H>(name: Option<String>) -> spec_fn(CommandDefinition<H>) -> bool {
    |c: CommandDefinition<H>|
        match name {
            Some(n) => c.name@ == n@,
            None => true,
        }
}

fn is_named<H>(command: &CommandDefinition<H>, name: &Option<String>) -> (r: bool)
    ensures
        r == named_by::<H>(*name)(*command),
{
    match name {
        Some(n) => str_eq(command.name.as_str(), n.as_str()),
        None => true,
    }
}

/// The commands of one category in the documents.
pub struct DocSection<H> {
    pub category: String,
    pub commands: Vec<Arc<CommandDefinition<H>>>,
}

/// The commands of one category in the documents, as plain values.
pub struct SectionView<H> {
    pub category: Seq<char>,
    pub commands: Seq<CommandDefinition<H>>,
}

/// Sections as plain values.
pub open spec fn sections_view<H>(sections: Seq<DocSection<H>>) -> Seq<SectionView<H>> {
    Seq::new(
        sections.len(),
        |i: int|
            SectionView { category: sections[i].category@, commands: pointed(sections[i].commands@) },
    )
}

/// The category under which the documents put a command.
pub open spec fn docs_category<H>(command: CommandDefinition<H>) -> Seq<char> {
    match command.category {
        Some(c) => c@,
        None => "General"@,
    }
}

/// How many sections at the start have a category before `category`.
pub open spec fn section_rank<H>(sections: Seq<SectionView<H>>, category: Seq<char>) -> int
    decreases sections.len(),
{
    if sections.len() == 0 {
        0
    } else if text_lt(sections[0].category, category) {
        1 + section_rank(sections.drop_first(), category)
    } else {
        0
    }
}

/// How many commands at the start have a name that is not after `name`.
pub open spec fn name_rank<H>(commands: Seq<CommandDefinition<H>>, name: Seq<char>) -> int
    decreases commands.len(),
{
    if commands.len() == 0 {
        0
    } else if !text_lt(name, commands[0].name@) {
        1 + name_rank(commands.drop_first(), name)
    } else {
        0
    }
}

/// The sections with one more command. It goes to the section of its
/// category, behind the commands whose names are not after its own; where
/// there is no such section, one is opened behind the sections whose
/// categories are before its own.
pub open spec fn filed<H>(sections: Seq<SectionView<H>>, command: CommandDefinition<H>) -> Seq<
    SectionView<H>,
> {
    let category = docs_category(command);
    let i = section_rank(sections, category);
    if i < sections.len() && sections[i].category == category {
        sections.update(
            i,
            SectionView {
                category,
                commands: sections[i].commands.insert(
                    name_rank(sections[i].commands, command.name@),
                    command,
                ),
            },
        )
    } else {
        sections.insert(i, SectionView { category, commands: seq![command] })
    }
}

/// The commands in sections: the sections in the order of their
/// categories, the commands of each in the order of their names.
pub open spec fn sectioned<H>(commands: Seq<CommandDefinition<H>>) -> Seq<SectionView<H>>
    decreases commands.len(),
{
    if commands.len() == 0 {
        Seq::empty()
    } else {
        filed(sectioned(commands.drop_last()), commands.last())
    }
}

/// The rank of a category is the place before which all categories are
/// before it and at which the category is not.
pub proof fn lemma_section_rank<H>(sections: Seq<SectionView<H>>, category: Seq<char>, i: int)
    requires
        0 <= i <= sections.len(),
        forall|j: int| 0 <= j < i ==> text_lt((#[trigger] sections[j]).category, category),
        i < sections.len() ==> !text_lt(sections[i].category, category),
    ensures
        section_rank(sections, category) == i,
    decreases sections.len(),
{
    if i > 0 {
        assert(text_lt(sections[0].category, category));
        let rest = sections.drop_first();
        assert forall|j: int| 0 <= j < i - 1 implies text_lt(
            (#[trigger] rest[j]).category,
            category,
        ) by {
            assert(rest[j] == sections[j + 1]);
        }
        lemma_section_rank(rest, category, i - 1);
    }
}

/// The rank of a name is the place before which no name is after it and at
/// which the name is.
pub proof fn lemma_name_rank<H>(commands: Seq<CommandDefinition<H>>, name: Seq<char>, i: int)
    requires
        0 <= i <= commands.len(),
        forall|j: int| 0 <= j < i ==> !text_lt(name, (#[trigger] commands[j]).name@),
        i < commands.len() ==> text_lt(name, commands[i].name@),
    ensures
        name_rank(commands, name) == i,
    decreases commands.len(),
{
    if i > 0 {
        assert(!text_lt(name, commands[0].name@));
        let rest = commands.drop_first();
        assert forall|j: int| 0 <= j < i - 1 implies !text_lt(name, (#[trigger] rest[j]).name@) by {
            assert(rest[j] == commands[j + 1]);
        }
        lemma_name_rank(rest, name, i - 1);
    }
}

/// What the rank of a category says: the categories before that place are
/// before it, and the one at that place is not.
pub proof fn lemma_section_rank_bounds<H>(sections: Seq<SectionView<H>>, category: Seq<char>)
    ensures
        0 <= section_rank(sections, category) <= sections.len(),
        forall|j: int|
            0 <= j < section_rank(sections, category) ==> text_lt(
                (#[trigger] sections[j]).category,
                category,
            ),
        section_rank(sections, category) < sections.len() ==> !text_lt(
            sections[section_rank(sections, category)].category,
            category,
        ),
    decreases sections.len(),
{
    if sections.len() > 0 && text_lt(sections[0].category, category) {
        let rest = sections.drop_first();
        lemma_section_rank_bounds(rest, category);
        let r = section_rank(rest, category);
        assert forall|j: int| 0 <= j < r + 1 implies text_lt(
            (#[trigger] sections[j]).category,
            category,
        ) by {
            if j > 0 {
                assert(rest[j - 1] == sections[j]);
            }
        }
        if r < rest.len() {
            assert(rest[r] == sections[r + 1]);
        }
    }
}

/// What the rank of a name says: the names before that place are not after
/// it, and the one at that place is.
pub proof fn lemma_name_rank_bounds<H>(commands: Seq<CommandDefinition<H>>, name: Seq<char>)
    ensures
        0 <= name_rank(commands, name) <= commands.len(),
        forall|j: int|
            0 <= j < name_rank(commands, name) ==> !text_lt(name, (#[trigger] commands[j]).name@),
        name_rank(commands, name) < commands.len() ==> text_lt(
            name,
            commands[name_rank(commands, name)].name@,
        ),
    decreases commands.len(),
{
    if commands.len() > 0 && !text_lt(name, commands[0].name@) {
        let rest = commands.drop_first();
        lemma_name_rank_bounds(rest, name);
        let r = name_rank(rest, name);
        assert forall|j: int| 0 <= j < r + 1 implies !text_lt(
            name,
            (#[trigger] commands[j]).name@,
        ) by {
            if j > 0 {
                assert(rest[j - 1] == commands[j]);
            }
        }
        if r < rest.len() {
            assert(rest[r] == commands[r + 1]);
        }
    }
}

/// The sections are in order: their categories ascend, none is empty, each
/// holds commands of its own category only, and the names within each do
/// not descend.
pub open spec fn in_order<H>(sections: Seq<SectionView<H>>) -> bool {
    &&& forall|i: int, j: int|
        0 <= i < j < sections.len() ==> text_lt(
            (#[trigger] sections[i]).category,
            (#[trigger] sections[j]).category,
        )
    &&& forall|i: int| 0 <= i < sections.len() ==> (#[trigger] sections[i]).commands.len() > 0
    &&& forall|i: int, k: int|
        0 <= i < sections.len() && 0 <= k < sections[i].commands.len() ==> docs_category(
            #[trigger] sections[i].commands[k],
        ) == sections[i].category
    &&& forall|i: int, k: int, l: int|
        0 <= i < sections.len() && 0 <= k < l < sections[i].commands.len() ==> !text_lt(
            (#[trigger] sections[i].commands[l]).name@,
            (#[trigger] sections[i].commands[k]).name@,
        )
}

/// Filing a command keeps the sections in order.
pub proof fn lemma_filed_in_order<H>(sections: Seq<SectionView<H>>, command: CommandDefinition<H>)
    requires
        in_order(sections),
    ensures
        in_order(filed(sections, command)),
{
    let category = docs_category(command);
    let i = section_rank(sections, category);
    lemma_section_rank_bounds(sections, category);
    let after = filed(sections, command);
    if i < sections.len() && sections[i].category == category {
        let held = sections[i].commands;
        let k = name_rank(held, command.name@);
        lemma_name_rank_bounds(held, command.name@);
        let grown = held.insert(k, command);
        assert(after[i].commands == grown);
        assert forall|a: int, b: int| 0 <= a < b < after.len() implies text_lt(
            (#[trigger] after[a]).category,
            (#[trigger] after[b]).category,
        ) by {
            assert(after[a].category == sections[a].category);
            assert(after[b].category == sections[b].category);
        }
        assert forall|a: int, p: int| 0 <= a < after.len() && 0 <= p < after[a].commands.len()
            implies docs_category(#[trigger] after[a].commands[p]) == after[a].category by {
            if a == i {
                if p < k {
                    assert(grown[p] == held[p]);
                } else if p > k {
                    assert(grown[p] == held[p - 1]);
                }
            } else {
                assert(after[a] == sections[a]);
            }
        }
        assert forall|a: int, p: int, q: int|
            0 <= a < after.len() && 0 <= p < q < after[a].commands.len() implies !text_lt(
            (#[trigger] after[a].commands[q]).name@,
            (#[trigger] after[a].commands[p]).name@,
        ) by {
            if a == i {
                let np = if p < k {
                    held[p]
                } else if p == k {
                    command
                } else {
                    held[p - 1]
                };
                let nq = if q < k {
                    held[q]
                } else if q == k {
                    command
                } else {
                    held[q - 1]
                };
                assert(grown[p] == np);
                assert(grown[q] == nq);
                if q == k {
                    assert(!text_lt(command.name@, held[p].name@));
                } else if p == k {
                    assert(text_lt(command.name@, held[k].name@));
                    lemma_text_lt_total(command.name@, held[k].name@);
                    if q - 1 > k {
                        assert(!text_lt(held[q - 1].name@, held[k].name@));
                    }
                    if text_lt(held[q - 1].name@, command.name@) {
                        lemma_text_lt_transitive(
                            held[q - 1].name@,
                            command.name@,
                            held[k].name@,
                        );
                    }
                } else {
                    let hp = if p < k {
                        p
                    } else {
                        p - 1
                    };
                    let hq = if q < k {
                        q
                    } else {
                        q - 1
                    };
                    assert(!text_lt(held[hq].name@, held[hp].name@));
                }
            } else {
                assert(after[a] == sections[a]);
            }
        }
        assert forall|a: int| 0 <= a < after.len() implies (#[trigger] after[a]).commands.len()
            > 0 by {
            if a != i {
                assert(after[a] == sections[a]);
            }
        }
    } else {
        let fresh = SectionView { category, commands: seq![command] };
        assert(after == sections.insert(i, fresh));
        if i < sections.len() {
            lemma_text_lt_total(sections[i].category, category);
        }
        assert forall|a: int, b: int| 0 <= a < b < after.len() implies text_lt(
            (#[trigger] after[a]).category,
            (#[trigger] after[b]).category,
        ) by {
            let sa = if a < i {
                sections[a]
            } else if a == i {
                fresh
            } else {
                sections[a - 1]
            };
            let sb = if b < i {
                sections[b]
            } else if b == i {
                fresh
            } else {
                sections[b - 1]
            };
            assert(after[a] == sa);
            assert(after[b] == sb);
            if a == i {
                assert(text_lt(category, sections[i].category));
                if b - 1 > i {
                    assert(text_lt(sections[i].category, sections[b - 1].category));
                    lemma_text_lt_transitive(
                        category,
                        sections[i].category,
                        sections[b - 1].category,
                    );
                }
            } else if b == i {
                assert(text_lt(sections[a].category, category));
            } else {
                let ha = if a < i {
                    a
                } else {
                    a - 1
                };
                let hb = if b < i {
                    b
                } else {
                    b - 1
                };
                assert(text_lt(sections[ha].category, sections[hb].category));
            }
        }
        assert forall|a: int| 0 <= a < after.len() implies (#[trigger] after[a]).commands.len()
            > 0 by {
            if a < i {
                assert(after[a] == sections[a]);
            } else if a > i {
                assert(after[a] == sections[a - 1]);
            }
        }
        assert forall|a: int, p: int| 0 <= a < after.len() && 0 <= p < after[a].commands.len()
            implies docs_category(#[trigger] after[a].commands[p]) == after[a].category by {
            if a < i {
                assert(after[a] == sections[a]);
            } else if a > i {
                assert(after[a] == sections[a - 1]);
            }
        }
        assert forall|a: int, p: int, q: int|
            0 <= a < after.len() && 0 <= p < q < after[a].commands.len() implies !text_lt(
            (#[trigger] after[a].commands[q]).name@,
            (#[trigger] after[a].commands[p]).name@,
        ) by {
            if a < i {
                assert(after[a] == sections[a]);
            } else if a > i {
                assert(after[a] == sections[a - 1]);
            }
        }
    }
}

/// The sections of any commands are in order.
pub proof fn lemma_sectioned_in_order<H>(commands: Seq<CommandDefinition<H>>)
    ensures
        in_order(sectioned(commands)),
    decreases commands.len(),
{
    if commands.len() > 0 {
        lemma_sectioned_in_order(commands.drop_last());
        lemma_filed_in_order(sectioned(commands.drop_last()), commands.last());
    }
}

/// Puts one more command in its section.
pub fn file_command<H>(sections: &mut Vec<DocSection<H>>, command: Arc<CommandDefinition<H>>)
    ensures
        sections_view(final(sections)@) == filed(sections_view(old(sections)@), *command),
{
    let ghost before = sections_view(sections@);
    let category = match &command.category {
        Some(c) => c.clone(),
        None => String::from_str("General"),
    };
    let wanted = chars_of(category.as_str());
    let mut i: usize = 0;
    while i < sections.len() && chars_lt(&chars_of(sections[i].category.as_str()), &wanted)
        invariant
            i <= sections.len(),
            wanted@ == category@,
            sections_view(sections@) == before,
            forall|j: int| 0 <= j < i ==> text_lt((#[trigger] before[j]).category, category@),
        decreases sections.len() - i,
    {
        assert(before[i as int].category == sections@[i as int].category@);
        i += 1;
    }
    proof {
        if i < sections.len() {
            assert(before[i as int].category == sections@[i as int].category@);
        }
        lemma_section_rank(before, category@, i as int);
    }
    if i < sections.len() && str_eq(sections[i].category.as_str(), category.as_str()) {
        let name = chars_of(command.name.as_str());
        let ghost held = pointed(sections@[i as int].commands@);
        let mut k: usize = 0;
        while k < sections[i].commands.len() && !chars_lt(
            &name,
            &chars_of(sections[i].commands[k].name.as_str()),
        )
            invariant
                i < sections.len(),
                k <= sections@[i as int].commands@.len(),
                name@ == command.name@,
                held == pointed(sections@[i as int].commands@),
                forall|j: int| 0 <= j < k ==> !text_lt(command.name@, (#[trigger] held[j]).name@),
            decreases sections@[i as int].commands@.len() - k,
        {
            assert(held[k as int] == *sections@[i as int].commands@[k as int]);
            k += 1;
        }
        proof {
            if k < sections@[i as int].commands@.len() {
                assert(held[k as int] == *sections@[i as int].commands@[k as int]);
            }
            lemma_name_rank(held, command.name@, k as int);
            assert(before[i as int].commands == held);
        }
        let ghost all = sections@;
        sections[i].commands.insert(k, command);
        proof {
            assert(pointed(sections@[i as int].commands@) =~= held.insert(k as int, *command));
            assert(sections@.len() == all.len());
            assert(forall|m: int| 0 <= m < all.len() && m != i ==> sections@[m] == all[m]);
            assert(sections@[i as int].category == all[i as int].category);
            assert(sections_view(sections@) =~= filed(before, *command));
        }
    } else {
        let mut commands: Vec<Arc<CommandDefinition<H>>> = Vec::new();
        commands.push(command);
        proof {
            assert(pointed(commands@) =~= seq![*command]);
            if i < sections.len() {
                assert(before[i as int].category == sections@[i as int].category@);
            }
        }
        sections.insert(i, DocSection { category, commands });
        proof {
            assert(sections_view(sections@) =~= filed(before, *command));
        }
    }
}

/// The commands that `name` names, in sections, and how many they are.
pub fn order_for_docs<H>(commands: &Vec<Arc<CommandDefinition<H>>>, name: &Option<String>) -> (r: (
    Vec<DocSection<H>>,
    usize,
))
    ensures
        sections_view(r.0@) == sectioned(select(pointed(commands@), named_by(*name))),
        r.1 == select(pointed(commands@), named_by(*name)).len(),
{
    let ghost all = pointed(commands@);
    let ghost keep = named_by::<H>(*name);
    let mut sections: Vec<DocSection<H>> = Vec::new();
    let mut count: usize = 0;
    let mut i: usize = 0;
    proof {
        assert(all.take(0) =~= Seq::<CommandDefinition<H>>::empty());
        assert(sections_view(sections@) =~= sectioned(select(all.take(0), keep)));
    }
    while i < commands.len()
        invariant
            i <= commands.len(),
            count <= i,
            all == pointed(commands@),
            keep == named_by::<H>(*name),
            count == select(all.take(i as int), keep).len(),
            sections_view(sections@) == sectioned(select(all.take(i as int), keep)),
        decreases commands.len() - i,
    {
        proof {
            assert(all.take(i + 1).drop_last() =~= all.take(i as int));
            assert(all.take(i + 1).last() == all[i as int]);
            assert(all[i as int] == *commands@[i as int]);
            let picked = select(all.take(i as int), keep);
            assert(picked.push(all[i as int]).drop_last() =~= picked);
        }
        let command: &CommandDefinition<H> = &commands[i];
        if is_named(command, name) {
            file_command(&mut sections, commands[i].clone());
            count += 1;
        }
        i += 1;
    }
    proof {
        assert(all.take(commands.len() as int) =~= all);
    }
    (sections, count)
}

/// The lines of a section: its heading and the document of each command.
pub open spec fn section_lines<H>(section: SectionView<H>) -> Seq<Seq<char>> {
    seq!["## "@ + section.category, ""@] + Seq::new(
        section.commands.len(),
        |k: int| joined(document_lines(section.commands[k]), "\n"@),
    )
}

/// The lines of all sections, one section after the other.
pub open spec fn all_section_lines<H>(sections: Seq<SectionView<H>>) -> Seq<Seq<char>>
    decreases sections.len(),
{
    if sections.len() == 0 {
        Seq::empty()
    } else {
        all_section_lines(sections.drop_last()) + section_lines(sections.last())
    }
}

/// The lines of the documents: a title, then the sections.
pub open spec fn docs_lines<H>(sections: Seq<SectionView<H>>) -> Seq<Seq<char>> {
    seq!["# Command Documentation"@, ""@] + all_section_lines(sections)
}

/// The documents of the sections in Markdown.
pub fn render_docs<H>(sections: &Vec<DocSection<H>>) -> (r: String)
    ensures
        r@ == joined(docs_lines(sections_view(sections@)), "\n"@),
{
    let ghost views = sections_view(sections@);
    let mut lines: Vec<String> = Vec::new();
    proof {
        assert(lines.deep_view() =~= Seq::<Seq<char>>::empty());
    }
    push_line(&mut lines, String::from_str("# Command Documentation"));
    push_line(&mut lines, String::new());
    let ghost title = lines.deep_view();
    proof {
        reveal_strlit("");
        assert(""@ =~= Seq::<char>::empty());
        assert(title =~= seq!["# Command Documentation"@, ""@]);
        assert(views.take(0) =~= Seq::<SectionView<H>>::empty());
        assert(lines.deep_view() =~= title + all_section_lines(views.take(0)));
    }
    let mut i: usize = 0;
    while i < sections.len()
        invariant
            i <= sections.len(),
            views == sections_view(sections@),
            ""@ == Seq::<char>::empty(),
            lines.deep_view() == title + all_section_lines(views.take(i as int)),
        decreases sections.len() - i,
    {
        let section = &sections[i];
        let ghost done = lines.deep_view();
        let ghost view = views[i as int];
        proof {
            assert(views.take(i + 1).drop_last() =~= views.take(i as int));
            assert(views.take(i + 1).last() == view);
        }
        push_line(&mut lines, concat2("## ", section.category.as_str()));
        push_line(&mut lines, String::new());
        let ghost head = lines.deep_view();
        let ghost documents = Seq::new(
            view.commands.len(),
            |k: int| joined(document_lines(view.commands[k]), "\n"@),
        );
        let mut k: usize = 0;
        proof {
            assert(lines.deep_view() =~= head + documents.take(0));
        }
        while k < section.commands.len()
            invariant
                k <= section.commands.len(),
                view.commands == pointed(section.commands@),
                documents == Seq::new(
                    view.commands.len(),
                    |k: int| joined(document_lines(view.commands[k]), "\n"@),
                ),
                lines.deep_view() == head + documents.take(k as int),
            decreases section.commands.len() - k,
        {
            let command: &CommandDefinition<H> = &section.commands[k];
            let document = generate_command_docs(command);
            proof {
                assert(view.commands[k as int] == *command);
                assert(document@ == documents[k as int]);
                assert(documents.take(k + 1) =~= documents.take(k as int).push(
                    documents[k as int],
                ));
                assert((head + documents.take(k as int)).push(document@) =~= head
                    + documents.take(k + 1));
            }
            push_line(&mut lines, document);
            k += 1;
        }
        proof {
            assert(documents.take(section.commands.len() as int) =~= documents);
            assert(head =~= done + seq!["## "@ + view.category, ""@]);
            assert(lines.deep_view() =~= done + section_lines(view));
            assert(lines.deep_view() =~= title + all_section_lines(views.take(i + 1)));
        }
        i += 1;
    }
    proof {
        assert(views.take(sections.len() as int) =~= views);
    }
    join(&lines, "\n")
}

/// The documents of the commands that `input` names. Where it names a
/// command that is not held, there is no document.
pub fn build_docs_output<H>(commands: &Vec<Arc<CommandDefinition<H>>>, input: &DocsInput) -> (r:
    DocsOutput)
    ensures
        r.command_count == select(pointed(commands@), named_by(input.command)).len(),
        r.markdown@ == if input.command is Some && r.command_count == 0 {
            Seq::<char>::empty()
        } else {
            joined(
                docs_lines(sectioned(select(pointed(commands@), named_by(input.command)))),
                "\n"@,
            )
        },
{
    let (sections, count) = order_for_docs(commands, &input.command);
    if input.command.is_some() && count == 0 {
        DocsOutput { markdown: String::new(), command_count: 0 }
    } else {
        DocsOutput { markdown: render_docs(&sections), command_count: count }
    }
}

/// What the documents say of themselves.
pub fn docs_reasoning(command_count: usize, command: &Option<String>) -> (r: String)
    ensures
        r@ == match command {
            Some(name) => if command_count == 0 {
                "Command \""@ + name@ + "\" not found"@
            } else {
                "Generated documentation for \""@ + name@ + "\""@
            },
            None => "Generated documentation for "@ + decimal(command_count as nat)
                + " commands"@,
        },
{
    match command {
        Some(name) => {
            if command_count == 0 {
                concat3("Command \"", name.as_str(), "\" not found")
            } else {
                concat3("Generated documentation for \"", name.as_str(), "\"")
            }
        },
        None => {
            let count = decimal_string(command_count as u64);
            concat3("Generated documentation for ", count.as_str(), " commands")
        },
    }
}

/// The schema entry describes the command in the given form: as the tool
/// that stands for the command, or as its TypeScript interface.
pub open spec fn schema_describes<H>(
    info: SchemaInfo,
    command: CommandDefinition<H>,
    format: SchemaFormat,
) -> bool {
    &&& info.name@ == command.name@
    &&& info.description@ == command.description@
    &&& match format {
        SchemaFormat::Json => {
            &&& info.typescript is None
            &&& info.mcp_tool is Some
            &&& stands_for(info.mcp_tool->0, command)
        },
        SchemaFormat::Typescript => {
            &&& info.mcp_tool is None
            &&& info.typescript is Some
            &&& info.typescript->0@ == joined(typescript_lines(command), "\n"@)
        },
    }
}

/// The schemas of the commands that `input` names, in the form it asks for
/// and in the order of the registry.
pub fn build_schema_output<H>(commands: &Vec<Arc<CommandDefinition<H>>>, input: &SchemaInput) -> (r:
    SchemaOutput)
    ensures
        r.format == input.format,
        r.total == r.schemas@.len(),
        r.schemas@.len() == select(pointed(commands@), named_by(input.command)).len(),
        forall|i: int|
            0 <= i < r.schemas@.len() ==> schema_describes(
                #[trigger] r.schemas@[i],
                select(pointed(commands@), named_by(input.command))[i],
                input.format,
            ),
{
    let ghost all = pointed(commands@);
    let ghost keep = named_by::<H>(input.command);
    let mut schemas: Vec<SchemaInfo> = Vec::new();
    let mut i: usize = 0;
    proof {
        assert(all.take(0) =~= Seq::<CommandDefinition<H>>::empty());
    }
    while i < commands.len()
        invariant
            i <= commands.len(),
            all == pointed(commands@),
            keep == named_by::<H>(input.command),
            schemas@.len() == select(all.take(i as int), keep).len(),
            forall|j: int|
                0 <= j < schemas@.len() ==> schema_describes(
                    #[trigger] schemas@[j],
                    select(all.take(i as int), keep)[j],
                    input.format,
                ),
        decreases commands.len() - i,
    {
        proof {
            assert(all.take(i + 1).drop_last() =~= all.take(i as int));
            assert(all.take(i + 1).last() == all[i as int]);
            assert(all[i as int] == *commands@[i as int]);
        }
        let command: &CommandDefinition<H> = &commands[i];
        if is_named(command, &input.command) {
            let (mcp_tool, typescript) = match input.format {
                SchemaFormat::Json => (Some(command_to_mcp_tool(command)), None),
                SchemaFormat::Typescript => (None, Some(generate_typescript_type(command))),
            };
            schemas.push(
                SchemaInfo {
                    name: command.name.clone(),
                    description: command.description.clone(),
                    mcp_tool,
                    typescript,
                },
            );
        }
        i += 1;
    }
    proof {
        assert(all.take(commands.len() as int) =~= all);
    }
    let total = schemas.len();
    SchemaOutput { schemas, total, format: input.format }
}

/// What the schemas say of themselves.
pub fn schema_reasoning(total: usize, command: &Option<String>) -> (r: String)
    ensures
        r@ == match command {
            Some(name) => if total == 0 {
                "Command \""@ + name@ + "\" not found"@
            } else {
                "Exported schema for \""@ + name@ + "\""@
            },
            None => "Exported "@ + decimal(total as nat) + " command schemas"@,
        },
{
    match command {
        Some(name) => {
            if total == 0 {
                concat3("Command \"", name.as_str(), "\" not found")
            } else {
                concat3("Exported schema for \"", name.as_str(), "\"")
            }
        },
        None => {
            let count = decimal_string(total as u64);
            concat3("Exported ", count.as_str(), " command schemas")
        },
    }
}

} // verus!
