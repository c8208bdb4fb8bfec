//! Commands and the registry that holds them.
//!
//! A command is a name, a description of what it takes and returns, and a
//! handler that does the work. The registry holds commands by name and runs
//! them, one at a time or in a batch.

use vstd::prelude::*;
use std::sync::Arc;
use crate::batch::any_failed;
use crate::batch::confidences_stated;
use crate::batch::empty_batch_result;
use crate::batch::is_skipped;
use crate::batch::successful_confidences;
use crate::batch::halted_after_failure;
use crate::batch::succeeded_count;
use crate::batch::BatchCommand;
use crate::batch::BatchCommandResult;
use crate::batch::BatchRequest;
use crate::batch::BatchResult;
use crate::batch::BatchRun;
use crate::errors::CommandError;
use crate::handoff::handoff_command;
use crate::handoff::is_handoff_command;
use crate::handoff::HandoffCommandLike;
use crate::json::Json;
use crate::json::JsonMap;
use crate::json::JsonValue;
use crate::number::Double;
use crate::path::value_view;
use crate::pipeline::alternatives_of;
use crate::pipeline::capped;
use crate::pipeline::confidence_of;
use crate::pipeline::gather;
use crate::pipeline::last_success_data;
use crate::pipeline::pipeline_confidence;
use crate::pipeline::plan_step;
use crate::pipeline::reasoning_of;
use crate::pipeline::sources_of;
use crate::pipeline::step_outcome;
use crate::pipeline::success_count;
use crate::pipeline::text;
use crate::pipeline::total_time;
use crate::pipeline::warnings_of;
use crate::pipeline::is_skipped_step;
use crate::pipeline::resolved_tree;
use crate::pipeline::runs;
use crate::pipeline::PipelineContext;
use crate::pipeline::PipelineRequest;
use crate::pipeline::PipelineStep;
use crate::pipeline::PipelineResult;
use crate::pipeline::PipelineRun;
use crate::pipeline::StepPlan;
use crate::pipeline::StepResult;
use crate::pipeline::StepStatus;
use crate::result::CommandResult;
use crate::text::concat3;
use crate::text::str_eq;

verus! {

/// The types of JSON Schema.
#[derive(Debug, Clone, Copy, PartialEq, Eq, Structural)]
pub enum JsonSchemaType {
    String,
    Number,
    Boolean,
    Object,
    Array,
    Null,
    Integer,
}

/// One property of an object schema.
#[derive(Debug)]
pub struct SchemaProperty {
    pub name: String,
    pub schema: JsonSchema,
}

/// The properties of an object schema by name, held as the entries that
/// declare them: where a name is declared twice, the later entry counts.
#[derive(Debug)]
pub struct SchemaMap {
    pub entries: Vec<SchemaProperty>,
}

/// The part of JSON Schema that commands describe their values with.
#[derive(Debug)]
pub struct JsonSchema {
    /// The type of the value.
    pub schema_type: Option<JsonSchemaType>,
    /// A description for people.
    pub description: Option<String>,
    /// The properties that an object must have.
    pub required: Option<Vec<String>>,
    /// The value where none is given.
    pub default: Option<JsonValue>,
    /// The values that are allowed.
    pub enum_values: Option<Vec<JsonValue>>,
    /// The schema of the items of an array.
    pub items: Option<Box<JsonSchema>>,
    /// The schemas of the properties of an object.
    pub properties: Option<SchemaMap>,
    /// The schema of properties that are not named.
    pub additional_properties: Option<Box<JsonSchema>>,
    /// The least number allowed.
    pub minimum: Option<Double>,
    /// The greatest number allowed.
    pub maximum: Option<Double>,
    /// The least length of a string or an array.
    pub min_length: Option<usize>,
    /// The greatest length of a string or an array.
    pub max_length: Option<usize>,
    /// A pattern that a string must match.
    pub pattern: Option<String>,
    /// A hint at the format, such as `date` or `email`.
    pub format: Option<String>,
}

impl JsonSchema {
    /// The schema says nothing.
    pub open spec fn blank(self) -> bool {
        &&& self.schema_type is None
        &&& self.description is None
        &&& self.required is None
        &&& self.default is None
        &&& self.enum_values is None
        &&& self.items is None
        &&& self.properties is None
        &&& self.additional_properties is None
        &&& self.minimum is None
        &&& self.maximum is None
        &&& self.min_length is None
        &&& self.max_length is None
        &&& self.pattern is None
        &&& self.format is None
    }

    /// Two schemas say the same: of the value itself, of the items of an
    /// array, and of the properties of an object, which they declare under
    /// the same names in the same order.
    pub open spec fn agrees(self, other: JsonSchema) -> bool {
        schemas_agree(self, other)
    }
}

/// Two schemas say the same.
pub open spec fn schemas_agree(a: JsonSchema, b: JsonSchema) -> bool
    decreases a,
{
    &&& a.schema_type == b.schema_type
    &&& text(a.description) == text(b.description)
    &&& texts(a.required) == texts(b.required)
    &&& value_view(a.default) == value_view(b.default)
    &&& values(a.enum_values) == values(b.enum_values)
    &&& match (a.items, b.items) {
        (Some(x), Some(y)) => schemas_agree(*x, *y),
        (None, None) => true,
        _ => false,
    }
    &&& match (a.properties, b.properties) {
        (Some(x), Some(y)) => properties_agree(x.entries@, y.entries@),
        (None, None) => true,
        _ => false,
    }
    &&& match (a.additional_properties, b.additional_properties) {
        (Some(x), Some(y)) => schemas_agree(*x, *y),
        (None, None) => true,
        _ => false,
    }
    &&& a.minimum == b.minimum
    &&& a.maximum == b.maximum
    &&& a.min_length == b.min_length
    &&& a.max_length == b.max_length
    &&& text(a.pattern) == text(b.pattern)
    &&& text(a.format) == text(b.format)
}

/// Two lists of properties declare the same names in the same order, with
/// schemas that say the same.
pub open spec fn properties_agree(a: Seq<SchemaProperty>, b: Seq<SchemaProperty>) -> bool
    decreases a,
{
    if a.len() == 0 {
        b.len() == 0
    } else {
        b.len() > 0 && a.last().name@ == b.last().name@ && schemas_agree(
            a.last().schema,
            b.last().schema,
        ) && properties_agree(a.drop_last(), b.drop_last())
    }
}

/// The texts of an optional list of strings.
pub open spec fn texts(list: Option<Vec<String>>) -> Option<Seq<Seq<char>>> {
    match list {
        Some(l) => Some(l.deep_view()),
        None => None,
    }
}

/// The values of an optional list of documents.
pub open spec fn values(list: Option<Vec<JsonValue>>) -> Option<Seq<Json>> {
    match list {
        Some(l) => Some(crate::json::items_view(l@)),
        None => None,
    }
}

/// A copy of an optional list of strings.
pub fn copy_texts(list: &Option<Vec<String>>) -> (r: Option<Vec<String>>)
    ensures
        texts(r) == texts(*list),
{
    match list {
        Some(l) => {
            let mut out: Vec<String> = Vec::new();
            let mut i: usize = 0;
            while i < l.len()
                invariant
                    i <= l.len(),
                    out@.len() == i,
                    forall|j: int| 0 <= j < i ==> (#[trigger] out@[j])@ == l@[j]@,
                decreases l.len() - i,
            {
                out.push(l[i].clone());
                i += 1;
            }
            proof {
                assert(out.deep_view() =~= l.deep_view());
            }
            Some(out)
        },
        None => None,
    }
}

/// A copy of an optional list of documents.
pub fn copy_values(list: &Option<Vec<JsonValue>>) -> (r: Option<Vec<JsonValue>>)
    ensures
        values(r) == values(*list),
{
    match list {
        Some(l) => {
            let mut out: Vec<JsonValue> = Vec::new();
            let mut i: usize = 0;
            while i < l.len()
                invariant
                    i <= l.len(),
                    out@.len() == i,
                    forall|j: int| 0 <= j < i ==> (#[trigger] out@[j])@ == l@[j]@,
                decreases l.len() - i,
            {
                out.push(l[i].clone());
                i += 1;
            }
            proof {
                assert(crate::json::items_view(out@) =~= crate::json::items_view(l@));
            }
            Some(out)
        },
        None => None,
    }
}

impl Default for JsonSchema {
    fn default() -> (r: JsonSchema)
        ensures
            r.blank(),
    {
        JsonSchema {
            schema_type: None,
            description: None,
            required: None,
            default: None,
            enum_values: None,
            items: None,
            properties: None,
            additional_properties: None,
            minimum: None,
            maximum: None,
            min_length: None,
            max_length: None,
            pattern: None,
            format: None,
        }
    }
}

impl Clone for JsonSchema {
    fn clone(&self) -> (r: Self)
        ensures
            r.agrees(*self),
        decreases self,
    {
        JsonSchema {
            schema_type: self.schema_type,
            description: self.description.clone(),
            required: copy_texts(&self.required),
            default: crate::pipeline::clone_data(&self.default),
            enum_values: copy_values(&self.enum_values),
            items: match &self.items {
                Some(b) => Some(Box::new((**b).clone())),
                None => None,
            },
            properties: match &self.properties {
                Some(map) => Some(map.clone()),
                None => None,
            },
            additional_properties: match &self.additional_properties {
                Some(b) => Some(Box::new((**b).clone())),
                None => None,
            },
            minimum: self.minimum,
            maximum: self.maximum,
            min_length: self.min_length,
            max_length: self.max_length,
            pattern: self.pattern.clone(),
            format: self.format.clone(),
        }
    }
}

impl Clone for SchemaProperty {
    fn clone(&self) -> (r: Self)
        ensures
            r.name@ == self.name@,
            r.schema.agrees(self.schema),
        decreases self,
    {
        SchemaProperty { name: self.name.clone(), schema: self.schema.clone() }
    }
}

impl SchemaMap {
    /// A property is declared under `name`.
    pub open spec fn declares(self, name: Seq<char>) -> bool {
        exists|i: int| 0 <= i < self.entries@.len() && (#[trigger] self.entries@[i]).name@ == name
    }

    /// No properties.
    pub fn new() -> (r: SchemaMap)
        ensures
            r.entries@.len() == 0,
    {
        SchemaMap { entries: Vec::new() }
    }

    /// How many entries declare properties.
    pub fn len(&self) -> (r: usize)
        ensures
            r == self.entries@.len(),
    {
        self.entries.len()
    }

    /// Whether no property is declared.
    pub fn is_empty(&self) -> (r: bool)
        ensures
            r == (self.entries@.len() == 0),
    {
        self.entries.len() == 0
    }

    /// The schema declared under `name`: the last one, where there are
    /// several.
    pub fn get(&self, name: &str) -> (r: Option<&JsonSchema>)
        ensures
            r is Some <==> self.declares(name@),
            r matches Some(s) ==> exists|i: int|
                0 <= i < self.entries@.len() && (#[trigger] self.entries@[i]).name@ == name@
                    && self.entries@[i].schema == *s && forall|j: int|
                    i < j < self.entries@.len() ==> (#[trigger] self.entries@[j]).name@ != name@,
    {
        let mut i: usize = self.entries.len();
        while i > 0
            invariant
                i <= self.entries.len(),
                forall|j: int|
                    i <= j < self.entries@.len() ==> (#[trigger] self.entries@[j]).name@ != name@,
            decreases i,
        {
            i -= 1;
            if str_eq(self.entries[i].name.as_str(), name) {
                return Some(&self.entries[i].schema);
            }
        }
        None
    }

    /// Whether a property is declared under `name`.
    pub fn contains_key(&self, name: &str) -> (r: bool)
        ensures
            r == self.declares(name@),
    {
        self.get(name).is_some()
    }
}

impl Clone for SchemaMap {
    fn clone(&self) -> (r: Self)
        ensures
            properties_agree(r.entries@, self.entries@),
        decreases self,
    {
        let mut out: Vec<SchemaProperty> = Vec::new();
        let mut i: usize = 0;
        proof {
            assert(self.entries@.take(0).len() == 0);
        }
        while i < self.entries.len()
            invariant
                i <= self.entries.len(),
                out@.len() == i,
                properties_agree(out@, self.entries@.take(i as int)),
            decreases self.entries.len() - i,
        {
            let ghost before = out@;
            let copy = self.entries[i].clone();
            out.push(copy);
            proof {
                let upto = self.entries@.take(i + 1);
                assert(out@.drop_last() =~= before);
                assert(out@.last() == copy);
                assert(upto.drop_last() =~= self.entries@.take(i as int));
                assert(upto.last() == self.entries@[i as int]);
                assert(properties_agree(out@, upto));
            }
            i += 1;
        }
        proof {
            assert(self.entries@.take(self.entries.len() as int) =~= self.entries@);
        }
        SchemaMap { entries: out }
    }
}

/// One parameter of a command.
#[derive(Debug, Clone)]
pub struct CommandParameter {
    /// The name of the parameter.
    pub name: String,
    /// The type of its value.
    pub param_type: JsonSchemaType,
    /// A description for people.
    pub description: String,
    /// Whether the parameter must be given.
    pub required: bool,
    /// The value where none is given.
    pub default: Option<JsonValue>,
    /// The values that are allowed.
    pub enum_values: Option<Vec<JsonValue>>,
    /// A schema in full, where the type alone does not say enough.
    pub schema: Option<JsonSchema>,
}

impl CommandParameter {
    /// The parameter is of the given name, type and description, required or
    /// not, and says nothing else.
    pub open spec fn plain(
        self,
        name: Seq<char>,
        param_type: JsonSchemaType,
        description: Seq<char>,
        required: bool,
    ) -> bool {
        &&& self.name@ == name
        &&& self.param_type == param_type
        &&& self.description@ == description
        &&& self.required == required
        &&& self.default is None
        &&& self.enum_values is None
        &&& self.schema is None
    }

    fn of(name: &str, param_type: JsonSchemaType, description: &str, required: bool) -> (r:
        CommandParameter)
        ensures
            r.plain(name@, param_type, description@, required),
    {
        CommandParameter {
            name: String::from_str(name),
            param_type,
            description: String::from_str(description),
            required,
            default: None,
            enum_values: None,
            schema: None,
        }
    }

    /// A string that must be given.
    pub fn required_string(name: &str, description: &str) -> (r: CommandParameter)
        ensures
            r.plain(name@, JsonSchemaType::String, description@, true),
    {
        CommandParameter::of(name, JsonSchemaType::String, description, true)
    }

    /// A string that may be left out.
    pub fn optional_string(name: &str, description: &str) -> (r: CommandParameter)
        ensures
            r.plain(name@, JsonSchemaType::String, description@, false),
    {
        CommandParameter::of(name, JsonSchemaType::String, description, false)
    }

    /// A number that must be given.
    pub fn required_number(name: &str, description: &str) -> (r: CommandParameter)
        ensures
            r.plain(name@, JsonSchemaType::Number, description@, true),
    {
        CommandParameter::of(name, JsonSchemaType::Number, description, true)
    }

    /// A boolean that must be given.
    pub fn required_boolean(name: &str, description: &str) -> (r: CommandParameter)
        ensures
            r.plain(name@, JsonSchemaType::Boolean, description@, true),
    {
        CommandParameter::of(name, JsonSchemaType::Boolean, description, true)
    }

    /// The same parameter with a default.
    pub fn with_default(self, default: JsonValue) -> (r: CommandParameter)
        ensures
            r.default == Some(default),
            r.name == self.name,
            r.param_type == self.param_type,
            r.description == self.description,
            r.required == self.required,
            r.enum_values == self.enum_values,
            r.schema == self.schema,
    {
        let mut r = self;
        r.default = Some(default);
        r
    }

    /// The same parameter with the values that are allowed.
    pub fn with_enum(self, values: Vec<JsonValue>) -> (r: CommandParameter)
        ensures
            r.enum_values == Some(values),
            r.name == self.name,
            r.param_type == self.param_type,
            r.description == self.description,
            r.required == self.required,
            r.default == self.default,
            r.schema == self.schema,
    {
        let mut r = self;
        r.enum_values = Some(values);
        r
    }
}

/// What a handler is told about the call.
#[derive(Debug, Clone)]
pub struct CommandContext {
    /// An identifier to follow the call by.
    pub trace_id: Option<String>,
    /// A time limit, in milliseconds. The registry hands it on and does not
    /// enforce it.
    pub timeout_ms: Option<u64>,
    /// Anything else.
    pub extra: JsonMap,
}

impl Default for CommandContext {
    fn default() -> (r: CommandContext)
        ensures
            r.trace_id is None,
            r.timeout_ms is None,
            r.extra@ == Map::<Seq<char>, Json>::empty(),
    {
        CommandContext { trace_id: None, timeout_ms: None, extra: JsonMap::new() }
    }
}

impl CommandContext {
    /// A context that says nothing.
    pub fn new() -> (r: CommandContext)
        ensures
            r.trace_id is None,
            r.timeout_ms is None,
            r.extra@ == Map::<Seq<char>, Json>::empty(),
    {
        CommandContext { trace_id: None, timeout_ms: None, extra: JsonMap::new() }
    }

    /// The same context with a trace identifier.
    pub fn with_trace_id(self, trace_id: &str) -> (r: CommandContext)
        ensures
            r.trace_id is Some,
            r.trace_id->0@ == trace_id@,
            r.timeout_ms == self.timeout_ms,
            r.extra == self.extra,
    {
        let mut r = self;
        r.trace_id = Some(String::from_str(trace_id));
        r
    }

    /// The same context with a time limit.
    pub fn with_timeout(self, timeout_ms: u64) -> (r: CommandContext)
        ensures
            r.timeout_ms == Some(timeout_ms),
            r.trace_id == self.trace_id,
            r.extra == self.extra,
    {
        let mut r = self;
        r.timeout_ms = Some(timeout_ms);
        r
    }
}

/// How long a command is expected to take.
#[derive(Debug, Clone, Copy, PartialEq, Eq, Structural)]
pub enum ExecutionTime {
    /// Under a tenth of a second.
    Instant,
    /// Up to a second.
    Fast,
    /// Up to ten seconds.
    Slow,
    /// More than ten seconds.
    LongRunning,
}

/// What does the work of a command. A handler reports the failures it
/// expects as results that failed; nothing is known of what it returns.
pub trait CommandHandler {
    /// Runs the command on an input.
    fn execute(&self, input: JsonValue, context: CommandContext) -> CommandResult<JsonValue>;
}

/// A command: its name, what it takes and returns, and its handler.
pub struct CommandDefinition<H> {
    /// The name, unique within a registry.
    pub name: String,
    /// A description for people.
    pub description: String,
    /// The group the command belongs to.
    pub category: Option<String>,
    /// The parameters, in order.
    pub parameters: Vec<CommandParameter>,
    /// The schema of what the command returns.
    pub returns: Option<JsonSchema>,
    /// The error codes the command may return.
    pub errors: Option<Vec<String>>,
    /// Whether the command hands off to another protocol.
    pub handoff: bool,
    /// The protocol it hands off to.
    pub handoff_protocol: Option<String>,
    /// What does the work.
    pub handler: H,
    /// The version of the command.
    pub version: Option<String>,
    /// Tags, to sort the commands by.
    pub tags: Option<Vec<String>>,
    /// Whether the command changes anything. Callers sort commands by it;
    /// the registry does not enforce it.
    pub mutation: bool,
    /// How long the command is expected to take.
    pub execution_time: Option<ExecutionTime>,
}

impl<H> CommandDefinition<H> {
    /// A command with a name, a description, parameters and a handler, and
    /// nothing else.
    pub fn new(name: &str, description: &str, parameters: Vec<CommandParameter>, handler: H) -> (r:
        CommandDefinition<H>)
        ensures
            r.name@ == name@,
            r.description@ == description@,
            r.category is None,
            r.parameters == parameters,
            r.returns is None,
            r.errors is None,
            !r.handoff,
            r.handoff_protocol is None,
            r.handler == handler,
            r.version is None,
            r.tags is None,
            !r.mutation,
            r.execution_time is None,
    {
        CommandDefinition {
            name: String::from_str(name),
            description: String::from_str(description),
            category: None,
            parameters,
            returns: None,
            errors: None,
            handoff: false,
            handoff_protocol: None,
            handler,
            version: None,
            tags: None,
            mutation: false,
            execution_time: None,
        }
    }

    /// Two commands agree in all but the fields that builders set one at a
    /// time.
    pub open spec fn same_core(self, other: CommandDefinition<H>) -> bool {
        &&& self.name == other.name
        &&& self.description == other.description
        &&& self.parameters == other.parameters
        &&& self.errors == other.errors
        &&& self.handler == other.handler
    }

    /// The same command in a category.
    pub fn with_category(self, category: &str) -> (r: CommandDefinition<H>)
        ensures
            r.category is Some,
            r.category->0@ == category@,
            r.same_core(self),
            r.returns == self.returns,
            r.handoff == self.handoff,
            r.handoff_protocol == self.handoff_protocol,
            r.version == self.version,
            r.tags == self.tags,
            r.mutation == self.mutation,
            r.execution_time == self.execution_time,
    {
        let mut r = self;
        r.category = Some(String::from_str(category));
        r
    }

    /// The same command with a schema of what it returns.
    pub fn with_returns(self, schema: JsonSchema) -> (r: CommandDefinition<H>)
        ensures
            r.returns == Some(schema),
            r.same_core(self),
            r.category == self.category,
            r.handoff == self.handoff,
            r.handoff_protocol == self.handoff_protocol,
            r.version == self.version,
            r.tags == self.tags,
            r.mutation == self.mutation,
            r.execution_time == self.execution_time,
    {
        let mut r = self;
        r.returns = Some(schema);
        r
    }

    /// The same command, said to change something.
    pub fn as_mutation(self) -> (r: CommandDefinition<H>)
        ensures
            r.mutation,
            r.same_core(self),
            r.category == self.category,
            r.returns == self.returns,
            r.handoff == self.handoff,
            r.handoff_protocol == self.handoff_protocol,
            r.version == self.version,
            r.tags == self.tags,
            r.execution_time == self.execution_time,
    {
        let mut r = self;
        r.mutation = true;
        r
    }

    /// The same command with the time it is expected to take.
    pub fn with_execution_time(self, time: ExecutionTime) -> (r: CommandDefinition<H>)
        ensures
            r.execution_time == Some(time),
            r.same_core(self),
            r.category == self.category,
            r.returns == self.returns,
            r.handoff == self.handoff,
            r.handoff_protocol == self.handoff_protocol,
            r.version == self.version,
            r.tags == self.tags,
            r.mutation == self.mutation,
    {
        let mut r = self;
        r.execution_time = Some(time);
        r
    }

    /// The same command with tags.
    pub fn with_tags(self, tags: Vec<String>) -> (r: CommandDefinition<H>)
        ensures
            r.tags == Some(tags),
            r.same_core(self),
            r.category == self.category,
            r.returns == self.returns,
            r.handoff == self.handoff,
            r.handoff_protocol == self.handoff_protocol,
            r.version == self.version,
            r.mutation == self.mutation,
            r.execution_time == self.execution_time,
    {
        let mut r = self;
        r.tags = Some(tags);
        r
    }

    /// The same command with a version.
    pub fn with_version(self, version: &str) -> (r: CommandDefinition<H>)
        ensures
            r.version is Some,
            r.version->0@ == version@,
            r.same_core(self),
            r.category == self.category,
            r.returns == self.returns,
            r.handoff == self.handoff,
            r.handoff_protocol == self.handoff_protocol,
            r.tags == self.tags,
            r.mutation == self.mutation,
            r.execution_time == self.execution_time,
    {
        let mut r = self;
        r.version = Some(String::from_str(version));
        r
    }

    /// The same command, said to hand off.
    pub fn as_handoff(self) -> (r: CommandDefinition<H>)
        ensures
            r.handoff,
            r.same_core(self),
            r.category == self.category,
            r.returns == self.returns,
            r.handoff_protocol == self.handoff_protocol,
            r.version == self.version,
            r.tags == self.tags,
            r.mutation == self.mutation,
            r.execution_time == self.execution_time,
    {
        let mut r = self;
        r.handoff = true;
        r
    }

    /// The same command, said to hand off to a protocol.
    pub fn as_handoff_with_protocol(self, protocol: &str) -> (r: CommandDefinition<H>)
        ensures
            r.handoff,
            r.handoff_protocol is Some,
            r.handoff_protocol->0@ == protocol@,
            r.same_core(self),
            r.category == self.category,
            r.returns == self.returns,
            r.version == self.version,
            r.tags == self.tags,
            r.mutation == self.mutation,
            r.execution_time == self.execution_time,
    {
        let mut r = self;
        r.handoff = true;
        r.handoff_protocol = Some(String::from_str(protocol));
        r
    }
}

impl<H: CommandHandler> CommandDefinition<H> {
    /// Runs the command: hands the input and the context to its handler and
    /// returns what the handler returns.
    pub fn execute(&self, input: JsonValue, context: CommandContext) -> (r: CommandResult<JsonValue>)
        ensures
            call_ensures(H::execute, (&self.handler, input, context), r),
    {
        self.handler.execute(input, context)
    }
}

impl<H> HandoffCommandLike for CommandDefinition<H> {
    open spec fn handoff_flag(&self) -> bool {
        self.handoff
    }

    open spec fn protocol_name(&self) -> Option<Seq<char>> {
        text(self.handoff_protocol)
    }

    open spec fn tag_names(&self) -> Option<Seq<Seq<char>>> {
        match self.tags {
            Some(t) => Some(Seq::new(t@.len(), |i: int| t@[i]@)),
            None => None,
        }
    }

    fn is_handoff(&self) -> (r: bool) {
        self.handoff
    }

    fn handoff_protocol(&self) -> (r: Option<&str>) {
        match &self.handoff_protocol {
            Some(p) => Some(p.as_str()),
            None => None,
        }
    }

    fn tags(&self) -> (r: Option<&[String]>) {
        match &self.tags {
            Some(t) => Some(t.as_slice()),
            None => None,
        }
    }
}

/// The commands of `defs` that `keep` picks, in order.
pub open spec fn select<H>(
    defs: Seq<CommandDefinition<H>>,
    keep: spec_fn(CommandDefinition<H>) -> bool,
) -> Seq<CommandDefinition<H>>
    decreases defs.len(),
{
    if defs.len() == 0 {
        Seq::empty()
    } else if keep(defs.last()) {
        select(defs.drop_last(), keep).push(defs.last())
    } else {
        select(defs.drop_last(), keep)
    }
}

/// The commands that shared handles point to.
pub open spec fn pointed<H>(handles: Seq<Arc<CommandDefinition<H>>>) -> Seq<CommandDefinition<H>> {
    Seq::new(handles.len(), |i: int| *handles[i])
}

/// One of the commands has the name `name`.
pub open spec fn names<H>(defs: Seq<CommandDefinition<H>>, name: Seq<char>) -> bool {
    exists|i: int| 0 <= i < defs.len() && (#[trigger] defs[i]).name@ == name
}

/// No two of the commands have the same name.
pub open spec fn distinct_names<H>(defs: Seq<CommandDefinition<H>>) -> bool {
    forall|i: int, j: int|
        0 <= i < j < defs.len() ==> (#[trigger] defs[i]).name@ != (#[trigger] defs[j]).name@
}

/// What registering a command makes of the commands held: the command is
/// added after them, or, where its name is taken, refused.
pub open spec fn registered<H>(defs: Seq<CommandDefinition<H>>, command: CommandDefinition<H>)
    -> Option<Seq<CommandDefinition<H>>> {
    if names(defs, command.name@) {
        None
    } else {
        Some(defs.push(command))
    }
}

/// Of two commands with one name the second is refused, whatever was
/// registered before, and the first stays as it was registered.
pub proof fn lemma_duplicate_refused<H>(
    defs: Seq<CommandDefinition<H>>,
    first: CommandDefinition<H>,
    second: CommandDefinition<H>,
)
    requires
        first.name@ == second.name@,
    ensures
        registered(defs, first) matches Some(held) ==> registered(held, second) is None
            && held.last() == first,
        registered(defs, first) is None ==> registered(defs, second) is None,
{
    if registered(defs, first) is Some {
        let held = defs.push(first);
        assert(held[held.len() - 1].name@ == second.name@);
    }
}

/// Registering keeps the names distinct.
pub proof fn lemma_registered_distinct<H>(
    defs: Seq<CommandDefinition<H>>,
    command: CommandDefinition<H>,
)
    requires
        distinct_names(defs),
    ensures
        registered(defs, command) matches Some(held) ==> distinct_names(held),
{
    if registered(defs, command) is Some {
        let held = defs.push(command);
        assert forall|i: int, j: int| 0 <= i < j < held.len() implies (#[trigger] held[i]).name@
            != (#[trigger] held[j]).name@ by {
            if j == held.len() - 1 {
                assert(defs[i].name@ != command.name@);
            } else {
                assert(defs[i].name@ != defs[j].name@);
            }
        }
    }
}

/// The command is in the category `category`.
pub open spec fn in_category<H>(command: CommandDefinition<H>, category: Seq<char>) -> bool {
    text(command.category) == Some(category)
}

/// The result says that no command has the name `name`.
pub open spec fn is_not_found(r: CommandResult<JsonValue>, name: Seq<char>) -> bool {
    &&& !r.success
    &&& r.data is None
    &&& r.error is Some
    &&& r.error->0.code@ == "COMMAND_NOT_FOUND"@
    &&& r.error->0.message@ == "Command '"@ + name + "' not found"@
    &&& r.error->0.suggestion is Some
    &&& r.error->0.suggestion->0@ == "Use 'afd tools' to see available commands"@
    &&& r.error->0.retryable == Some(false)
    &&& r.error->0.details is None
    &&& r.error->0.cause is None
    &&& r.bare()
}

/// The context says nothing: it is what a handler is given where the caller
/// gives none.
pub open spec fn says_nothing(c: CommandContext) -> bool {
    c.trace_id is None && c.timeout_ms is None && c.extra@ == Map::<Seq<char>, Json>::empty()
}

/// The context `c` is what is handed on for `context`: the context given,
/// or one that says nothing where none is given.
pub open spec fn handed_on(context: Option<CommandContext>, c: CommandContext) -> bool {
    match context {
        Some(given) => c == given,
        None => says_nothing(c),
    }
}

/// The result is what running the command `name` on `input` gives among
/// the commands `defs`: what the handler of a command of that name returns
/// for this input and the context handed on, as it is; or, where no command
/// has the name, the result that says so.
pub open spec fn executed<H: CommandHandler>(
    defs: Seq<CommandDefinition<H>>,
    name: Seq<char>,
    input: JsonValue,
    context: Option<CommandContext>,
    r: CommandResult<JsonValue>,
) -> bool {
    if names(defs, name) {
        exists|d: CommandDefinition<H>, c: CommandContext|
            defs.contains(d) && d.name@ == name && handed_on(context, c) && #[trigger] call_ensures(
                H::execute,
                (&d.handler, input, c),
                r,
            )
    } else {
        is_not_found(r, name)
    }
}

/// The result that says that no command has the name `name`.
pub fn command_not_found(name: &str) -> (r: CommandResult<JsonValue>)
    ensures
        is_not_found(r, name@),
{
    crate::result::failure(
        CommandError {
            code: String::from_str("COMMAND_NOT_FOUND"),
            message: concat3("Command '", name, "' not found"),
            suggestion: Some(String::from_str("Use 'afd tools' to see available commands")),
            retryable: Some(false),
            details: None,
            cause: None,
        },
    )
}

/// The command at the place `i` of a batch is run: the batch goes on after
/// failures, or no command before that place failed.
pub open spec fn is_run(
    results: Seq<BatchCommandResult<JsonValue>>,
    continue_on_error: bool,
    i: int,
) -> bool {
    continue_on_error || forall|k: int| 0 <= k < i ==> (#[trigger] results[k]).result.success
}

/// The outcome is that of the command `item` in a batch over the commands
/// `defs`: it stands under the identifier and the name of the command; for
/// a command that is run it holds what running it gave, with a context that
/// says nothing, and how long that took; for another it says that the
/// command was not run.
#[verifier::opaque]
pub open spec fn batch_outcome<H: CommandHandler>(
    defs: Seq<CommandDefinition<H>>,
    item: BatchCommand<JsonValue>,
    outcome: BatchCommandResult<JsonValue>,
    run: bool,
) -> bool {
    &&& outcome.id == item.id
    &&& outcome.command == item.command
    &&& if run {
        executed(defs, item.command@, item.input, None, outcome.result)
            && outcome.duration_ms is Some
    } else {
        is_skipped(outcome)
    }
}

/// Whether a command is run depends on the outcomes before it alone.
pub proof fn lemma_is_run_prefix(
    before: Seq<BatchCommandResult<JsonValue>>,
    after: Seq<BatchCommandResult<JsonValue>>,
    continue_on_error: bool,
    i: int,
)
    requires
        0 <= i <= before.len() <= after.len(),
        forall|k: int| 0 <= k < before.len() ==> after[k] == before[k],
    ensures
        is_run(after, continue_on_error, i) == is_run(before, continue_on_error, i),
{
    if !continue_on_error {
        if is_run(before, continue_on_error, i) {
            assert forall|k: int| 0 <= k < i implies (#[trigger] after[k]).result.success by {
                assert(before[k].result.success);
            }
        }
        if is_run(after, continue_on_error, i) {
            assert forall|k: int| 0 <= k < i implies (#[trigger] before[k]).result.success by {
                assert(after[k].result.success);
            }
        }
    }
}

/// After outcomes without a failure the next command is run.
pub proof fn lemma_no_failure_runs(
    results: Seq<BatchCommandResult<JsonValue>>,
    continue_on_error: bool,
)
    requires
        continue_on_error || !any_failed(results),
    ensures
        is_run(results, continue_on_error, results.len() as int),
{
    if !continue_on_error {
        assert forall|k: int| 0 <= k < results.len() implies (
        #[trigger] results[k]).result.success by {
            if !results[k].result.success {
                assert(any_failed(results));
            }
        }
    }
}

/// After a failure a batch that stops at failures runs no command.
pub proof fn lemma_failure_stops(results: Seq<BatchCommandResult<JsonValue>>, i: int)
    requires
        any_failed(results),
        results.len() <= i,
    ensures
        !is_run(results, false, i),
{
    let k = choose|k: int| 0 <= k < results.len() && !(#[trigger] results[k]).result.success;
    assert(!results[k].result.success);
}

/// One more outcome that is as the rules of a batch ask keeps all outcomes
/// so.
pub proof fn lemma_batch_step<H: CommandHandler>(
    defs: Seq<CommandDefinition<H>>,
    asked: Seq<BatchCommand<JsonValue>>,
    before: Seq<BatchCommandResult<JsonValue>>,
    after: Seq<BatchCommandResult<JsonValue>>,
    continue_on_error: bool,
    done: int,
)
    requires
        0 <= done < asked.len(),
        before.len() == done,
        after.len() == done + 1,
        forall|k: int| 0 <= k < done ==> after[k] == before[k],
        forall|i: int|
            0 <= i < done ==> batch_outcome(
                defs,
                asked[i],
                #[trigger] before[i],
                is_run(before, continue_on_error, i),
            ),
        batch_outcome(defs, asked[done], after[done], is_run(after, continue_on_error, done)),
    ensures
        forall|i: int|
            0 <= i < done + 1 ==> batch_outcome(
                defs,
                asked[i],
                #[trigger] after[i],
                is_run(after, continue_on_error, i),
            ),
{
    assert forall|i: int| 0 <= i < done + 1 implies batch_outcome(
        defs,
        asked[i],
        #[trigger] after[i],
        is_run(after, continue_on_error, i),
    ) by {
        if i < done {
            lemma_is_run_prefix(before, after, continue_on_error, i);
            assert(after[i] == before[i]);
            assert(batch_outcome(defs, asked[i], before[i], is_run(before, continue_on_error, i)));
        }
    }
}

/// The items of `items`, last first.
fn reversed<T>(items: Vec<T>) -> (r: Vec<T>)
    ensures
        r@.len() == items@.len(),
        forall|k: int| 0 <= k < r@.len() ==> r@[k] == items@[items@.len() - 1 - k],
{
    let ghost all = items@;
    let mut from = items;
    let mut out: Vec<T> = Vec::new();
    while from.len() > 0
        invariant
            from@.len() + out@.len() == all.len(),
            from@ == all.take(from@.len() as int),
            forall|k: int| 0 <= k < out@.len() ==> out@[k] == all[all.len() - 1 - k],
        decreases from@.len(),
    {
        let item = from.pop().unwrap();
        out.push(item);
        proof {
            assert(from@ =~= all.take(from@.len() as int));
        }
    }
    out
}

/// A point in time of the machine's monotonic clock.
#[verifier::external_type_specification]
#[verifier::external_body]
pub struct ExInstant(std::time::Instant);

/// `Instant::now` of the standard library. Nothing can be said of the clock.
#[verifier::external_body]
pub(crate) fn clock_start() -> std::time::Instant {
    std::time::Instant::now()
}

/// `Instant::elapsed` of the standard library, in whole milliseconds.
/// Nothing can be said of the clock.
#[verifier::external_body]
pub(crate) fn elapsed_ms(start: &std::time::Instant) -> u64 {
    start.elapsed().as_millis() as u64
}

/// `Utc::now` of the chrono crate, written by its `to_rfc3339`. Nothing can
/// be said of the clock.
#[verifier::external_body]
pub(crate) fn timestamp_now() -> String {
    chrono::Utc::now().to_rfc3339()
}

/// Commands by name.
pub struct CommandRegistry<H> {
    commands: Vec<Arc<CommandDefinition<H>>>,
}

impl<H> CommandRegistry<H> {
    #[verifier::type_invariant]
    spec fn names_are_distinct(self) -> bool {
        distinct_names(pointed(self.commands@))
    }

    /// The commands held, in the order in which they were registered.
    pub closed spec fn defs(self) -> Seq<CommandDefinition<H>> {
        pointed(self.commands@)
    }

    /// A command of the name `name` is held.
    pub open spec fn has_name(self, name: Seq<char>) -> bool {
        names(self.defs(), name)
    }

    /// A registry without commands.
    pub fn new() -> (r: CommandRegistry<H>)
        ensures
            r.defs().len() == 0,
    {
        CommandRegistry { commands: Vec::new() }
    }

    /// The place of the command of the name `name`.
    fn position(&self, name: &str) -> (r: Option<usize>)
        ensures
            r is Some <==> self.has_name(name@),
            r matches Some(i) ==> i < self.commands@.len() && self.commands@[i as int].name@
                == name@,
    {
        let mut i: usize = 0;
        while i < self.commands.len()
            invariant
                i <= self.commands.len(),
                forall|j: int| 0 <= j < i ==> (#[trigger] pointed(self.commands@)[j]).name@ != name@,
            decreases self.commands.len() - i,
        {
            if str_eq(self.commands[i].name.as_str(), name) {
                assert(pointed(self.commands@)[i as int].name@ == name@);
                return Some(i);
            }
            i += 1;
        }
        None
    }

    /// Adds a command. A command whose name is taken is refused, and the
    /// registry stays as it was.
    pub fn register(&mut self, command: CommandDefinition<H>) -> (r: Result<(), String>)
        ensures
            match registered(old(self).defs(), command) {
                Some(held) => r is Ok && final(self).defs() == held,
                None => r is Err && final(self).defs() == old(self).defs() && r->Err_0@
                    == "Command '"@ + command.name@ + "' is already registered"@,
            },
    {
        proof {
            use_type_invariant(&*self);
        }
        if self.position(command.name.as_str()).is_some() {
            return Err(concat3("Command '", command.name.as_str(), "' is already registered"));
        }
        let ghost before = pointed(self.commands@);
        let mut commands: Vec<Arc<CommandDefinition<H>>> = Vec::new();
        std::mem::swap(&mut commands, &mut self.commands);
        commands.push(Arc::new(command));
        proof {
            lemma_registered_distinct(before, command);
            assert(pointed(commands@) =~= before.push(command));
        }
        self.commands = commands;
        Ok(())
    }

    /// The command of the name `name`.
    pub fn get(&self, name: &str) -> (r: Option<Arc<CommandDefinition<H>>>)
        ensures
            r is Some <==> self.has_name(name@),
            r matches Some(d) ==> d.name@ == name@ && self.defs().contains(*d),
    {
        match self.position(name) {
            Some(i) => {
                let d = self.commands[i].clone();
                assert(pointed(self.commands@)[i as int] == *d);
                Some(d)
            },
            None => None,
        }
    }

    /// Whether a command of the name `name` is held.
    pub fn has(&self, name: &str) -> (r: bool)
        ensures
            r == self.has_name(name@),
    {
        self.position(name).is_some()
    }

    /// All commands, in the order in which they were registered. The list is
    /// the caller's own: the registry does not change with it.
    pub fn list(&self) -> (r: Vec<Arc<CommandDefinition<H>>>)
        ensures
            pointed(r@) == self.defs(),
            distinct_names(pointed(r@)),
    {
        proof {
            use_type_invariant(self);
        }
        let mut out: Vec<Arc<CommandDefinition<H>>> = Vec::new();
        let mut i: usize = 0;
        while i < self.commands.len()
            invariant
                i <= self.commands.len(),
                out@.len() == i,
                forall|j: int| 0 <= j < i ==> *(#[trigger] out@[j]) == *self.commands@[j],
            decreases self.commands.len() - i,
        {
            out.push(self.commands[i].clone());
            i += 1;
        }
        assert(pointed(out@) =~= pointed(self.commands@));
        out
    }

    /// The commands of a category, in the order in which they were
    /// registered.
    pub fn list_by_category(&self, category: &str) -> (r: Vec<Arc<CommandDefinition<H>>>)
        ensures
            pointed(r@) == select(
                self.defs(),
                |d: CommandDefinition<H>| in_category(d, category@),
            ),
    {
        let ghost keep = |d: CommandDefinition<H>| in_category(d, category@);
        let ghost all = pointed(self.commands@);
        let mut out: Vec<Arc<CommandDefinition<H>>> = Vec::new();
        let mut i: usize = 0;
        proof {
            assert(all.take(0) =~= Seq::<CommandDefinition<H>>::empty());
            assert(pointed(out@) =~= select(all.take(0), keep));
        }
        while i < self.commands.len()
            invariant
                i <= self.commands.len(),
                all == pointed(self.commands@),
                keep == (|d: CommandDefinition<H>| in_category(d, category@)),
                pointed(out@) == select(all.take(i as int), keep),
            decreases self.commands.len() - i,
        {
            proof {
                assert(all.take(i + 1).drop_last() =~= all.take(i as int));
                assert(all.take(i + 1).last() == all[i as int]);
            }
            let matches = match &self.commands[i].category {
                Some(c) => str_eq(c.as_str(), category),
                None => false,
            };
            if matches {
                let ghost before = pointed(out@);
                out.push(self.commands[i].clone());
                proof {
                    assert(pointed(out@) =~= before.push(all[i as int]));
                }
            }
            i += 1;
        }
        proof {
            assert(all.take(self.commands.len() as int) =~= all);
        }
        out
    }

    /// The handoff commands, in the order in which they were registered.
    pub fn list_handoff_commands(&self) -> (r: Vec<Arc<CommandDefinition<H>>>)
        ensures
            pointed(r@) == select(self.defs(), |d: CommandDefinition<H>| handoff_command(&d)),
    {
        let ghost keep = |d: CommandDefinition<H>| handoff_command(&d);
        let ghost all = pointed(self.commands@);
        let mut out: Vec<Arc<CommandDefinition<H>>> = Vec::new();
        let mut i: usize = 0;
        proof {
            assert(all.take(0) =~= Seq::<CommandDefinition<H>>::empty());
            assert(pointed(out@) =~= select(all.take(0), keep));
        }
        while i < self.commands.len()
            invariant
                i <= self.commands.len(),
                all == pointed(self.commands@),
                keep == (|d: CommandDefinition<H>| handoff_command(&d)),
                pointed(out@) == select(all.take(i as int), keep),
            decreases self.commands.len() - i,
        {
            proof {
                assert(all.take(i + 1).drop_last() =~= all.take(i as int));
                assert(all.take(i + 1).last() == all[i as int]);
            }
            let command: &CommandDefinition<H> = &self.commands[i];
            if is_handoff_command(command) {
                let ghost before = pointed(out@);
                out.push(self.commands[i].clone());
                proof {
                    assert(pointed(out@) =~= before.push(all[i as int]));
                }
            }
            i += 1;
        }
        proof {
            assert(all.take(self.commands.len() as int) =~= all);
        }
        out
    }
}

impl<H: CommandHandler> CommandRegistry<H> {
    /// Runs the command of the name `name`. The handler is given the input
    /// and the context, or a context that says nothing where none is given,
    /// and what it returns is returned as it is. Where no command has the
    /// name, the result says so; that is no fault of the registry.
    pub fn execute(&self, name: &str, input: JsonValue, context: Option<CommandContext>) -> (r:
        CommandResult<JsonValue>)
        ensures
            executed(self.defs(), name@, input, context, r),
            !self.has_name(name@) ==> is_not_found(r, name@),
    {
        match self.position(name) {
            Some(i) => {
                let handed = match context {
                    Some(c) => c,
                    None => CommandContext::default(),
                };
                let r = self.commands[i].execute(input, handed);
                proof {
                    let d = *self.commands@[i as int];
                    assert(pointed(self.commands@)[i as int] == d);
                    assert(self.defs().contains(d));
                    assert(handed_on(context, handed));
                    assert(call_ensures(H::execute, (&d.handler, input, handed), r));
                }
                r
            },
            None => command_not_found(name),
        }
    }

    /// Runs the commands of a batch in request order, one after the other.
    ///
    /// A request without commands fails as a whole and has no outcomes.
    /// Otherwise there is one outcome for each command, in request order,
    /// under the identifier and the name of its command. A command is run
    /// where the batch goes on after failures or no command before it
    /// failed, and its outcome holds what running it gave; every other
    /// command is not run, and its outcome says so. The counts are taken
    /// from the outcomes. The mean confidence is what `mean` makes of the
    /// confidences of the commands that succeeded and stated one; it is
    /// absent where there is none.
    pub fn execute_batch<F: Fn(Vec<Double>) -> Double>(
        &self,
        request: BatchRequest<JsonValue>,
        mean: F,
    ) -> (r: BatchResult<JsonValue>)
        requires
            forall|v: Vec<Double>| v@.len() > 0 ==> call_requires(mean, (v,)),
        ensures
            request.commands@.len() == 0 ==> {
                &&& !r.success
                &&& r.results@.len() == 0
                &&& r.error is Some
                &&& r.error->0.code@ == "INVALID_BATCH_REQUEST"@
                &&& r.error->0.message@ == "Batch request must contain at least one command"@
                &&& r.error->0.suggestion is Some
                &&& r.error->0.suggestion->0@ == "Provide an array of commands to execute"@
                &&& r.error->0.retryable == Some(false)
                &&& r.error->0.details is None
                &&& r.error->0.cause is None
                &&& r.summary.total == 0
                &&& r.summary.succeeded == 0
                &&& r.summary.failed == 0
                &&& r.summary.skipped == 0
                &&& r.summary.average_confidence is None
                &&& r.timing.ended_at is Some
                &&& r.timing.total_ms == Some(0u64)
                &&& r.timing.average_ms is None
            },
            request.commands@.len() > 0 ==> {
                &&& r.error is None
                &&& r.results@.len() == request.commands@.len()
                &&& forall|i: int|
                    0 <= i < r.results@.len() ==> batch_outcome(
                        self.defs(),
                        request.commands@[i],
                        #[trigger] r.results@[i],
                        is_run(r.results@, request.options.continue_on_error, i),
                    )
                &&& !request.options.continue_on_error ==> halted_after_failure(r.results@)
                &&& r.summary.total == r.results@.len()
                &&& r.summary.succeeded == succeeded_count(r.results@)
                &&& r.summary.failed == r.results@.len() - succeeded_count(r.results@)
                &&& r.summary.skipped == 0
                &&& r.summary.average_confidence is Some <==> confidences_stated(r.results@).len()
                    > 0
                &&& r.summary.average_confidence matches Some(m) ==> exists|v: Vec<Double>|
                    v@ == confidences_stated(r.results@) && #[trigger] call_ensures(mean, (v,), m)
                &&& r.success == (r.summary.failed == 0)
                &&& r.timing.ended_at is Some
                &&& r.timing.total_ms is Some
                &&& r.timing.average_ms == Some(
                    (r.timing.total_ms->0 as nat / r.results@.len()) as u64,
                )
            },
    {
        let clock = clock_start();
        let started_at = timestamp_now();
        if request.commands.len() == 0 {
            return empty_batch_result(started_at, timestamp_now());
        }
        let BatchRequest { commands, options, context: _ } = request;
        let ghost asked = commands@;
        let ghost defs = self.defs();
        let total = commands.len();
        let mut run: BatchRun<JsonValue> = BatchRun::new(&options);
        let mut rest = reversed(commands);
        let mut done: usize = 0;
        while done < total
            invariant
                done <= total,
                total == asked.len(),
                defs == self.defs(),
                rest@.len() == total - done,
                forall|k: int| 0 <= k < rest@.len() ==> rest@[k] == asked[total - 1 - k],
                run.well_formed(),
                run.continue_on_error == options.continue_on_error,
                run.results@.len() == done,
                forall|i: int|
                    0 <= i < done ==> batch_outcome(
                        defs,
                        asked[i],
                        #[trigger] run.results@[i],
                        is_run(run.results@, options.continue_on_error, i),
                    ),
            decreases total - done,
        {
            let item = rest.pop().unwrap();
            let BatchCommand { id, command, input, tags: _, priority: _ } = item;
            let ghost before = run.results@;
            proof {
                assert(item == asked[done as int]);
            }
            if run.admits() {
                let started = clock_start();
                let result = self.execute(command.as_str(), input, None);
                let duration_ms = elapsed_ms(&started);
                run.record(id, command, result, duration_ms);
                proof {
                    lemma_no_failure_runs(before, options.continue_on_error);
                    lemma_is_run_prefix(
                        before,
                        run.results@,
                        options.continue_on_error,
                        done as int,
                    );
                    let outcome = run.results@[done as int];
                    assert(outcome == run.results@.last());
                    assert(batch_outcome(defs, item, outcome, true)) by {
                        reveal(batch_outcome);
                    }
                }
            } else {
                run.skip(id, command);
                proof {
                    lemma_failure_stops(before, done as int);
                    lemma_is_run_prefix(
                        before,
                        run.results@,
                        options.continue_on_error,
                        done as int,
                    );
                    let outcome = run.results@[done as int];
                    assert(outcome == run.results@.last());
                    assert(batch_outcome(defs, item, outcome, false)) by {
                        reveal(batch_outcome);
                    }
                }
            }
            proof {
                lemma_batch_step(
                    defs,
                    asked,
                    before,
                    run.results@,
                    options.continue_on_error,
                    done as int,
                );
            }
            done += 1;
        }
        let total_ms = elapsed_ms(&clock);
        let ended_at = timestamp_now();
        let stated = successful_confidences(run.results.as_slice());
        let ghost given = stated;
        let average = if stated.len() > 0 {
            let m = mean(stated);
            proof {
                assert(given@ == confidences_stated(run.results@) && call_ensures(
                    mean,
                    (given,),
                    m,
                ));
            }
            Some(m)
        } else {
            None
        };
        let ghost outcomes = run.results@;
        let r = run.finish(started_at, ended_at, total_ms, average);
        proof {
            assert(r.results@ == outcomes);
            assert(r.summary.average_confidence is Some <==> confidences_stated(outcomes).len()
                > 0);
            if r.summary.average_confidence is Some {
                assert(given@ == confidences_stated(outcomes) && call_ensures(
                    mean,
                    (given,),
                    r.summary.average_confidence->0,
                ));
            }
            assert forall|i: int| 0 <= i < outcomes.len() implies batch_outcome(
                defs,
                asked[i],
                #[trigger] outcomes[i],
                is_run(outcomes, options.continue_on_error, i),
            ) by {}
        }
        r
    }
}

/// `cx` is the context in which the step at the place `i` of a pipeline is
/// looked at: it holds the input of the pipeline and the outcomes before
/// that place, and names the last of them as the step before.
pub open spec fn context_at(
    cx: PipelineContext,
    input: Option<JsonValue>,
    steps: Seq<StepResult>,
    i: int,
) -> bool {
    &&& cx.pipeline_input == input
    &&& cx.steps@ == steps.take(i)
    &&& i == 0 ==> cx.previous_result is None
    &&& i > 0 ==> cx.previous_result is Some && value_view(cx.previous_result->0.data)
        == value_view(steps[i - 1].data)
}

/// What a step hands to its command in a context: its input with the
/// references in it resolved, or `null` where it has none.
pub open spec fn step_input(step: PipelineStep, cx: PipelineContext) -> Json {
    match step.input {
        Some(x) => resolved_tree(x@, cx),
        None => Json::Null,
    }
}

/// The outcome holds what the command returned: it is a success or a
/// failure as the result is, and keeps its data, its error and what it says
/// of its answer.
pub open spec fn outcome_holds(outcome: StepResult, result: CommandResult<JsonValue>) -> bool {
    &&& outcome.status == if result.success {
        StepStatus::Success
    } else {
        StepStatus::Failure
    }
    &&& outcome.data == result.data
    &&& outcome.error == result.error
    &&& outcome.metadata is Some
    &&& outcome.metadata->0.confidence == result.confidence
    &&& outcome.metadata->0.reasoning == result.reasoning
    &&& outcome.metadata->0.sources == result.sources
    &&& outcome.metadata->0.warnings == result.warnings
    &&& outcome.metadata->0.alternatives == result.alternatives
}

/// The outcome is that of the step at the place `i`, looked at in the
/// context `cx`, in a pipeline over the commands `defs`. It names the step.
/// Where the step runs in that context, it holds what running the command
/// of the step gave on the input of the step, resolved in that context, and
/// a context that says nothing. Where the step does not run, it is the
/// outcome of a step left out.
#[verifier::opaque]
pub open spec fn step_settled<H: CommandHandler>(
    defs: Seq<CommandDefinition<H>>,
    step: PipelineStep,
    i: int,
    cx: PipelineContext,
    outcome: StepResult,
) -> bool {
    &&& outcome.index == i
    &&& outcome.command@ == step.command@
    &&& text(outcome.alias) == text(step.alias)
    &&& if runs(step, cx) {
        exists|handed: JsonValue, result: CommandResult<JsonValue>|
            handed@ == step_input(step, cx) && outcome_holds(outcome, result)
                && #[trigger] executed(defs, step.command@, handed, None, result)
    } else {
        is_skipped_step(outcome, outcome.index, step)
    }
}

/// The outcome at the place `i` is that of the step at that place, looked
/// at in a context of the outcomes before it.
pub open spec fn settled_at<H: CommandHandler>(
    defs: Seq<CommandDefinition<H>>,
    input: Option<JsonValue>,
    asked: Seq<PipelineStep>,
    steps: Seq<StepResult>,
    i: int,
) -> bool {
    exists|cx: PipelineContext| #[trigger]
        context_at(cx, input, steps, i) && step_settled(defs, asked[i], i, cx, steps[i])
}

/// What is settled of an outcome stays so when more outcomes follow.
pub proof fn lemma_settled_stays<H: CommandHandler>(
    defs: Seq<CommandDefinition<H>>,
    input: Option<JsonValue>,
    asked: Seq<PipelineStep>,
    before: Seq<StepResult>,
    after: Seq<StepResult>,
    i: int,
)
    requires
        0 <= i < before.len() <= after.len(),
        forall|k: int| 0 <= k < before.len() ==> after[k] == before[k],
        settled_at(defs, input, asked, before, i),
    ensures
        settled_at(defs, input, asked, after, i),
{
    let cx = choose|cx: PipelineContext| #[trigger]
        context_at(cx, input, before, i) && step_settled(defs, asked[i], i, cx, before[i]);
    assert(after.take(i) =~= before.take(i));
    assert(context_at(cx, input, after, i));
    assert(after[i] == before[i]);
}

/// One more outcome that is settled keeps all outcomes settled.
pub proof fn lemma_pipeline_step<H: CommandHandler>(
    defs: Seq<CommandDefinition<H>>,
    input: Option<JsonValue>,
    asked: Seq<PipelineStep>,
    before: Seq<StepResult>,
    after: Seq<StepResult>,
    cx: PipelineContext,
)
    requires
        after.len() == before.len() + 1,
        before.len() < asked.len(),
        forall|k: int| 0 <= k < before.len() ==> after[k] == before[k],
        forall|k: int| 0 <= k < before.len() ==> #[trigger] settled_at(defs, input, asked, before, k),
        context_at(cx, input, after, before.len() as int),
        step_settled(defs, asked[before.len() as int], before.len() as int, cx, after.last()),
    ensures
        forall|k: int| 0 <= k < after.len() ==> #[trigger] settled_at(defs, input, asked, after, k),
{
    assert forall|k: int| 0 <= k < after.len() implies #[trigger] settled_at(
        defs,
        input,
        asked,
        after,
        k,
    ) by {
        if k < before.len() {
            lemma_settled_stays(defs, input, asked, before, after, k);
        } else {
            assert(after[k] == after.last());
        }
    }
}

impl<H: CommandHandler> CommandRegistry<H> {
    /// Runs the steps of a pipeline in the order in which they are
    /// written.
    ///
    /// A step whose condition does not hold is taken down as skipped. A
    /// step that runs has the references in its input resolved against the
    /// outcomes before it; a step without input hands `null` to its command.
    /// After a step that failed, a pipeline that is not to go on runs no
    /// further step, and the steps it did not reach have no outcome. The
    /// result holds the data of the last step that succeeded and what the
    /// steps say together.
    pub fn execute_pipeline(&self, request: &PipelineRequest, input: Option<JsonValue>) -> (r:
        PipelineResult<Option<JsonValue>>)
        ensures
            r.steps@.len() <= request.steps@.len(),
            forall|i: int|
                0 <= i < r.steps@.len() ==> (#[trigger] r.steps@[i]).index == i
                    && r.steps@[i].command@ == request.steps@[i].command@,
            (request.options matches Some(o) && o.continue_on_failure == Some(true))
                ==> r.steps@.len() == request.steps@.len(),
            !(request.options matches Some(o) && o.continue_on_failure == Some(true)) ==> {
                &&& forall|i: int|
                    0 <= i < r.steps@.len() - 1 ==> (#[trigger] r.steps@[i]).status
                        != StepStatus::Failure
                &&& r.steps@.len() < request.steps@.len() ==> r.steps@.len() > 0
                    && r.steps@.last().status == StepStatus::Failure
            },
            forall|i: int|
                0 <= i < r.steps@.len() ==> #[trigger] settled_at(
                    self.defs(),
                    input,
                    request.steps@,
                    r.steps@,
                    i,
                ),
            crate::path::value_view(r.data) == last_success_data(r.steps@),
            r.metadata.confidence == pipeline_confidence(r.steps@),
            r.metadata.confidence_breakdown.deep_view() == gather(
                r.steps@,
                |s: StepResult| confidence_of(s, Some(request.steps@)),
            ),
            r.metadata.reasoning.deep_view() == gather(r.steps@, |s: StepResult| reasoning_of(s)),
            r.metadata.warnings.deep_view() == gather(r.steps@, |s: StepResult| warnings_of(s)),
            r.metadata.sources.deep_view() == gather(r.steps@, |s: StepResult| sources_of(s)),
            r.metadata.alternatives.deep_view() == gather(
                r.steps@,
                |s: StepResult| alternatives_of(s),
            ),
            r.metadata.execution_time_ms == capped(total_time(r.steps@), u64::MAX as nat),
            r.metadata.completed_steps == capped(success_count(r.steps@), u32::MAX as nat),
            r.metadata.total_steps == capped(request.steps@.len(), u32::MAX as nat),
    {
        let ghost defs = self.defs();
        let mut run = PipelineRun::new(input, &request.options);
        let mut i: usize = 0;
        while i < request.steps.len() && run.admits()
            invariant
                i <= request.steps.len(),
                defs == self.defs(),
                run.well_formed(),
                run.context.pipeline_input == input,
                run.continue_on_failure <==> (request.options matches Some(o)
                    && o.continue_on_failure == Some(true)),
                run.context.steps@.len() == i,
                forall|k: int|
                    0 <= k < i ==> (#[trigger] run.context.steps@[k]).command@
                        == request.steps@[k].command@,
                forall|k: int|
                    0 <= k < i ==> #[trigger] settled_at(
                        defs,
                        input,
                        request.steps@,
                        run.context.steps@,
                        k,
                    ),
            decreases request.steps.len() - i,
        {
            let step = &request.steps[i];
            let ghost before = run.context.steps@;
            let ghost cx = run.context;
            match plan_step(step, i, &run.context) {
                StepPlan::Skip(outcome) => {
                    proof {
                        assert(step_settled(defs, *step, i as int, cx, outcome)) by {
                            reveal(step_settled);
                        }
                    }
                    run.record(outcome);
                },
                StepPlan::Run { command, input: resolved } => {
                    let started = clock_start();
                    let handed = match resolved {
                        Some(v) => v,
                        None => JsonValue::Null,
                    };
                    let result = self.execute(command.as_str(), handed, None);
                    let elapsed = elapsed_ms(&started);
                    let outcome = step_outcome(step, i, result, elapsed);
                    proof {
                        assert(step_settled(defs, *step, i as int, cx, outcome)) by {
                            reveal(step_settled);
                            assert(handed@ == step_input(*step, cx));
                            assert(outcome_holds(outcome, result));
                            assert(executed(defs, step.command@, handed, None, result));
                        }
                    }
                    run.record(outcome);
                },
            }
            proof {
                let after = run.context.steps@;
                assert(after.take(i as int) =~= before);
                assert(context_at(cx, input, after, i as int));
                lemma_pipeline_step(defs, input, request.steps@, before, after, cx);
                assert forall|k: int| 0 <= k < i + 1 implies (
                #[trigger] run.context.steps@[k]).command@ == request.steps@[k].command@ by {
                    if k < i {
                        assert(run.context.steps@[k] == before[k]);
                    }
                }
            }
            i += 1;
        }
        proof {
            if i < request.steps.len() {
                let steps = run.context.steps@;
                let k = choose|k: int|
                    0 <= k < steps.len() && (#[trigger] steps[k]).status == StepStatus::Failure;
                assert(k == steps.len() - 1);
            }
        }
        run.finish(request.steps.as_slice())
    }
}

impl<H> Default for CommandRegistry<H> {
    fn default() -> (r: CommandRegistry<H>)
        ensures
            r.defs().len() == 0,
    {
        CommandRegistry::new()
    }
}

/// A registry without commands.
pub fn create_command_registry<H>() -> (r: CommandRegistry<H>)
    ensures
        r.defs().len() == 0,
{
    CommandRegistry::new()
}

/// A command as a tool of the Model Context Protocol.
#[derive(Debug, Clone)]
pub struct McpTool {
    pub name: String,
    pub description: String,
    pub input_schema: McpInputSchema,
}

/// The schema of the input of a tool: an object with a property for each
/// parameter.
#[derive(Debug, Clone)]
pub struct McpInputSchema {
    /// Always `object`.
    pub schema_type: String,
    /// The schema of each parameter, by its name.
    pub properties: SchemaMap,
    /// The names of the parameters that must be given.
    pub required: Vec<String>,
}

/// The schema describes the parameter: it is the schema of the parameter
/// where that has one, else it states the type, the description, the
/// default and the allowed values of the parameter and nothing more.
pub open spec fn describes(schema: JsonSchema, parameter: CommandParameter) -> bool {
    match parameter.schema {
        Some(own) => schema.agrees(own),
        None => {
            &&& schema.schema_type == Some(parameter.param_type)
            &&& text(schema.description) == Some(parameter.description@)
            &&& value_view(schema.default) == value_view(parameter.default)
            &&& values(schema.enum_values) == values(parameter.enum_values)
            &&& schema.required is None
            &&& schema.items is None
            &&& schema.properties is None
            &&& schema.additional_properties is None
            &&& schema.minimum is None
            &&& schema.maximum is None
            &&& schema.min_length is None
            &&& schema.max_length is None
            &&& schema.pattern is None
            &&& schema.format is None
        },
    }
}

/// The names of the parameters that must be given, in order.
pub open spec fn required_names(parameters: Seq<CommandParameter>) -> Seq<Seq<char>>
    decreases parameters.len(),
{
    if parameters.len() == 0 {
        Seq::empty()
    } else if parameters.last().required {
        required_names(parameters.drop_last()).push(parameters.last().name@)
    } else {
        required_names(parameters.drop_last())
    }
}

/// The tool stands for the command: it has its name and its description,
/// and an object schema with one property for each parameter, in order,
/// and the names of the parameters that must be given.
pub open spec fn stands_for<H>(tool: McpTool, command: CommandDefinition<H>) -> bool {
    &&& tool.name@ == command.name@
    &&& tool.description@ == command.description@
    &&& tool.input_schema.schema_type@ == "object"@
    &&& tool.input_schema.properties.entries@.len() == command.parameters@.len()
    &&& forall|i: int|
        0 <= i < command.parameters@.len() ==> (
        #[trigger] tool.input_schema.properties.entries@[i]).name@
            == command.parameters@[i].name@ && describes(
            tool.input_schema.properties.entries@[i].schema,
            command.parameters@[i],
        )
    &&& tool.input_schema.required.deep_view() == required_names(command.parameters@)
}

/// The tool that stands for a command: its name, its description, and an
/// object schema with one property for each parameter.
pub fn command_to_mcp_tool<H>(command: &CommandDefinition<H>) -> (r: McpTool)
    ensures
        stands_for(r, *command),
{
    let parameters = &command.parameters;
    let mut properties: Vec<SchemaProperty> = Vec::new();
    let mut required: Vec<String> = Vec::new();
    let mut i: usize = 0;
    proof {
        assert(parameters@.take(0) =~= Seq::<CommandParameter>::empty());
        assert(required.deep_view() =~= required_names(parameters@.take(0)));
    }
    while i < parameters.len()
        invariant
            i <= parameters.len(),
            properties@.len() == i,
            forall|j: int|
                0 <= j < i ==> (#[trigger] properties@[j]).name@ == parameters@[j].name@
                    && describes(properties@[j].schema, parameters@[j]),
            required.deep_view() == required_names(parameters@.take(i as int)),
        decreases parameters.len() - i,
    {
        let parameter = &parameters[i];
        proof {
            assert(parameters@.take(i + 1).drop_last() =~= parameters@.take(i as int));
            assert(parameters@.take(i + 1).last() == parameters@[i as int]);
        }
        let schema = match &parameter.schema {
            Some(own) => own.clone(),
            None => JsonSchema {
                schema_type: Some(parameter.param_type),
                description: Some(parameter.description.clone()),
                required: None,
                default: crate::pipeline::clone_data(&parameter.default),
                enum_values: copy_values(&parameter.enum_values),
                items: None,
                properties: None,
                additional_properties: None,
                minimum: None,
                maximum: None,
                min_length: None,
                max_length: None,
                pattern: None,
                format: None,
            },
        };
        properties.push(SchemaProperty { name: parameter.name.clone(), schema });
        if parameter.required {
            let ghost before = required.deep_view();
            required.push(parameter.name.clone());
            proof {
                assert(required.deep_view() =~= before.push(parameter.name@));
            }
        }
        i += 1;
    }
    proof {
        assert(parameters@.take(parameters.len() as int) =~= parameters@);
    }
    McpTool {
        name: command.name.clone(),
        description: command.description.clone(),
        input_schema: McpInputSchema {
            schema_type: String::from_str("object"),
            properties: SchemaMap { entries: properties },
            required,
        },
    }
}

} // verus!
