//! Pipelines: commands in a chain, each fed from the results before it.

use vstd::prelude::*;
use crate::errors::CommandError;
use crate::json::entries_view;
use crate::json::items_view;
use crate::json::Json;
use crate::json::JsonEntry;
use crate::json::JsonMap;
use crate::json::JsonValue;
use crate::metadata::Alternative;
use crate::metadata::Source;
use crate::metadata::Warning;
use crate::number::Double;
use crate::number::INFINITY_BITS;
use crate::number::ONE_BITS;
use crate::path::captures_view;
use crate::path::decimal_value;
use crate::path::first_dot;
use crate::path::get_nested_value;
use crate::path::lemma_first_dot_is;
use crate::path::nested_value;
use crate::path::parse_index;
use crate::path::value_view;
use crate::result::CommandResult;
use crate::result::ResultMetadata;
use crate::text::chars_of;
use crate::text::has_prefix;
use crate::text::starts_with;
use crate::text::str_eq;

verus! {

/// A request to run a chain of commands.
#[derive(Debug, Clone, PartialEq)]
pub struct PipelineRequest {
    /// An identifier for this run.
    pub id: Option<String>,
    /// The steps, in the order in which they run.
    pub steps: Vec<PipelineStep>,
    /// Options for the whole pipeline.
    pub options: Option<PipelineOptions>,
}

/// One step of a pipeline.
#[derive(Debug, Clone, PartialEq)]
pub struct PipelineStep {
    /// The name of the command to run.
    pub command: String,
    /// The input of the command. Strings that begin with `$` refer to the
    /// results of earlier steps.
    pub input: Option<JsonValue>,
    /// A name by which later steps can refer to this one.
    pub alias: Option<String>,
    /// The step runs only where this condition holds.
    pub when: Option<PipelineCondition>,
    /// Whether the step reports its progress in chunks.
    pub stream: Option<bool>,
}

/// Options for running a pipeline.
#[derive(Debug, Clone, PartialEq)]
pub struct PipelineOptions {
    /// Whether to go on after a step has failed.
    pub continue_on_failure: Option<bool>,
    /// A time limit for the whole pipeline, in milliseconds.
    pub timeout_ms: Option<u64>,
    /// Whether independent steps may run side by side.
    pub parallel: Option<bool>,
}

impl Default for PipelineOptions {
    fn default() -> (r: PipelineOptions)
        ensures
            r.continue_on_failure is None,
            r.timeout_ms is None,
            r.parallel is None,
    {
        PipelineOptions { continue_on_failure: None, timeout_ms: None, parallel: None }
    }
}

/// A condition on the results so far.
#[derive(Debug, PartialEq)]
pub enum PipelineCondition {
    /// The reference resolves to a value that is not `null`.
    Exists { exists: String },
    /// The reference resolves to the given value.
    Eq { eq: (String, JsonValue) },
    /// The reference does not resolve to the given value.
    Ne { ne: (String, JsonValue) },
    /// The reference resolves to a number above the threshold.
    Gt { gt: (String, Double) },
    /// The reference resolves to a number at or above the threshold.
    Gte { gte: (String, Double) },
    /// The reference resolves to a number below the threshold.
    Lt { lt: (String, Double) },
    /// The reference resolves to a number at or below the threshold.
    Lte { lte: (String, Double) },
    /// All of the conditions hold.
    And { and: Vec<PipelineCondition> },
    /// One of the conditions holds.
    Or { or: Vec<PipelineCondition> },
    /// The condition does not hold.
    Not { not: Box<PipelineCondition> },
}

/// What became of a step.
#[derive(Debug, Clone, Copy, PartialEq, Eq, Structural)]
pub enum StepStatus {
    /// The command succeeded.
    Success,
    /// The command failed.
    Failure,
    /// The condition of the step did not hold.
    Skipped,
}

/// What a step said about its answer.
#[derive(Debug, Clone, PartialEq)]
pub struct StepMetadata {
    pub confidence: Option<Double>,
    pub reasoning: Option<String>,
    pub sources: Option<Vec<Source>>,
    pub warnings: Option<Vec<Warning>>,
    pub alternatives: Option<Vec<Alternative<JsonValue>>>,
}

impl Default for StepMetadata {
    fn default() -> (r: StepMetadata)
        ensures
            r.confidence is None,
            r.reasoning is None,
            r.sources is None,
            r.warnings is None,
            r.alternatives is None,
    {
        StepMetadata {
            confidence: None,
            reasoning: None,
            sources: None,
            warnings: None,
            alternatives: None,
        }
    }
}

/// The outcome of one step.
#[derive(Debug, Clone, PartialEq)]
pub struct StepResult {
    /// The place of the step in the pipeline, from zero.
    pub index: usize,
    /// The alias of the step.
    pub alias: Option<String>,
    /// The command that ran.
    pub command: String,
    /// What became of the step.
    pub status: StepStatus,
    /// The answer of a step that succeeded.
    pub data: Option<JsonValue>,
    /// The error of a step that failed.
    pub error: Option<CommandError>,
    /// How long the step took, in milliseconds.
    pub execution_time_ms: u64,
    /// What the step said about its answer.
    pub metadata: Option<StepMetadata>,
}

/// The confidence of one step.
#[derive(Debug, Clone, PartialEq)]
pub struct StepConfidence {
    pub step: usize,
    pub alias: Option<String>,
    pub command: String,
    pub confidence: Double,
    pub reasoning: Option<String>,
}

/// The reasoning of one step.
#[derive(Debug, Clone, PartialEq)]
pub struct StepReasoning {
    pub step_index: usize,
    pub command: String,
    pub reasoning: String,
}

/// A warning, with the step that gave it.
#[derive(Debug, Clone, PartialEq)]
pub struct PipelineWarning {
    pub code: String,
    pub message: String,
    pub step_index: usize,
    pub step_alias: Option<String>,
}

/// A source, with the step that used it.
#[derive(Debug, Clone, PartialEq)]
pub struct PipelineSource {
    pub name: String,
    pub step_index: usize,
    pub url: Option<String>,
}

/// An alternative, with the step that offered it.
#[derive(Debug, Clone, PartialEq)]
pub struct PipelineAlternative {
    pub data: JsonValue,
    pub reason: String,
    pub step_index: usize,
    pub confidence: Option<Double>,
}

/// What the steps of a pipeline say together.
#[derive(Debug, Clone, PartialEq)]
pub struct PipelineMetadata {
    /// The least confidence of the steps that succeeded.
    pub confidence: Double,
    /// The confidence of each step that succeeded.
    pub confidence_breakdown: Vec<StepConfidence>,
    /// The reasoning of the steps.
    pub reasoning: Vec<StepReasoning>,
    /// The warnings of all steps.
    pub warnings: Vec<PipelineWarning>,
    /// The sources of all steps.
    pub sources: Vec<PipelineSource>,
    /// The alternatives of all steps.
    pub alternatives: Vec<PipelineAlternative>,
    /// The time all steps took together, in milliseconds.
    pub execution_time_ms: u64,
    /// How many steps succeeded.
    pub completed_steps: u32,
    /// How many steps the pipeline has.
    pub total_steps: u32,
    /// Anything else.
    pub result_metadata: Option<ResultMetadata>,
}

impl Default for PipelineMetadata {
    fn default() -> (r: PipelineMetadata)
        ensures
            r.confidence.bits == ONE_BITS,
            r.confidence_breakdown@.len() == 0,
            r.reasoning@.len() == 0,
            r.warnings@.len() == 0,
            r.sources@.len() == 0,
            r.alternatives@.len() == 0,
            r.execution_time_ms == 0,
            r.completed_steps == 0,
            r.total_steps == 0,
            r.result_metadata is None,
    {
        PipelineMetadata {
            confidence: Double::one(),
            confidence_breakdown: Vec::new(),
            reasoning: Vec::new(),
            warnings: Vec::new(),
            sources: Vec::new(),
            alternatives: Vec::new(),
            execution_time_ms: 0,
            completed_steps: 0,
            total_steps: 0,
            result_metadata: None,
        }
    }
}

/// The outcome of a pipeline.
#[derive(Debug, Clone, PartialEq)]
pub struct PipelineResult<T> {
    /// The answer of the last step that succeeded.
    pub data: T,
    /// What the steps say together.
    pub metadata: PipelineMetadata,
    /// The outcome of each step.
    pub steps: Vec<StepResult>,
}

/// What later steps can refer to.
#[derive(Debug, Clone)]
pub struct PipelineContext {
    /// The input of the pipeline.
    pub pipeline_input: Option<JsonValue>,
    /// The outcome of the step before.
    pub previous_result: Option<StepResult>,
    /// The outcomes of all steps so far.
    pub steps: Vec<StepResult>,
}

impl Default for PipelineContext {
    fn default() -> (r: PipelineContext)
        ensures
            r.pipeline_input is None,
            r.previous_result is None,
            r.steps@.len() == 0,
    {
        PipelineContext { pipeline_input: None, previous_result: None, steps: Vec::new() }
    }
}

/// A request for the given steps, without an identifier.
pub fn create_pipeline(steps: Vec<PipelineStep>, options: Option<PipelineOptions>) -> (r:
    PipelineRequest)
    ensures
        r.id is None,
        r.steps == steps,
        r.options == options,
{
    PipelineRequest { id: None, steps, options }
}

/// Whether a document has the shape of a pipeline step: an object whose
/// `command` is a string.
pub fn is_pipeline_step(value: &JsonValue) -> (r: bool)
    ensures
        r <==> (value@.member("command"@) matches Some(c) && c is String),
{
    match value.get("command") {
        Some(command) => command.is_string(),
        None => false,
    }
}

/// Whether a document has the shape of a pipeline request: an object whose
/// `steps` is an array of steps.
pub fn is_pipeline_request(value: &JsonValue) -> (r: bool)
    ensures
        r <==> (value@.member("steps"@) matches Some(Json::Array(items)) && forall|i: int|
            0 <= i < items.len() ==> (#[trigger] items[i].member("command"@) matches Some(c)
                && c is String)),
{
    match value.get("steps") {
        Some(JsonValue::Array(items)) => {
            let ghost steps = JsonValue::Array(*items);
            assert(steps@ == Json::Array(crate::json::items_view(items@)));
            let mut i: usize = 0;
            while i < items.len()
                invariant
                    i <= items.len(),
                    value@.member("steps"@) == Some(Json::Array(crate::json::items_view(items@))),
                    forall|j: int|
                        0 <= j < i ==> ((#[trigger] items@[j])@.member("command"@) matches Some(c)
                            && c is String),
                decreases items.len() - i,
            {
                if !is_pipeline_step(&items[i]) {
                    assert(crate::json::items_view(items@)[i as int] == items@[i as int]@);
                    return false;
                }
                i += 1;
            }
            assert forall|j: int| 0 <= j < crate::json::items_view(items@).len() implies (
            #[trigger] crate::json::items_view(items@)[j].member("command"@) matches Some(c)
                && c is String) by {
                assert(crate::json::items_view(items@)[j] == items@[j]@);
            }
            true
        },
        Some(other) => {
            assert(!(other@ is Array));
            false
        },
        None => false,
    }
}

/// Whether a document has the shape of a pipeline result: an object with
/// `data`, `metadata` and an array `steps`.
pub fn is_pipeline_result(value: &JsonValue) -> (r: bool)
    ensures
        r == (value@.member("data"@) is Some && value@.member("metadata"@) is Some && (
        value@.member("steps"@) matches Some(s) && s is Array)),
{
    let has_steps = match value.get("steps") {
        Some(steps) => steps.is_array(),
        None => false,
    };
    value.get("data").is_some() && value.get("metadata").is_some() && has_steps
}

/// The data of the step before.
pub open spec fn prev_data(cx: PipelineContext) -> Option<Json> {
    match cx.previous_result {
        Some(step) => value_view(step.data),
        None => None,
    }
}

/// The data of the first step.
pub open spec fn first_data(cx: PipelineContext) -> Option<Json> {
    if cx.steps@.len() > 0 {
        value_view(cx.steps@[0].data)
    } else {
        None
    }
}

/// The value at `path` under `data`, where there is data.
pub open spec fn under(data: Option<Json>, path: Seq<char>) -> Option<Json> {
    match data {
        Some(d) => nested_value(d, path),
        None => None,
    }
}

/// The step has the alias `alias`.
pub open spec fn has_alias(step: StepResult, alias: Seq<char>) -> bool {
    step.alias matches Some(a) && a@ == alias
}

/// `i` is the place of the first step with the alias `alias`.
pub open spec fn is_first_alias(steps: Seq<StepResult>, alias: Seq<char>, i: int) -> bool {
    &&& 0 <= i < steps.len()
    &&& has_alias(steps[i], alias)
    &&& forall|j: int| 0 <= j < i ==> !has_alias(#[trigger] steps[j], alias)
}

/// The place of the first step with the alias `alias`.
pub open spec fn find_alias(steps: Seq<StepResult>, alias: Seq<char>) -> Option<int> {
    if exists|i: int| is_first_alias(steps, alias, i) {
        Some(choose|i: int| is_first_alias(steps, alias, i))
    } else {
        None
    }
}

/// What a reference to a step by its place resolves to: `digits` write the
/// place, `rest` is what follows the closing bracket.
pub open spec fn indexed_step(digits: Seq<char>, rest: Seq<char>, cx: PipelineContext) -> Option<
    Json,
> {
    match decimal_value(digits) {
        Some(n) => if n < cx.steps@.len() {
            let data = value_view(cx.steps@[n as int].data);
            if rest.len() > 0 && rest[0] == '.' {
                under(data, rest.skip(1))
            } else {
                data
            }
        } else {
            None
        },
        None => None,
    }
}

/// What a reference to a step by its alias resolves to: `rest` is the alias
/// and, after a dot, a path.
pub open spec fn aliased_step(rest: Seq<char>, cx: PipelineContext) -> Option<Json> {
    let d = first_dot(rest);
    match find_alias(cx.steps@, rest.take(d)) {
        Some(i) => {
            let data = value_view(cx.steps@[i].data);
            if d < rest.len() {
                under(data, rest.skip(d + 1))
            } else {
                data
            }
        },
        None => None,
    }
}

/// What the pattern `^\$steps\[(\d+)\]` of the regex crate finds at the
/// start of a reference: the digits within the brackets and the text after
/// the closing bracket, or nothing where the reference does not begin so.
pub uninterp spec fn step_reference(reference: Seq<char>) -> Option<(Seq<char>, Seq<char>)>;

/// How many ASCII digits `s` begins with.
pub open spec fn digits_run(s: Seq<char>) -> int
    decreases s.len(),
{
    if s.len() == 0 {
        0
    } else if '0' <= s[0] && s[0] <= '9' {
        1 + digits_run(s.drop_first())
    } else {
        0
    }
}

/// A reference in the plain form `$steps[digits]rest`, with ASCII digits
/// between the brackets: the digits and the rest, or nothing for a
/// reference of another form.
pub open spec fn plain_step_reference(reference: Seq<char>) -> Option<(Seq<char>, Seq<char>)> {
    if starts_with(reference, "$steps["@) {
        let tail = reference.skip(7);
        let k = digits_run(tail);
        if 0 < k && k < tail.len() && tail[k] == ']' {
            Some((tail.take(k), tail.skip(k + 1)))
        } else {
            None
        }
    } else {
        None
    }
}

/// What the step pattern finds at the start of a reference. A reference in
/// the plain form gives its digits and its rest; one that does not begin
/// with `$steps[` gives nothing; of any other the pattern itself decides.
pub open spec fn step_captures(reference: Seq<char>) -> Option<(Seq<char>, Seq<char>)> {
    match plain_step_reference(reference) {
        Some(c) => Some(c),
        None => if !starts_with(reference, "$steps["@) {
            None
        } else {
            step_reference(reference)
        },
    }
}

/// `Regex::captures` of the regex crate with the pattern `^\$steps\[(\d+)\]`.
/// The contract says what the pattern shows. It matches at the start only:
/// a match is `$steps[`, the capture, which is not empty, and a closing
/// bracket, and the text after it is the rest; a reference that does not
/// begin with `$steps[` has none. ASCII digits are digits and a bracket is
/// none, so a reference in the plain form is matched, with the digits
/// before the first closing bracket as the capture. For every other
/// reference the contract names the result.
#[verifier::external_body]
pub(crate) fn match_step_reference(reference: &str) -> (r: Option<(String, String)>)
    ensures
        captures_view(r) == match plain_step_reference(reference@) {
            Some(c) => Some(c),
            None => if !starts_with(reference@, "$steps["@) {
                None
            } else {
                step_reference(reference@)
            },
        },
        r matches Some(c) ==> reference@ == "$steps["@ + c.0@ + seq![']'] + c.1@ && c.0@.len()
            > 0,
{
    let re = regex::Regex::new(r"^\$steps\[(\d+)\]").ok()?;
    let caps = re.captures(reference)?;
    Some((caps.get(1)?.as_str().to_string(), reference[caps.get(0)?.end()..].to_string()))
}

/// What a reference resolves to in a context.
///
/// Text that does not begin with `$` stands for itself. `$prev`, `$first`
/// and `$input` are the data of the step before, of the first step, and the
/// input of the pipeline; `$steps[2]` and `$steps.name` are the data of the
/// step at a place and of the first step with an alias. Each may go on with
/// a dot and a path into that data. Nothing is found where the step, its
/// data or the path is missing.
pub open spec fn resolved(reference: Seq<char>, cx: PipelineContext) -> Option<Json> {
    if !starts_with(reference, "$"@) {
        Some(Json::String(reference))
    } else if reference == "$prev"@ {
        prev_data(cx)
    } else if reference == "$first"@ {
        first_data(cx)
    } else if reference == "$input"@ {
        value_view(cx.pipeline_input)
    } else if starts_with(reference, "$steps["@) && step_captures(reference) is Some {
        match step_captures(reference) {
            Some((digits, rest)) => indexed_step(digits, rest, cx),
            None => None,
        }
    } else if starts_with(reference, "$steps."@) {
        aliased_step(reference.skip(7), cx)
    } else if starts_with(reference, "$prev."@) {
        under(prev_data(cx), reference.skip(6))
    } else if starts_with(reference, "$first."@) {
        under(first_data(cx), reference.skip(7))
    } else if starts_with(reference, "$input."@) {
        under(value_view(cx.pipeline_input), reference.skip(7))
    } else {
        None
    }
}

/// A copy of optional data.
pub fn clone_data(data: &Option<JsonValue>) -> (r: Option<JsonValue>)
    ensures
        value_view(r) == value_view(*data),
{
    match data {
        Some(d) => Some(d.clone()),
        None => None,
    }
}

/// The value at `path` under `data`, where there is data.
pub fn nested_in(data: &Option<JsonValue>, path: &str) -> (r: Option<JsonValue>)
    ensures
        value_view(r) == under(value_view(*data), path@),
{
    match data {
        Some(d) => get_nested_value(d, path),
        None => None,
    }
}

/// Resolves a reference to a step by its place, from the digits within the
/// brackets and the text after them.
pub fn resolve_indexed_step(digits: &str, rest: &str, context: &PipelineContext) -> (r: Option<
    JsonValue,
>)
    ensures
        value_view(r) == indexed_step(digits@, rest@, *context),
{
    let written = chars_of(digits);
    let index = match parse_index(&written) {
        Some(n) => n,
        None => {
            proof {
                assert(context.steps.len() == context.steps@.len());
            }
            return None;
        },
    };
    if index >= context.steps.len() {
        return None;
    }
    let step = &context.steps[index];
    let tail = chars_of(rest);
    if tail.len() > 0 && tail[0] == '.' {
        let path = rest.substring_char(1, tail.len());
        proof {
            assert(rest@.subrange(1, tail.len() as int) =~= rest@.skip(1));
        }
        nested_in(&step.data, path)
    } else {
        clone_data(&step.data)
    }
}

/// The place of the first step with the alias `alias`.
pub fn find_step_by_alias(steps: &Vec<StepResult>, alias: &str) -> (r: Option<usize>)
    ensures
        match r {
            Some(i) => find_alias(steps@, alias@) == Some(i as int) && i < steps.len(),
            None => find_alias(steps@, alias@) is None,
        },
{
    let mut i: usize = 0;
    while i < steps.len()
        invariant
            i <= steps.len(),
            forall|j: int| 0 <= j < i ==> !has_alias(#[trigger] steps@[j], alias@),
        decreases steps.len() - i,
    {
        let found = match &steps[i].alias {
            Some(a) => str_eq(a.as_str(), alias),
            None => false,
        };
        if found {
            proof {
                assert(is_first_alias(steps@, alias@, i as int));
                let c = choose|c: int| is_first_alias(steps@, alias@, c);
                if c < i {
                    assert(!has_alias(steps@[c], alias@));
                } else if i < c {
                    assert(!has_alias(steps@[i as int], alias@));
                }
            }
            return Some(i);
        }
        i += 1;
    }
    proof {
        if exists|c: int| is_first_alias(steps@, alias@, c) {
            let c = choose|c: int| is_first_alias(steps@, alias@, c);
            assert(!has_alias(steps@[c], alias@));
        }
    }
    None
}

/// Resolves a reference to a step by its alias, from the text after
/// `$steps.`.
pub fn resolve_aliased_step(rest: &str, context: &PipelineContext) -> (r: Option<JsonValue>)
    ensures
        value_view(r) == aliased_step(rest@, *context),
{
    let chars = chars_of(rest);
    let n = chars.len();
    let mut d: usize = 0;
    while d < n && chars[d] != '.'
        invariant
            d <= n,
            n == chars.len(),
            forall|i: int| 0 <= i < d ==> chars@[i] != '.',
        decreases n - d,
    {
        d += 1;
    }
    proof {
        lemma_first_dot_is(rest@, d as int);
        assert(rest@.subrange(0, d as int) =~= rest@.take(d as int));
    }
    let alias = rest.substring_char(0, d);
    match find_step_by_alias(&context.steps, alias) {
        Some(i) => {
            if d < n {
                let path = rest.substring_char(d + 1, n);
                proof {
                    assert(rest@.subrange(d + 1, n as int) =~= rest@.skip(d + 1));
                }
                nested_in(&context.steps[i].data, path)
            } else {
                clone_data(&context.steps[i].data)
            }
        },
        None => None,
    }
}

/// Resolves one reference: a copy of what it refers to, or nothing where
/// that is missing. Text that does not begin with `$` is returned as a
/// string.
pub fn resolve_variable(reference: &str, context: &PipelineContext) -> (r: Option<JsonValue>)
    ensures
        value_view(r) == resolved(reference@, *context),
{
    proof {
        reveal_strlit("$");
        reveal_strlit("$steps[");
        reveal_strlit("$steps.");
        reveal_strlit("$prev.");
        reveal_strlit("$first.");
        reveal_strlit("$input.");
    }
    let chars = chars_of(reference);
    let n = chars.len();
    if !has_prefix(&chars, &chars_of("$")) {
        return Some(JsonValue::string(reference));
    }
    if str_eq(reference, "$prev") {
        return match &context.previous_result {
            Some(step) => clone_data(&step.data),
            None => None,
        };
    }
    if str_eq(reference, "$first") {
        return if context.steps.len() > 0 {
            clone_data(&context.steps[0].data)
        } else {
            None
        };
    }
    if str_eq(reference, "$input") {
        return clone_data(&context.pipeline_input);
    }
    if has_prefix(&chars, &chars_of("$steps[")) {
        match match_step_reference(reference) {
            Some((digits, rest)) => {
                return resolve_indexed_step(digits.as_str(), rest.as_str(), context);
            },
            None => {},
        }
    }
    if has_prefix(&chars, &chars_of("$steps.")) {
        let rest = reference.substring_char(7, n);
        proof {
            assert(reference@.subrange(7, n as int) =~= reference@.skip(7));
        }
        return resolve_aliased_step(rest, context);
    }
    if has_prefix(&chars, &chars_of("$prev.")) {
        let path = reference.substring_char(6, n);
        proof {
            assert(reference@.subrange(6, n as int) =~= reference@.skip(6));
        }
        return match &context.previous_result {
            Some(step) => nested_in(&step.data, path),
            None => None,
        };
    }
    if has_prefix(&chars, &chars_of("$first.")) {
        let path = reference.substring_char(7, n);
        proof {
            assert(reference@.subrange(7, n as int) =~= reference@.skip(7));
        }
        return if context.steps.len() > 0 {
            nested_in(&context.steps[0].data, path)
        } else {
            None
        };
    }
    if has_prefix(&chars, &chars_of("$input.")) {
        let path = reference.substring_char(7, n);
        proof {
            assert(reference@.subrange(7, n as int) =~= reference@.skip(7));
        }
        return nested_in(&context.pipeline_input, path);
    }
    None
}

/// A document with every reference in it resolved: each string that
/// begins with `$`, at any depth, gives way to what it refers to, or to
/// `null` where that is missing. Everything else stays.
pub open spec fn resolved_tree(input: Json, cx: PipelineContext) -> Json
    decreases input,
{
    match input {
        Json::String(s) => if starts_with(s, "$"@) {
            match resolved(s, cx) {
                Some(v) => v,
                None => Json::Null,
            }
        } else {
            input
        },
        Json::Array(items) => Json::Array(
            Seq::new(
                items.len(),
                |i: int|
                    if 0 <= i < items.len() {
                        resolved_tree(items[i], cx)
                    } else {
                        Json::Null
                    },
            ),
        ),
        Json::Object(members) => Json::Object(
            Map::new(
                |k: Seq<char>| members.dom().contains(k),
                |k: Seq<char>|
                    if members.dom().contains(k) {
                        resolved_tree(members[k], cx)
                    } else {
                        Json::Null
                    },
            ),
        ),
        _ => input,
    }
}

/// Entries resolved one by one stand for the map of the resolved members.
pub proof fn lemma_resolved_entries(a: Seq<JsonEntry>, b: Seq<JsonEntry>, cx: PipelineContext)
    requires
        a.len() == b.len(),
        forall|i: int|
            0 <= i < a.len() ==> (#[trigger] b[i]).key@ == a[i].key@ && b[i].value@
                == resolved_tree(a[i].value@, cx),
    ensures
        Json::Object(entries_view(b)) == resolved_tree(Json::Object(entries_view(a)), cx),
    decreases a.len(),
{
    let ma = entries_view(a);
    let mb = entries_view(b);
    let want = resolved_tree(Json::Object(ma), cx);
    assert(want is Object);
    let wm = want->Object_0;
    assert(wm.dom() =~= ma.dom());
    assert(forall|k: Seq<char>| #[trigger] ma.dom().contains(k) ==> wm[k] == resolved_tree(ma[k], cx));
    if a.len() == 0 {
        assert(ma == Map::<Seq<char>, Json>::empty());
        assert(mb == Map::<Seq<char>, Json>::empty());
        assert(mb =~= wm);
    } else {
        lemma_resolved_entries(a.drop_last(), b.drop_last(), cx);
        let ra = entries_view(a.drop_last());
        let rb = entries_view(b.drop_last());
        let t = resolved_tree(Json::Object(ra), cx);
        assert(t is Object);
        let tm = t->Object_0;
        assert(tm.dom() =~= ra.dom());
        assert(forall|k: Seq<char>| #[trigger] ra.dom().contains(k) ==> tm[k] == resolved_tree(ra[k], cx));
        assert(rb == tm);
        assert(a.last() == a[a.len() - 1]);
        assert(b.last() == b[b.len() - 1]);
        assert(ma == ra.insert(a.last().key@, a.last().value@));
        assert(mb == rb.insert(b.last().key@, b.last().value@));
        assert(mb.dom() =~= wm.dom());
        assert forall|k: Seq<char>| #[trigger] mb.dom().contains(k) implies mb[k] == wm[k] by {
            if k != a.last().key@ {
                assert(ra.dom().contains(k));
            }
        }
        assert(mb =~= wm);
    }
}

/// Replaces every reference in `input` by what it resolves to, or by `null`
/// where that is missing.
pub fn resolve_variables(input: &JsonValue, context: &PipelineContext) -> (r: JsonValue)
    ensures
        r@ == resolved_tree(input@, *context),
    decreases input,
{
    proof {
        reveal_strlit("$");
    }
    match input {
        JsonValue::String(s) => {
            let chars = chars_of(s.as_str());
            if has_prefix(&chars, &chars_of("$")) {
                match resolve_variable(s.as_str(), context) {
                    Some(v) => v,
                    None => JsonValue::Null,
                }
            } else {
                input.clone()
            }
        },
        JsonValue::Array(items) => {
            assert(input@ == Json::Array(items_view(items@)));
            let mut out: Vec<JsonValue> = Vec::new();
            let mut i: usize = 0;
            while i < items.len()
                invariant
                    i <= items.len(),
                    out.len() == i,
                    input is Array,
                    input->Array_0 == items,
                    forall|j: int|
                        0 <= j < i ==> (#[trigger] out@[j])@ == resolved_tree(
                            items@[j]@,
                            *context,
                        ),
                decreases items.len() - i,
            {
                out.push(resolve_variables(&items[i], context));
                i += 1;
            }
            proof {
                let want = resolved_tree(input@, *context);
                assert(want is Array);
                assert(items_view(out@) =~= want->Array_0);
            }
            JsonValue::Array(out)
        },
        JsonValue::Object(map) => {
            assert(input@ == Json::Object(entries_view(map.entries@)));
            let mut out: Vec<JsonEntry> = Vec::new();
            let mut i: usize = 0;
            while i < map.entries.len()
                invariant
                    i <= map.entries.len(),
                    out.len() == i,
                    input is Object,
                    input->Object_0 == map,
                    forall|j: int|
                        0 <= j < i ==> (#[trigger] out@[j]).key@ == map.entries@[j].key@
                            && out@[j].value@ == resolved_tree(
                            map.entries@[j].value@,
                            *context,
                        ),
                decreases map.entries.len() - i,
            {
                let entry = &map.entries[i];
                out.push(
                    JsonEntry {
                        key: entry.key.clone(),
                        value: resolve_variables(&entry.value, context),
                    },
                );
                i += 1;
            }
            proof {
                lemma_resolved_entries(map.entries@, out@, *context);
            }
            JsonValue::Object(JsonMap { entries: out })
        },
        _ => input.clone(),
    }
}

/// Whether a condition holds in a context.
///
/// `Exists` asks for a value that is not `null`. `Eq` and `Ne` compare what
/// the reference resolves to with a value; a reference that resolves to
/// nothing equals no value. The four comparisons take what the reference
/// resolves to as a binary64 number and are false where it is no number.
/// `And` holds where all its conditions do, `Or` where one does, `Not` where
/// its condition does not.
pub open spec fn holds(condition: PipelineCondition, cx: PipelineContext) -> bool
    decreases condition,
{
    match condition {
        PipelineCondition::Exists { exists } => resolved(exists@, cx) matches Some(v) && !(v
            is Null),
        PipelineCondition::Eq { eq } => resolved(eq.0@, cx) == Some(eq.1@),
        PipelineCondition::Ne { ne } => resolved(ne.0@, cx) != Some(ne.1@),
        PipelineCondition::Gt { gt } => number_at(gt.0@, cx) matches Some(n) && gt.1.lt_spec(n),
        PipelineCondition::Gte { gte } => number_at(gte.0@, cx) matches Some(n) && gte.1.le_spec(
            n,
        ),
        PipelineCondition::Lt { lt } => number_at(lt.0@, cx) matches Some(n) && n.lt_spec(lt.1),
        PipelineCondition::Lte { lte } => number_at(lte.0@, cx) matches Some(n) && n.le_spec(
            lte.1,
        ),
        PipelineCondition::And { and } => forall|i: int|
            0 <= i < and@.len() ==> holds(#[trigger] and@[i], cx),
        PipelineCondition::Or { or } => exists|i: int|
            0 <= i < or@.len() && holds(#[trigger] or@[i], cx),
        PipelineCondition::Not { not } => !holds(*not, cx),
    }
}

/// The number that a reference resolves to, where it resolves to one.
pub open spec fn number_at(reference: Seq<char>, cx: PipelineContext) -> Option<Double> {
    match resolved(reference, cx) {
        Some(v) => v.numeric(),
        None => None,
    }
}

/// The number that a reference resolves to, where it resolves to one.
pub fn resolve_number(reference: &str, context: &PipelineContext) -> (r: Option<Double>)
    ensures
        r is Some <==> number_at(reference@, *context) is Some,
        r matches Some(d) ==> d.alike(number_at(reference@, *context)->0),
{
    match resolve_variable(reference, context) {
        Some(v) => v.as_double(),
        None => None,
    }
}

/// Decides whether a condition holds in a context.
pub fn evaluate_condition(condition: &PipelineCondition, context: &PipelineContext) -> (r: bool)
    ensures
        r == holds(*condition, *context),
    decreases condition,
{
    match condition {
        PipelineCondition::Exists { exists } => {
            match resolve_variable(exists.as_str(), context) {
                Some(v) => !v.is_null(),
                None => false,
            }
        },
        PipelineCondition::Eq { eq } => {
            match resolve_variable(eq.0.as_str(), context) {
                Some(v) => v.json_eq(&eq.1),
                None => false,
            }
        },
        PipelineCondition::Ne { ne } => {
            match resolve_variable(ne.0.as_str(), context) {
                Some(v) => !v.json_eq(&ne.1),
                None => true,
            }
        },
        PipelineCondition::Gt { gt } => {
            match resolve_number(gt.0.as_str(), context) {
                Some(n) => n.gt(gt.1),
                None => false,
            }
        },
        PipelineCondition::Gte { gte } => {
            match resolve_number(gte.0.as_str(), context) {
                Some(n) => n.ge(gte.1),
                None => false,
            }
        },
        PipelineCondition::Lt { lt } => {
            match resolve_number(lt.0.as_str(), context) {
                Some(n) => n.lt(lt.1),
                None => false,
            }
        },
        PipelineCondition::Lte { lte } => {
            match resolve_number(lte.0.as_str(), context) {
                Some(n) => n.le(lte.1),
                None => false,
            }
        },
        PipelineCondition::And { and } => {
            let mut i: usize = 0;
            while i < and.len()
                invariant
                    i <= and.len(),
                    condition is And,
                    condition->and == and,
                    forall|j: int| 0 <= j < i ==> holds(#[trigger] and@[j], *context),
                decreases and.len() - i,
            {
                if !evaluate_condition(&and[i], context) {
                    return false;
                }
                i += 1;
            }
            true
        },
        PipelineCondition::Or { or } => {
            let mut i: usize = 0;
            while i < or.len()
                invariant
                    i <= or.len(),
                    condition is Or,
                    condition->or == or,
                    forall|j: int| 0 <= j < i ==> !holds(#[trigger] or@[j], *context),
                decreases or.len() - i,
            {
                if evaluate_condition(&or[i], context) {
                    return true;
                }
                i += 1;
            }
            false
        },
        PipelineCondition::Not { not } => !evaluate_condition(&**not, context),
    }
}

/// Two conditions are written alike: they are of one kind, refer alike,
/// compare with the same values, and the conditions within them are
/// written alike.
pub open spec fn same_condition(a: PipelineCondition, b: PipelineCondition) -> bool
    decreases a,
{
    match (a, b) {
        (PipelineCondition::Exists { exists: x }, PipelineCondition::Exists { exists: y }) => x@
            == y@,
        (PipelineCondition::Eq { eq: x }, PipelineCondition::Eq { eq: y }) => x.0@ == y.0@ && x.1@
            == y.1@,
        (PipelineCondition::Ne { ne: x }, PipelineCondition::Ne { ne: y }) => x.0@ == y.0@ && x.1@
            == y.1@,
        (PipelineCondition::Gt { gt: x }, PipelineCondition::Gt { gt: y }) => x.0@ == y.0@ && x.1
            == y.1,
        (PipelineCondition::Gte { gte: x }, PipelineCondition::Gte { gte: y }) => x.0@ == y.0@
            && x.1 == y.1,
        (PipelineCondition::Lt { lt: x }, PipelineCondition::Lt { lt: y }) => x.0@ == y.0@ && x.1
            == y.1,
        (PipelineCondition::Lte { lte: x }, PipelineCondition::Lte { lte: y }) => x.0@ == y.0@
            && x.1 == y.1,
        (PipelineCondition::And { and: x }, PipelineCondition::And { and: y }) => x@.len()
            == y@.len() && forall|i: int|
            0 <= i < x@.len() ==> same_condition(#[trigger] x@[i], y@[i]),
        (PipelineCondition::Or { or: x }, PipelineCondition::Or { or: y }) => x@.len() == y@.len()
            && forall|i: int| 0 <= i < x@.len() ==> same_condition(#[trigger] x@[i], y@[i]),
        (PipelineCondition::Not { not: x }, PipelineCondition::Not { not: y }) => same_condition(
            *x,
            *y,
        ),
        _ => false,
    }
}

/// Conditions that are written alike hold in the same contexts.
pub proof fn lemma_same_condition_holds(
    a: PipelineCondition,
    b: PipelineCondition,
    cx: PipelineContext,
)
    requires
        same_condition(a, b),
    ensures
        holds(a, cx) == holds(b, cx),
    decreases a,
{
    match (a, b) {
        (PipelineCondition::And { and: x }, PipelineCondition::And { and: y }) => {
            assert forall|i: int| 0 <= i < x@.len() implies holds(#[trigger] x@[i], cx) == holds(
                y@[i],
                cx,
            ) by {
                lemma_same_condition_holds(x@[i], y@[i], cx);
            }
            if holds(a, cx) {
                assert forall|i: int| 0 <= i < y@.len() implies holds(#[trigger] y@[i], cx) by {
                    assert(holds(x@[i], cx));
                }
            }
            if holds(b, cx) {
                assert forall|i: int| 0 <= i < x@.len() implies holds(#[trigger] x@[i], cx) by {
                    assert(holds(y@[i], cx));
                }
            }
        },
        (PipelineCondition::Or { or: x }, PipelineCondition::Or { or: y }) => {
            assert forall|i: int| 0 <= i < x@.len() implies holds(#[trigger] x@[i], cx) == holds(
                y@[i],
                cx,
            ) by {
                lemma_same_condition_holds(x@[i], y@[i], cx);
            }
            if holds(a, cx) {
                let i = choose|i: int| 0 <= i < x@.len() && holds(#[trigger] x@[i], cx);
                assert(holds(y@[i], cx));
            }
            if holds(b, cx) {
                let i = choose|i: int| 0 <= i < y@.len() && holds(#[trigger] y@[i], cx);
                assert(holds(x@[i], cx));
            }
        },
        (PipelineCondition::Not { not: x }, PipelineCondition::Not { not: y }) => {
            lemma_same_condition_holds(*x, *y, cx);
        },
        _ => {},
    }
}

impl Clone for PipelineCondition {
    fn clone(&self) -> (r: Self)
        ensures
            same_condition(r, *self),
        decreases self,
    {
        match self {
            PipelineCondition::Exists { exists } => PipelineCondition::Exists {
                exists: exists.clone(),
            },
            PipelineCondition::Eq { eq } => PipelineCondition::Eq {
                eq: (eq.0.clone(), eq.1.clone()),
            },
            PipelineCondition::Ne { ne } => PipelineCondition::Ne {
                ne: (ne.0.clone(), ne.1.clone()),
            },
            PipelineCondition::Gt { gt } => PipelineCondition::Gt { gt: (gt.0.clone(), gt.1) },
            PipelineCondition::Gte { gte } => PipelineCondition::Gte {
                gte: (gte.0.clone(), gte.1),
            },
            PipelineCondition::Lt { lt } => PipelineCondition::Lt { lt: (lt.0.clone(), lt.1) },
            PipelineCondition::Lte { lte } => PipelineCondition::Lte {
                lte: (lte.0.clone(), lte.1),
            },
            PipelineCondition::And { and } => {
                let mut out: Vec<PipelineCondition> = Vec::new();
                let mut i: usize = 0;
                while i < and.len()
                    invariant
                        i <= and.len(),
                        out@.len() == i,
                        self is And,
                        self->and == and,
                        forall|j: int| 0 <= j < i ==> same_condition(#[trigger] out@[j], and@[j]),
                    decreases and.len() - i,
                {
                    out.push(and[i].clone());
                    i += 1;
                }
                PipelineCondition::And { and: out }
            },
            PipelineCondition::Or { or } => {
                let mut out: Vec<PipelineCondition> = Vec::new();
                let mut i: usize = 0;
                while i < or.len()
                    invariant
                        i <= or.len(),
                        out@.len() == i,
                        self is Or,
                        self->or == or,
                        forall|j: int| 0 <= j < i ==> same_condition(#[trigger] out@[j], or@[j]),
                    decreases or.len() - i,
                {
                    out.push(or[i].clone());
                    i += 1;
                }
                PipelineCondition::Or { or: out }
            },
            PipelineCondition::Not { not } => PipelineCondition::Not {
                not: Box::new((**not).clone()),
            },
        }
    }
}

/// The text of an optional string.
pub open spec fn text(s: Option<String>) -> Option<Seq<char>> {
    match s {
        Some(x) => Some(x@),
        None => None,
    }
}

/// What a pipeline warning says.
pub struct WarningView {
    pub code: Seq<char>,
    pub message: Seq<char>,
    pub step_index: usize,
    pub step_alias: Option<Seq<char>>,
}

/// What a pipeline source says.
pub struct SourceView {
    pub name: Seq<char>,
    pub step_index: usize,
    pub url: Option<Seq<char>>,
}

/// What a pipeline alternative says.
pub struct AlternativeView {
    pub data: Json,
    pub reason: Seq<char>,
    pub step_index: usize,
    pub confidence: Option<Double>,
}

/// What the reasoning of a step says.
pub struct ReasoningView {
    pub step_index: usize,
    pub command: Seq<char>,
    pub reasoning: Seq<char>,
}

/// What the confidence of a step says.
pub struct ConfidenceView {
    pub step: usize,
    pub alias: Option<Seq<char>>,
    pub command: Seq<char>,
    pub confidence: Double,
    pub reasoning: Option<Seq<char>>,
}

impl DeepView for PipelineWarning {
    type V = WarningView;

    open spec fn deep_view(&self) -> WarningView {
        WarningView {
            code: self.code@,
            message: self.message@,
            step_index: self.step_index,
            step_alias: text(self.step_alias),
        }
    }
}

impl DeepView for PipelineSource {
    type V = SourceView;

    open spec fn deep_view(&self) -> SourceView {
        SourceView { name: self.name@, step_index: self.step_index, url: text(self.url) }
    }
}

impl DeepView for PipelineAlternative {
    type V = AlternativeView;

    open spec fn deep_view(&self) -> AlternativeView {
        AlternativeView {
            data: self.data@,
            reason: self.reason@,
            step_index: self.step_index,
            confidence: self.confidence,
        }
    }
}

impl DeepView for StepReasoning {
    type V = ReasoningView;

    open spec fn deep_view(&self) -> ReasoningView {
        ReasoningView {
            step_index: self.step_index,
            command: self.command@,
            reasoning: self.reasoning@,
        }
    }
}

impl DeepView for StepConfidence {
    type V = ConfidenceView;

    open spec fn deep_view(&self) -> ConfidenceView {
        ConfidenceView {
            step: self.step,
            alias: text(self.alias),
            command: self.command@,
            confidence: self.confidence,
            reasoning: text(self.reasoning),
        }
    }
}

impl PipelineWarning {
    /// A warning of a step, with the place and the alias of that step.
    pub fn from(parts: (&Warning, usize, Option<&str>)) -> (r: PipelineWarning)
        ensures
            r.code@ == parts.0.code@,
            r.message@ == parts.0.message@,
            r.step_index == parts.1,
            r.step_alias is Some <==> parts.2 is Some,
            parts.2 matches Some(a) ==> r.step_alias->0@ == a@,
    {
        let (warning, step_index, step_alias) = parts;
        PipelineWarning {
            code: warning.code.clone(),
            message: warning.message.clone(),
            step_index,
            step_alias: match step_alias {
                Some(a) => Some(String::from_str(a)),
                None => None,
            },
        }
    }
}

impl PipelineSource {
    /// A source of a step, with the place of that step.
    pub fn from(parts: (&Source, usize)) -> (r: PipelineSource)
        ensures
            r.name@ == parts.0.name@,
            r.step_index == parts.1,
            text(r.url) == text(parts.0.url),
    {
        let (source, step_index) = parts;
        PipelineSource { name: source.name.clone(), step_index, url: source.url.clone() }
    }
}

impl PipelineAlternative {
    /// An alternative of a step, with the place of that step.
    pub fn from(parts: (&Alternative<JsonValue>, usize)) -> (r: PipelineAlternative)
        ensures
            r.data@ == parts.0.data@,
            r.reason@ == parts.0.reason@,
            r.step_index == parts.1,
            r.confidence == parts.0.confidence,
    {
        let (alternative, step_index) = parts;
        PipelineAlternative {
            data: alternative.data.clone(),
            reason: alternative.reason.clone(),
            step_index,
            confidence: alternative.confidence,
        }
    }
}

/// What each step gives, one step after the other.
pub open spec fn gather<T>(steps: Seq<StepResult>, each: spec_fn(StepResult) -> Seq<T>) -> Seq<T>
    decreases steps.len(),
{
    if steps.len() == 0 {
        Seq::empty()
    } else {
        gather(steps.drop_last(), each) + each(steps.last())
    }
}

/// The first `i + 1` steps give what the first `i` give and then what step
/// `i` gives.
pub proof fn lemma_gather_step<T>(
    steps: Seq<StepResult>,
    each: spec_fn(StepResult) -> Seq<T>,
    i: int,
)
    requires
        0 <= i < steps.len(),
    ensures
        gather(steps.take(i + 1), each) == gather(steps.take(i), each) + each(steps[i]),
{
    assert(steps.take(i + 1).drop_last() =~= steps.take(i));
    assert(steps.take(i + 1).last() == steps[i]);
}

/// The warnings of a step, each with the place and the alias of the step.
pub open spec fn warnings_of(step: StepResult) -> Seq<WarningView> {
    match step.metadata {
        Some(StepMetadata { warnings: Some(list), .. }) => Seq::new(
            list@.len(),
            |k: int|
                WarningView {
                    code: list@[k].code@,
                    message: list@[k].message@,
                    step_index: step.index,
                    step_alias: text(step.alias),
                },
        ),
        _ => Seq::empty(),
    }
}

/// The sources of a step, each with the place of the step.
pub open spec fn sources_of(step: StepResult) -> Seq<SourceView> {
    match step.metadata {
        Some(StepMetadata { sources: Some(list), .. }) => Seq::new(
            list@.len(),
            |k: int|
                SourceView {
                    name: list@[k].name@,
                    step_index: step.index,
                    url: text(list@[k].url),
                },
        ),
        _ => Seq::empty(),
    }
}

/// The alternatives of a step, each with the place of the step.
pub open spec fn alternatives_of(step: StepResult) -> Seq<AlternativeView> {
    match step.metadata {
        Some(StepMetadata { alternatives: Some(list), .. }) => Seq::new(
            list@.len(),
            |k: int|
                AlternativeView {
                    data: list@[k].data@,
                    reason: list@[k].reason@,
                    step_index: step.index,
                    confidence: list@[k].confidence,
                },
        ),
        _ => Seq::empty(),
    }
}

/// The reasoning of a step that succeeded and gave one.
pub open spec fn reasoning_of(step: StepResult) -> Seq<ReasoningView> {
    match step.metadata {
        Some(StepMetadata { reasoning: Some(why), .. }) => if step.status == StepStatus::Success {
            seq![
                ReasoningView { step_index: step.index, command: step.command@, reasoning: why@ },
            ]
        } else {
            Seq::empty()
        },
        _ => Seq::empty(),
    }
}

/// The confidence that a step states; one where it states none.
pub open spec fn stated_confidence(step: StepResult) -> Double {
    match step.metadata {
        Some(StepMetadata { confidence: Some(c), .. }) => c,
        _ => Double { bits: ONE_BITS },
    }
}

/// The reasoning that a step states.
pub open spec fn stated_reasoning(step: StepResult) -> Option<Seq<char>> {
    match step.metadata {
        Some(m) => text(m.reasoning),
        None => None,
    }
}

/// The alias of a step: its own, or else that of its definition.
pub open spec fn alias_of(step: StepResult, defs: Option<Seq<PipelineStep>>) -> Option<Seq<char>> {
    if step.alias is Some {
        text(step.alias)
    } else {
        match defs {
            Some(d) => if step.index < d.len() {
                text(d[step.index as int].alias)
            } else {
                None
            },
            None => None,
        }
    }
}

/// The confidence entry of a step that succeeded.
pub open spec fn confidence_of(step: StepResult, defs: Option<Seq<PipelineStep>>) -> Seq<
    ConfidenceView,
> {
    if step.status == StepStatus::Success {
        seq![
            ConfidenceView {
                step: step.index,
                alias: alias_of(step, defs),
                command: step.command@,
                confidence: stated_confidence(step),
                reasoning: stated_reasoning(step),
            },
        ]
    } else {
        Seq::empty()
    }
}

/// The least confidence among the steps that succeeded, from infinity down.
pub open spec fn least_confidence(steps: Seq<StepResult>) -> Double
    decreases steps.len(),
{
    if steps.len() == 0 {
        Double { bits: INFINITY_BITS }
    } else if steps.last().status == StepStatus::Success {
        least_confidence(steps.drop_last()).min_spec(stated_confidence(steps.last()))
    } else {
        least_confidence(steps.drop_last())
    }
}

/// One of the steps succeeded.
pub open spec fn any_success(steps: Seq<StepResult>) -> bool {
    exists|i: int| 0 <= i < steps.len() && (#[trigger] steps[i]).status == StepStatus::Success
}

/// The confidence of a pipeline: that of its weakest link. It is the least
/// confidence among the steps that succeeded, where a step that states none
/// counts as one; it is zero where no step succeeded.
pub open spec fn pipeline_confidence(steps: Seq<StepResult>) -> Double {
    if any_success(steps) {
        least_confidence(steps)
    } else {
        Double { bits: 0 }
    }
}

/// The least confidence is a number, and no step that succeeded states a
/// lesser one, where every such step states a number.
pub proof fn lemma_least_confidence(steps: Seq<StepResult>, i: int)
    requires
        forall|j: int|
            0 <= j < steps.len() && (#[trigger] steps[j]).status == StepStatus::Success
                ==> !stated_confidence(steps[j]).nan(),
        0 <= i < steps.len(),
        steps[i].status == StepStatus::Success,
    ensures
        !least_confidence(steps).nan(),
        least_confidence(steps).le_spec(stated_confidence(steps[i])),
    decreases steps.len(),
{
    let rest = steps.drop_last();
    assert forall|j: int|
        0 <= j < rest.len() && (#[trigger] rest[j]).status == StepStatus::Success
            implies !stated_confidence(rest[j]).nan() by {
        assert(rest[j] == steps[j]);
    }
    lemma_least_is_number(rest);
    if i < steps.len() - 1 {
        assert(rest[i] == steps[i]);
        lemma_least_confidence(rest, i);
    }
}

/// The least confidence of steps that state numbers is a number.
pub proof fn lemma_least_is_number(steps: Seq<StepResult>)
    requires
        forall|j: int|
            0 <= j < steps.len() && (#[trigger] steps[j]).status == StepStatus::Success
                ==> !stated_confidence(steps[j]).nan(),
    ensures
        !least_confidence(steps).nan(),
    decreases steps.len(),
{
    if steps.len() > 0 {
        let rest = steps.drop_last();
        assert forall|j: int|
            0 <= j < rest.len() && (#[trigger] rest[j]).status == StepStatus::Success
                implies !stated_confidence(rest[j]).nan() by {
            assert(rest[j] == steps[j]);
        }
        lemma_least_is_number(rest);
        assert(steps.last() == steps[steps.len() - 1]);
    }
}

/// The weakest link: the confidence of a pipeline is at most the
/// confidence of each step that succeeded, where every such step states a
/// number.
pub proof fn lemma_weakest_link(steps: Seq<StepResult>, i: int)
    requires
        forall|j: int|
            0 <= j < steps.len() && (#[trigger] steps[j]).status == StepStatus::Success
                ==> !stated_confidence(steps[j]).nan(),
        0 <= i < steps.len(),
        steps[i].status == StepStatus::Success,
    ensures
        pipeline_confidence(steps).le_spec(stated_confidence(steps[i])),
{
    lemma_least_confidence(steps, i);
}

/// The confidence of a pipeline, from the outcomes of its steps.
pub fn aggregate_pipeline_confidence(steps: &[StepResult]) -> (r: Double)
    ensures
        r == pipeline_confidence(steps@),
{
    let mut least = Double::infinity();
    let mut seen = false;
    let mut i: usize = 0;
    proof {
        assert(steps@.take(0) =~= Seq::<StepResult>::empty());
    }
    while i < steps.len()
        invariant
            i <= steps.len(),
            least == least_confidence(steps@.take(i as int)),
            seen == any_success(steps@.take(i as int)),
        decreases steps.len() - i,
    {
        let step = &steps[i];
        proof {
            assert(steps@.take(i + 1).drop_last() =~= steps@.take(i as int));
            assert(steps@.take(i + 1).last() == steps@[i as int]);
            if any_success(steps@.take(i as int)) {
                let j = choose|j: int|
                    0 <= j < i && (#[trigger] steps@.take(i as int)[j]).status
                        == StepStatus::Success;
                assert(steps@.take(i + 1)[j].status == StepStatus::Success);
            }
            if any_success(steps@.take(i + 1)) && step.status != StepStatus::Success {
                let j = choose|j: int|
                    0 <= j < i + 1 && (#[trigger] steps@.take(i + 1)[j]).status
                        == StepStatus::Success;
                assert(steps@.take(i as int)[j].status == StepStatus::Success);
            }
        }
        if step.status == StepStatus::Success {
            let stated = match &step.metadata {
                Some(m) => match m.confidence {
                    Some(c) => c,
                    None => Double::one(),
                },
                None => Double::one(),
            };
            least = least.min(stated);
            seen = true;
            proof {
                assert(steps@.take(i + 1)[i as int].status == StepStatus::Success);
            }
        }
        i += 1;
    }
    proof {
        assert(steps@.take(steps.len() as int) =~= steps@);
    }
    if seen {
        least
    } else {
        Double::zero()
    }
}

/// The reasoning of the steps that succeeded and gave one, in step order.
pub fn aggregate_pipeline_reasoning(steps: &[StepResult]) -> (r: Vec<StepReasoning>)
    ensures
        r.deep_view() == gather(steps@, |s: StepResult| reasoning_of(s)),
{
    let ghost each = |s: StepResult| reasoning_of(s);
    let mut out: Vec<StepReasoning> = Vec::new();
    let mut i: usize = 0;
    proof {
        assert(steps@.take(0) =~= Seq::<StepResult>::empty());
        assert(out.deep_view() =~= gather(steps@.take(0), each));
    }
    while i < steps.len()
        invariant
            i <= steps.len(),
            each == (|s: StepResult| reasoning_of(s)),
            out.deep_view() == gather(steps@.take(i as int), each),
        decreases steps.len() - i,
    {
        let step = &steps[i];
        proof {
            lemma_gather_step(steps@, each, i as int);
        }
        if step.status == StepStatus::Success {
            if let Some(metadata) = &step.metadata {
                if let Some(why) = &metadata.reasoning {
                    let ghost before = out.deep_view();
                    let item = StepReasoning {
                        step_index: step.index,
                        command: step.command.clone(),
                        reasoning: why.clone(),
                    };
                    out.push(item);
                    proof {
                        assert(out.deep_view() =~= before + reasoning_of(*step));
                    }
                }
            }
        }
        proof {
            assert(out.deep_view() =~= gather(steps@.take(i as int), each) + reasoning_of(*step));
        }
        i += 1;
    }
    proof {
        assert(steps@.take(steps.len() as int) =~= steps@);
    }
    out
}

/// The warnings of all steps, in step order, each with the place and the
/// alias of its step.
pub fn aggregate_pipeline_warnings(steps: &[StepResult]) -> (r: Vec<PipelineWarning>)
    ensures
        r.deep_view() == gather(steps@, |s: StepResult| warnings_of(s)),
{
    let ghost each = |s: StepResult| warnings_of(s);
    let mut out: Vec<PipelineWarning> = Vec::new();
    let mut i: usize = 0;
    proof {
        assert(steps@.take(0) =~= Seq::<StepResult>::empty());
        assert(out.deep_view() =~= gather(steps@.take(0), each));
    }
    while i < steps.len()
        invariant
            i <= steps.len(),
            each == (|s: StepResult| warnings_of(s)),
            out.deep_view() == gather(steps@.take(i as int), each),
        decreases steps.len() - i,
    {
        let step = &steps[i];
        proof {
            lemma_gather_step(steps@, each, i as int);
        }
        let ghost base = out.deep_view();
        if let Some(metadata) = &step.metadata {
            if let Some(list) = &metadata.warnings {
                let mut k: usize = 0;
                proof {
                    assert(out.deep_view() =~= base + warnings_of(*step).take(0));
                }
                while k < list.len()
                    invariant
                        k <= list.len(),
                        step.metadata == Some(*metadata),
                        metadata.warnings == Some(*list),
                        out.deep_view() == base + warnings_of(*step).take(k as int),
                    decreases list.len() - k,
                {
                    let ghost before = out.deep_view();
                    let alias = match &step.alias {
                        Some(a) => Some(a.as_str()),
                        None => None,
                    };
                    let item = PipelineWarning::from((&list[k], step.index, alias));
                    out.push(item);
                    proof {
                        assert(item.deep_view() == warnings_of(*step)[k as int]);
                        assert(out.deep_view() =~= before.push(item.deep_view()));
                        assert(warnings_of(*step).take(k + 1) =~= warnings_of(*step).take(
                            k as int,
                        ).push(warnings_of(*step)[k as int]));
                    }
                    k += 1;
                }
                proof {
                    assert(warnings_of(*step).take(list.len() as int) =~= warnings_of(*step));
                }
            }
        }
        proof {
            assert(out.deep_view() =~= base + warnings_of(*step));
        }
        i += 1;
    }
    proof {
        assert(steps@.take(steps.len() as int) =~= steps@);
    }
    out
}

/// The sources of all steps, in step order, each with the place of its
/// step.
pub fn aggregate_pipeline_sources(steps: &[StepResult]) -> (r: Vec<PipelineSource>)
    ensures
        r.deep_view() == gather(steps@, |s: StepResult| sources_of(s)),
{
    let ghost each = |s: StepResult| sources_of(s);
    let mut out: Vec<PipelineSource> = Vec::new();
    let mut i: usize = 0;
    proof {
        assert(steps@.take(0) =~= Seq::<StepResult>::empty());
        assert(out.deep_view() =~= gather(steps@.take(0), each));
    }
    while i < steps.len()
        invariant
            i <= steps.len(),
            each == (|s: StepResult| sources_of(s)),
            out.deep_view() == gather(steps@.take(i as int), each),
        decreases steps.len() - i,
    {
        let step = &steps[i];
        proof {
            lemma_gather_step(steps@, each, i as int);
        }
        let ghost base = out.deep_view();
        if let Some(metadata) = &step.metadata {
            if let Some(list) = &metadata.sources {
                let mut k: usize = 0;
                proof {
                    assert(out.deep_view() =~= base + sources_of(*step).take(0));
                }
                while k < list.len()
                    invariant
                        k <= list.len(),
                        step.metadata == Some(*metadata),
                        metadata.sources == Some(*list),
                        out.deep_view() == base + sources_of(*step).take(k as int),
                    decreases list.len() - k,
                {
                    let ghost before = out.deep_view();
                    let item = PipelineSource::from((&list[k], step.index));
                    out.push(item);
                    proof {
                        assert(item.deep_view() == sources_of(*step)[k as int]);
                        assert(out.deep_view() =~= before.push(item.deep_view()));
                        assert(sources_of(*step).take(k + 1) =~= sources_of(*step).take(
                            k as int,
                        ).push(sources_of(*step)[k as int]));
                    }
                    k += 1;
                }
                proof {
                    assert(sources_of(*step).take(list.len() as int) =~= sources_of(*step));
                }
            }
        }
        proof {
            assert(out.deep_view() =~= base + sources_of(*step));
        }
        i += 1;
    }
    proof {
        assert(steps@.take(steps.len() as int) =~= steps@);
    }
    out
}

/// The alternatives of all steps, in step order, each with the place of its
/// step.
pub fn aggregate_pipeline_alternatives(steps: &[StepResult]) -> (r: Vec<PipelineAlternative>)
    ensures
        r.deep_view() == gather(steps@, |s: StepResult| alternatives_of(s)),
{
    let ghost each = |s: StepResult| alternatives_of(s);
    let mut out: Vec<PipelineAlternative> = Vec::new();
    let mut i: usize = 0;
    proof {
        assert(steps@.take(0) =~= Seq::<StepResult>::empty());
        assert(out.deep_view() =~= gather(steps@.take(0), each));
    }
    while i < steps.len()
        invariant
            i <= steps.len(),
            each == (|s: StepResult| alternatives_of(s)),
            out.deep_view() == gather(steps@.take(i as int), each),
        decreases steps.len() - i,
    {
        let step = &steps[i];
        proof {
            lemma_gather_step(steps@, each, i as int);
        }
        let ghost base = out.deep_view();
        if let Some(metadata) = &step.metadata {
            if let Some(list) = &metadata.alternatives {
                let mut k: usize = 0;
                proof {
                    assert(out.deep_view() =~= base + alternatives_of(*step).take(0));
                }
                while k < list.len()
                    invariant
                        k <= list.len(),
                        step.metadata == Some(*metadata),
                        metadata.alternatives == Some(*list),
                        out.deep_view() == base + alternatives_of(*step).take(k as int),
                    decreases list.len() - k,
                {
                    let ghost before = out.deep_view();
                    let item = PipelineAlternative::from((&list[k], step.index));
                    out.push(item);
                    proof {
                        assert(item.deep_view() == alternatives_of(*step)[k as int]);
                        assert(out.deep_view() =~= before.push(item.deep_view()));
                        assert(alternatives_of(*step).take(k + 1) =~= alternatives_of(
                            *step,
                        ).take(k as int).push(alternatives_of(*step)[k as int]));
                    }
                    k += 1;
                }
                proof {
                    assert(alternatives_of(*step).take(list.len() as int) =~= alternatives_of(
                        *step,
                    ));
                }
            }
        }
        proof {
            assert(out.deep_view() =~= base + alternatives_of(*step));
        }
        i += 1;
    }
    proof {
        assert(steps@.take(steps.len() as int) =~= steps@);
    }
    out
}

/// The definitions of the steps, as a sequence.
pub open spec fn defs_view(step_defs: Option<&[PipelineStep]>) -> Option<Seq<PipelineStep>> {
    match step_defs {
        Some(d) => Some(d@),
        None => None,
    }
}

/// The confidence of each step that succeeded, in step order. A step
/// without an alias takes that of its definition.
pub fn build_confidence_breakdown(steps: &[StepResult], step_defs: Option<&[PipelineStep]>) -> (r:
    Vec<StepConfidence>)
    ensures
        r.deep_view() == gather(
            steps@,
            |s: StepResult| confidence_of(s, defs_view(step_defs)),
        ),
{
    let ghost each = |s: StepResult| confidence_of(s, defs_view(step_defs));
    let mut out: Vec<StepConfidence> = Vec::new();
    let mut i: usize = 0;
    proof {
        assert(steps@.take(0) =~= Seq::<StepResult>::empty());
        assert(out.deep_view() =~= gather(steps@.take(0), each));
    }
    while i < steps.len()
        invariant
            i <= steps.len(),
            each == (|s: StepResult| confidence_of(s, defs_view(step_defs))),
            out.deep_view() == gather(steps@.take(i as int), each),
        decreases steps.len() - i,
    {
        let step = &steps[i];
        proof {
            lemma_gather_step(steps@, each, i as int);
        }
        if step.status == StepStatus::Success {
            let alias = match &step.alias {
                Some(a) => Some(a.clone()),
                None => match step_defs {
                    Some(defs) => if step.index < defs.len() {
                        defs[step.index].alias.clone()
                    } else {
                        None
                    },
                    None => None,
                },
            };
            let confidence = match &step.metadata {
                Some(m) => match m.confidence {
                    Some(c) => c,
                    None => Double::one(),
                },
                None => Double::one(),
            };
            let reasoning = match &step.metadata {
                Some(m) => m.reasoning.clone(),
                None => None,
            };
            let ghost before = out.deep_view();
            let item = StepConfidence {
                step: step.index,
                alias,
                command: step.command.clone(),
                confidence,
                reasoning,
            };
            out.push(item);
            proof {
                assert(item.deep_view() == confidence_of(*step, defs_view(step_defs))[0]);
                assert(out.deep_view() =~= before + confidence_of(*step, defs_view(step_defs)));
            }
        }
        proof {
            assert(out.deep_view() =~= gather(steps@.take(i as int), each) + confidence_of(
                *step,
                defs_view(step_defs),
            ));
        }
        i += 1;
    }
    proof {
        assert(steps@.take(steps.len() as int) =~= steps@);
    }
    out
}

/// What is to be done with a step.
#[derive(Debug)]
pub enum StepPlan {
    /// The condition of the step does not hold: this outcome is taken down
    /// and the command is not run.
    Skip(StepResult),
    /// The command is run on the input, with its references resolved.
    Run { command: String, input: Option<JsonValue> },
}

/// The step runs in the context: it has no condition, or its condition
/// holds.
pub open spec fn runs(step: PipelineStep, cx: PipelineContext) -> bool {
    match step.when {
        Some(condition) => holds(condition, cx),
        None => true,
    }
}

/// The outcome is that of the step at `index` left out: it names the step
/// and holds neither data nor an error.
pub open spec fn is_skipped_step(r: StepResult, index: usize, step: PipelineStep) -> bool {
    &&& r.index == index
    &&& text(r.alias) == text(step.alias)
    &&& r.command@ == step.command@
    &&& r.status == StepStatus::Skipped
    &&& r.data is None
    &&& r.error is None
    &&& r.execution_time_ms == 0
    &&& r.metadata is None
}

/// The outcome of a step that is left out.
pub fn skipped_step(index: usize, step: &PipelineStep) -> (r: StepResult)
    ensures
        is_skipped_step(r, index, *step),
{
    StepResult {
        index,
        alias: step.alias.clone(),
        command: step.command.clone(),
        status: StepStatus::Skipped,
        data: None,
        error: None,
        execution_time_ms: 0,
        metadata: None,
    }
}

/// Decides what is to be done with a step: it is left out where its
/// condition does not hold in the context, and else run on its input with
/// the references in it resolved.
pub fn plan_step(step: &PipelineStep, index: usize, context: &PipelineContext) -> (r: StepPlan)
    ensures
        !runs(*step, *context) ==> (r matches StepPlan::Skip(s) && is_skipped_step(
            s,
            index,
            *step,
        )),
        runs(*step, *context) ==> (r matches StepPlan::Run { command, input } && command@
            == step.command@ && value_view(input) == match step.input {
            Some(i) => Some(resolved_tree(i@, *context)),
            None => None,
        }),
{
    let admitted = match &step.when {
        Some(condition) => evaluate_condition(condition, context),
        None => true,
    };
    if admitted {
        let input = match &step.input {
            Some(i) => Some(resolve_variables(i, context)),
            None => None,
        };
        StepPlan::Run { command: step.command.clone(), input }
    } else {
        StepPlan::Skip(skipped_step(index, step))
    }
}

/// The outcome of a step whose command returned `result`.
pub fn step_outcome(
    step: &PipelineStep,
    index: usize,
    result: CommandResult<JsonValue>,
    execution_time_ms: u64,
) -> (r: StepResult)
    ensures
        r.index == index,
        text(r.alias) == text(step.alias),
        r.command@ == step.command@,
        r.status == if result.success {
            StepStatus::Success
        } else {
            StepStatus::Failure
        },
        r.data == result.data,
        r.error == result.error,
        r.execution_time_ms == execution_time_ms,
        r.metadata is Some,
        r.metadata->0.confidence == result.confidence,
        r.metadata->0.reasoning == result.reasoning,
        r.metadata->0.sources == result.sources,
        r.metadata->0.warnings == result.warnings,
        r.metadata->0.alternatives == result.alternatives,
{
    let status = if result.success {
        StepStatus::Success
    } else {
        StepStatus::Failure
    };
    StepResult {
        index,
        alias: step.alias.clone(),
        command: step.command.clone(),
        status,
        data: result.data,
        error: result.error,
        execution_time_ms,
        metadata: Some(
            StepMetadata {
                confidence: result.confidence,
                reasoning: result.reasoning,
                sources: result.sources,
                warnings: result.warnings,
                alternatives: result.alternatives,
            },
        ),
    }
}

/// The data of the last step that succeeded.
pub open spec fn last_success_data(steps: Seq<StepResult>) -> Option<Json>
    decreases steps.len(),
{
    if steps.len() == 0 {
        None
    } else if steps.last().status == StepStatus::Success {
        value_view(steps.last().data)
    } else {
        last_success_data(steps.drop_last())
    }
}

/// How many steps succeeded.
pub open spec fn success_count(steps: Seq<StepResult>) -> nat
    decreases steps.len(),
{
    if steps.len() == 0 {
        0
    } else {
        success_count(steps.drop_last()) + if steps.last().status == StepStatus::Success {
            1nat
        } else {
            0nat
        }
    }
}

/// The time the steps took together, in milliseconds.
pub open spec fn total_time(steps: Seq<StepResult>) -> nat
    decreases steps.len(),
{
    if steps.len() == 0 {
        0
    } else {
        total_time(steps.drop_last()) + steps.last().execution_time_ms as nat
    }
}

/// A count as the machine holds it: the greatest number it can hold stands
/// for all above.
pub open spec fn capped(n: nat, most: nat) -> nat {
    if n <= most {
        n
    } else {
        most
    }
}

/// A copy of the data of the last step that succeeded.
pub fn final_data(steps: &[StepResult]) -> (r: Option<JsonValue>)
    ensures
        value_view(r) == last_success_data(steps@),
{
    let mut i: usize = steps.len();
    proof {
        assert(steps@.take(i as int) =~= steps@);
    }
    while i > 0
        invariant
            i <= steps.len(),
            last_success_data(steps@) == last_success_data(steps@.take(i as int)),
        decreases i,
    {
        i -= 1;
        proof {
            assert(steps@.take(i + 1).drop_last() =~= steps@.take(i as int));
            assert(steps@.take(i + 1).last() == steps@[i as int]);
        }
        if steps[i].status == StepStatus::Success {
            return clone_data(&steps[i].data);
        }
    }
    None
}

/// What the steps of a pipeline say together: the confidence of the
/// weakest link, what each step stated, the time all took, and how many
/// succeeded of how many there are.
pub fn build_pipeline_metadata(
    steps: &[StepResult],
    step_defs: Option<&[PipelineStep]>,
    total_steps: usize,
) -> (r: PipelineMetadata)
    ensures
        r.confidence == pipeline_confidence(steps@),
        r.confidence_breakdown.deep_view() == gather(
            steps@,
            |s: StepResult| confidence_of(s, defs_view(step_defs)),
        ),
        r.reasoning.deep_view() == gather(steps@, |s: StepResult| reasoning_of(s)),
        r.warnings.deep_view() == gather(steps@, |s: StepResult| warnings_of(s)),
        r.sources.deep_view() == gather(steps@, |s: StepResult| sources_of(s)),
        r.alternatives.deep_view() == gather(steps@, |s: StepResult| alternatives_of(s)),
        r.execution_time_ms == capped(total_time(steps@), u64::MAX as nat),
        r.completed_steps == capped(success_count(steps@), u32::MAX as nat),
        r.total_steps == capped(total_steps as nat, u32::MAX as nat),
        r.result_metadata is None,
{
    let mut time: u64 = 0;
    let mut completed: u32 = 0;
    let mut i: usize = 0;
    proof {
        assert(steps@.take(0) =~= Seq::<StepResult>::empty());
    }
    while i < steps.len()
        invariant
            i <= steps.len(),
            time == capped(total_time(steps@.take(i as int)), u64::MAX as nat),
            completed == capped(success_count(steps@.take(i as int)), u32::MAX as nat),
        decreases steps.len() - i,
    {
        proof {
            assert(steps@.take(i + 1).drop_last() =~= steps@.take(i as int));
            assert(steps@.take(i + 1).last() == steps@[i as int]);
        }
        time = time.saturating_add(steps[i].execution_time_ms);
        if steps[i].status == StepStatus::Success {
            completed = completed.saturating_add(1);
        }
        i += 1;
    }
    proof {
        assert(steps@.take(steps.len() as int) =~= steps@);
    }
    let total: u32 = if total_steps > u32::MAX as usize {
        u32::MAX
    } else {
        total_steps as u32
    };
    PipelineMetadata {
        confidence: aggregate_pipeline_confidence(steps),
        confidence_breakdown: build_confidence_breakdown(steps, step_defs),
        reasoning: aggregate_pipeline_reasoning(steps),
        warnings: aggregate_pipeline_warnings(steps),
        sources: aggregate_pipeline_sources(steps),
        alternatives: aggregate_pipeline_alternatives(steps),
        execution_time_ms: time,
        completed_steps: completed,
        total_steps: total,
        result_metadata: None,
    }
}

/// A copy of an outcome that refers as the outcome does: it has the same
/// place, alias, command, status, data, error and time.
pub fn copy_step(step: &StepResult) -> (r: StepResult)
    ensures
        r.index == step.index,
        text(r.alias) == text(step.alias),
        r.command@ == step.command@,
        r.status == step.status,
        value_view(r.data) == value_view(step.data),
        r.error is Some <==> step.error is Some,
        r.error matches Some(e) ==> e@ == step.error->0@,
        r.execution_time_ms == step.execution_time_ms,
        r.metadata is Some <==> step.metadata is Some,
{
    StepResult {
        index: step.index,
        alias: step.alias.clone(),
        command: step.command.clone(),
        status: step.status,
        data: clone_data(&step.data),
        error: match &step.error {
            Some(e) => Some(e.clone()),
            None => None,
        },
        execution_time_ms: step.execution_time_ms,
        metadata: match &step.metadata {
            Some(m) => Some(m.clone()),
            None => None,
        },
    }
}

/// One of the outcomes is a failure.
pub open spec fn any_failure(steps: Seq<StepResult>) -> bool {
    exists|i: int| 0 <= i < steps.len() && (#[trigger] steps[i]).status == StepStatus::Failure
}

/// A pipeline under way: what later steps can refer to, and whether it has
/// stopped.
#[derive(Debug)]
pub struct PipelineRun {
    /// The input of the pipeline and the outcomes so far.
    pub context: PipelineContext,
    /// Whether the steps after a failed one still run.
    pub continue_on_failure: bool,
    /// Whether the pipeline has stopped.
    pub halted: bool,
}

impl PipelineRun {
    /// A pipeline has stopped exactly when it is to stop at failures and a
    /// step has failed; that step is then the last one taken down. Each
    /// outcome is at its own place, and the context names the last outcome
    /// as the step before.
    pub open spec fn well_formed(self) -> bool {
        let steps = self.context.steps@;
        &&& self.halted == (!self.continue_on_failure && any_failure(steps))
        &&& !self.continue_on_failure ==> forall|i: int|
            0 <= i < steps.len() - 1 ==> (#[trigger] steps[i]).status != StepStatus::Failure
        &&& forall|i: int| 0 <= i < steps.len() ==> (#[trigger] steps[i]).index == i
        &&& steps.len() == 0 ==> self.context.previous_result is None
        &&& steps.len() > 0 ==> self.context.previous_result is Some && value_view(
            self.context.previous_result->0.data,
        ) == value_view(steps.last().data)
    }

    /// A pipeline that has run nothing yet.
    pub fn new(input: Option<JsonValue>, options: &Option<PipelineOptions>) -> (r: PipelineRun)
        ensures
            r.well_formed(),
            !r.halted,
            r.context.steps@.len() == 0,
            r.context.pipeline_input == input,
            r.continue_on_failure <==> (options matches Some(o) && o.continue_on_failure
                == Some(true)),
    {
        let continue_on_failure = match options {
            Some(o) => match o.continue_on_failure {
                Some(c) => c,
                None => false,
            },
            None => false,
        };
        PipelineRun {
            context: PipelineContext {
                pipeline_input: input,
                previous_result: None,
                steps: Vec::new(),
            },
            continue_on_failure,
            halted: false,
        }
    }

    /// Whether the next step is to be looked at. After a failure, a
    /// pipeline that stops at failures looks at no further step.
    pub fn admits(&self) -> (r: bool)
        ensures
            r == !self.halted,
            self.well_formed() && self.continue_on_failure ==> r,
    {
        !self.halted
    }

    /// Takes down the outcome of the next step. The pipeline stops where
    /// the step failed and the pipeline is to stop at failures.
    pub fn record(&mut self, outcome: StepResult)
        requires
            old(self).well_formed(),
            !old(self).halted,
            outcome.index == old(self).context.steps@.len(),
        ensures
            final(self).well_formed(),
            final(self).continue_on_failure == old(self).continue_on_failure,
            final(self).context.pipeline_input == old(self).context.pipeline_input,
            final(self).context.steps@ == old(self).context.steps@.push(outcome),
            final(self).halted == (outcome.status == StepStatus::Failure && !old(
                self,
            ).continue_on_failure),
    {
        let ghost before = self.context.steps@;
        let failed = match outcome.status {
            StepStatus::Failure => true,
            _ => false,
        };
        self.context.previous_result = Some(copy_step(&outcome));
        self.context.steps.push(outcome);
        if failed && !self.continue_on_failure {
            self.halted = true;
        }
        proof {
            let after = self.context.steps@;
            assert(after.last() == outcome);
            if failed {
                assert(after[after.len() - 1].status == StepStatus::Failure);
            }
            if any_failure(after) && !failed {
                let k = choose|k: int|
                    0 <= k < after.len() && (#[trigger] after[k]).status == StepStatus::Failure;
                assert(before[k].status == StepStatus::Failure);
            }
            if !self.continue_on_failure {
                assert forall|i: int| 0 <= i < after.len() - 1 implies (#[trigger] after[i]).status
                    != StepStatus::Failure by {
                    if before[i].status == StepStatus::Failure {
                        assert(any_failure(before));
                    }
                }
            }
            assert forall|i: int| 0 <= i < after.len() implies (#[trigger] after[i]).index == i by {
                if i < before.len() {
                    assert(before[i].index == i);
                }
            }
        }
    }

    /// The outcome of the pipeline: the data of the last step that
    /// succeeded, what the steps say together, and the outcomes.
    pub fn finish(self, step_defs: &[PipelineStep]) -> (r: PipelineResult<Option<JsonValue>>)
        ensures
            r.steps == self.context.steps,
            value_view(r.data) == last_success_data(self.context.steps@),
            r.metadata.confidence == pipeline_confidence(self.context.steps@),
            r.metadata.confidence_breakdown.deep_view() == gather(
                self.context.steps@,
                |s: StepResult| confidence_of(s, Some(step_defs@)),
            ),
            r.metadata.reasoning.deep_view() == gather(
                self.context.steps@,
                |s: StepResult| reasoning_of(s),
            ),
            r.metadata.warnings.deep_view() == gather(
                self.context.steps@,
                |s: StepResult| warnings_of(s),
            ),
            r.metadata.sources.deep_view() == gather(
                self.context.steps@,
                |s: StepResult| sources_of(s),
            ),
            r.metadata.alternatives.deep_view() == gather(
                self.context.steps@,
                |s: StepResult| alternatives_of(s),
            ),
            r.metadata.execution_time_ms == capped(
                total_time(self.context.steps@),
                u64::MAX as nat,
            ),
            r.metadata.completed_steps == capped(
                success_count(self.context.steps@),
                u32::MAX as nat,
            ),
            r.metadata.total_steps == capped(step_defs@.len(), u32::MAX as nat),
            r.metadata.result_metadata is None,
    {
        let steps = self.context.steps;
        let data = final_data(steps.as_slice());
        let metadata = build_pipeline_metadata(steps.as_slice(), Some(step_defs), step_defs.len());
        PipelineResult { data, metadata, steps }
    }
}

} // verus!
