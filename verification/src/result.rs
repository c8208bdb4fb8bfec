//! The result every command returns: data or an error, and what the command
//! says about its own answer.

use vstd::prelude::*;
use crate::errors::CommandError;
use crate::json::JsonMap;
use crate::metadata::Alternative;
use crate::metadata::PlanStep;
use crate::metadata::Source;
use crate::metadata::Warning;
use crate::number::Double;

verus! {

/// How a command ran.
#[derive(Debug, Clone, PartialEq)]
pub struct ResultMetadata {
    /// How long the command took, in milliseconds.
    pub execution_time_ms: Option<u64>,
    /// The version of the command that answered.
    pub command_version: Option<String>,
    /// An identifier to follow the call by.
    pub trace_id: Option<String>,
    /// When the command ran.
    pub timestamp: Option<String>,
    /// Anything else.
    pub extra: JsonMap,
}

impl Default for ResultMetadata {
    fn default() -> (r: ResultMetadata)
        ensures
            r.execution_time_ms is None,
            r.command_version is None,
            r.trace_id is None,
            r.timestamp is None,
            r.extra@ == Map::<Seq<char>, crate::json::Json>::empty(),
    {
        ResultMetadata {
            execution_time_ms: None,
            command_version: None,
            trace_id: None,
            timestamp: None,
            extra: JsonMap::new(),
        }
    }
}

/// What a command returns.
#[derive(Debug, Clone, PartialEq)]
pub struct CommandResult<T> {
    /// Whether the command succeeded.
    pub success: bool,
    /// The answer of a command that succeeded.
    pub data: Option<T>,
    /// The error of a command that failed.
    pub error: Option<CommandError>,
    /// How sure the command is of its answer, between zero and one.
    pub confidence: Option<Double>,
    /// Why the command answered as it did.
    pub reasoning: Option<String>,
    /// What the answer rests on.
    pub sources: Option<Vec<Source>>,
    /// The steps of a longer operation.
    pub plan: Option<Vec<PlanStep>>,
    /// Other answers that were weighed.
    pub alternatives: Option<Vec<Alternative<T>>>,
    /// What the user should know besides.
    pub warnings: Option<Vec<Warning>>,
    /// How the command ran.
    pub metadata: Option<ResultMetadata>,
}

impl<T> CommandResult<T> {
    /// A result holds data exactly when it says it succeeded, and an error
    /// exactly when it says it failed.
    pub open spec fn well_formed(self) -> bool {
        &&& self.success <==> self.data is Some
        &&& !self.success <==> self.error is Some
    }

    /// The result carries nothing but its outcome.
    pub open spec fn bare(self) -> bool {
        &&& self.confidence is None
        &&& self.reasoning is None
        &&& self.sources is None
        &&& self.plan is None
        &&& self.alternatives is None
        &&& self.warnings is None
        &&& self.metadata is None
    }
}

impl<T> Default for CommandResult<T> {
    fn default() -> (r: CommandResult<T>)
        ensures
            !r.success,
            r.data is None,
            r.error is None,
            r.bare(),
    {
        CommandResult {
            success: false,
            data: None,
            error: None,
            confidence: None,
            reasoning: None,
            sources: None,
            plan: None,
            alternatives: None,
            warnings: None,
            metadata: None,
        }
    }
}

/// What a successful result may carry besides its data.
#[derive(Debug, Clone)]
pub struct ResultOptions<T> {
    pub confidence: Option<Double>,
    pub reasoning: Option<String>,
    pub sources: Option<Vec<Source>>,
    pub plan: Option<Vec<PlanStep>>,
    pub alternatives: Option<Vec<Alternative<T>>>,
    pub warnings: Option<Vec<Warning>>,
    pub metadata: Option<ResultMetadata>,
}

impl<T> Default for ResultOptions<T> {
    fn default() -> (r: ResultOptions<T>)
        ensures
            r.confidence is None,
            r.reasoning is None,
            r.sources is None,
            r.plan is None,
            r.alternatives is None,
            r.warnings is None,
            r.metadata is None,
    {
        ResultOptions {
            confidence: None,
            reasoning: None,
            sources: None,
            plan: None,
            alternatives: None,
            warnings: None,
            metadata: None,
        }
    }
}

/// What a failed result may carry besides its error.
#[derive(Debug, Clone)]
pub struct FailureOptions {
    pub warnings: Option<Vec<Warning>>,
    pub metadata: Option<ResultMetadata>,
}

impl Default for FailureOptions {
    fn default() -> (r: FailureOptions)
        ensures
            r.warnings is None,
            r.metadata is None,
    {
        FailureOptions { warnings: None, metadata: None }
    }
}

/// The result of a command that succeeded with `data`.
pub fn success<T>(data: T) -> (r: CommandResult<T>)
    ensures
        r.success,
        r.data == Some(data),
        r.error is None,
        r.bare(),
        r.well_formed(),
{
    CommandResult {
        success: true,
        data: Some(data),
        error: None,
        confidence: None,
        reasoning: None,
        sources: None,
        plan: None,
        alternatives: None,
        warnings: None,
        metadata: None,
    }
}

/// The result of a command that succeeded with `data`, and what it says of
/// its answer.
pub fn success_with<T>(data: T, options: ResultOptions<T>) -> (r: CommandResult<T>)
    ensures
        r.success,
        r.data == Some(data),
        r.error is None,
        r.confidence == options.confidence,
        r.reasoning == options.reasoning,
        r.sources == options.sources,
        r.plan == options.plan,
        r.alternatives == options.alternatives,
        r.warnings == options.warnings,
        r.metadata == options.metadata,
        r.well_formed(),
{
    CommandResult {
        success: true,
        data: Some(data),
        error: None,
        confidence: options.confidence,
        reasoning: options.reasoning,
        sources: options.sources,
        plan: options.plan,
        alternatives: options.alternatives,
        warnings: options.warnings,
        metadata: options.metadata,
    }
}

/// The result of a command that failed with `error`.
pub fn failure<T>(error: CommandError) -> (r: CommandResult<T>)
    ensures
        !r.success,
        r.data is None,
        r.error == Some(error),
        r.bare(),
        r.well_formed(),
{
    CommandResult {
        success: false,
        data: None,
        error: Some(error),
        confidence: None,
        reasoning: None,
        sources: None,
        plan: None,
        alternatives: None,
        warnings: None,
        metadata: None,
    }
}

/// The result of a command that failed with `error`, with warnings and
/// metadata.
pub fn failure_with<T>(error: CommandError, options: FailureOptions) -> (r: CommandResult<T>)
    ensures
        !r.success,
        r.data is None,
        r.error == Some(error),
        r.confidence is None,
        r.reasoning is None,
        r.sources is None,
        r.plan is None,
        r.alternatives is None,
        r.warnings == options.warnings,
        r.metadata == options.metadata,
        r.well_formed(),
{
    CommandResult {
        success: false,
        data: None,
        error: Some(error),
        confidence: None,
        reasoning: None,
        sources: None,
        plan: None,
        alternatives: None,
        warnings: options.warnings,
        metadata: options.metadata,
    }
}

/// Whether a result says it succeeded and holds data.
pub fn is_success<T>(result: &CommandResult<T>) -> (r: bool)
    ensures
        r == (result.success && result.data is Some),
{
    result.success && result.data.is_some()
}

/// Whether a result says it failed and holds an error.
pub fn is_failure<T>(result: &CommandResult<T>) -> (r: bool)
    ensures
        r == (!result.success && result.error is Some),
{
    !result.success && result.error.is_some()
}

} // verus!
