//! Commands with typed results, and the engine that runs them in batches and
//! pipelines.
//!
//! Every action of an application is a command: it has a name, says what it
//! takes, and returns a `CommandResult` that holds data or an error that
//! tells the caller what to do next. A `CommandRegistry` holds commands by
//! name and runs them one by one or in a batch; the functions of `pipeline`
//! resolve the references and conditions by which the steps of a pipeline
//! feed on each other, and weigh what the steps say together.

use vstd::prelude::*;

pub mod batch;
pub mod bootstrap;
pub mod commands;
pub mod errors;
pub mod handoff;
pub mod json;
pub mod metadata;
pub mod number;
pub mod path;
pub mod pipeline;
pub mod result;
pub mod streaming;
pub mod text;

pub use batch::create_batch_request;
pub use batch::create_batch_result;
pub use batch::create_failed_batch_result;
pub use batch::is_batch_command;
pub use batch::is_batch_request;
pub use batch::is_batch_result;
pub use batch::successful_confidences;
pub use batch::BatchCommand;
pub use batch::BatchCommandResult;
pub use batch::BatchOptions;
pub use batch::BatchRequest;
pub use batch::BatchResult;
pub use batch::BatchRun;
pub use batch::BatchSummary;
pub use batch::BatchTiming;
pub use commands::command_to_mcp_tool;
pub use commands::create_command_registry;
pub use commands::CommandContext;
pub use commands::CommandDefinition;
pub use commands::CommandHandler;
pub use commands::CommandParameter;
pub use commands::CommandRegistry;
pub use commands::ExecutionTime;
pub use commands::JsonSchema;
pub use commands::JsonSchemaType;
pub use commands::McpInputSchema;
pub use commands::McpTool;
pub use errors::create_error;
pub use errors::error_codes;
pub use errors::internal_error;
pub use errors::is_command_error;
pub use errors::not_found_error;
pub use errors::rate_limit_error;
pub use errors::timeout_error;
pub use errors::validation_error;
pub use errors::CommandError;
pub use json::JsonEntry;
pub use json::JsonMap;
pub use json::JsonNumber;
pub use json::JsonValue;
pub use metadata::create_source;
pub use metadata::create_step;
pub use metadata::create_warning;
pub use metadata::update_step_status;
pub use metadata::Alternative;
pub use metadata::PlanStep;
pub use metadata::PlanStepStatus;
pub use metadata::Source;
pub use metadata::SourceType;
pub use metadata::Warning;
pub use metadata::WarningSeverity;
pub use number::Double;
pub use path::get_nested_value;
pub use pipeline::aggregate_pipeline_alternatives;
pub use pipeline::aggregate_pipeline_confidence;
pub use pipeline::aggregate_pipeline_reasoning;
pub use pipeline::aggregate_pipeline_sources;
pub use pipeline::aggregate_pipeline_warnings;
pub use pipeline::build_confidence_breakdown;
pub use pipeline::create_pipeline;
pub use pipeline::evaluate_condition;
pub use pipeline::is_pipeline_request;
pub use pipeline::is_pipeline_result;
pub use pipeline::is_pipeline_step;
pub use pipeline::resolve_variable;
pub use pipeline::resolve_variables;
pub use pipeline::PipelineAlternative;
pub use pipeline::PipelineCondition;
pub use pipeline::PipelineContext;
pub use pipeline::PipelineMetadata;
pub use pipeline::PipelineOptions;
pub use pipeline::PipelineRequest;
pub use pipeline::PipelineResult;
pub use pipeline::PipelineSource;
pub use pipeline::PipelineStep;
pub use pipeline::PipelineWarning;
pub use pipeline::StepConfidence;
pub use pipeline::StepMetadata;
pub use pipeline::StepReasoning;
pub use pipeline::StepResult;
pub use pipeline::StepStatus;
pub use result::failure;
pub use result::failure_with;
pub use result::is_failure;
pub use result::is_success;
pub use result::success;
pub use result::success_with;
pub use result::CommandResult;
pub use result::FailureOptions;
pub use result::ResultMetadata;
pub use result::ResultOptions;
pub use streaming::collect_stream_data;
pub use streaming::create_complete_chunk;
pub use streaming::create_data_chunk;
pub use streaming::create_error_chunk;
pub use streaming::create_progress_chunk;
pub use streaming::create_progress_chunk_with_steps;
pub use streaming::is_complete_chunk;
pub use streaming::is_data_chunk;
pub use streaming::is_error_chunk;
pub use streaming::is_progress_chunk;
pub use streaming::is_stream_chunk;
pub use streaming::CompleteChunk;
pub use streaming::DataChunk;
pub use streaming::ErrorChunk;
pub use streaming::ProgressChunk;
pub use streaming::StreamChunk;
pub use streaming::StreamOptions;

verus! {

/// The version of the crate.
pub const VERSION: &'static str = "0.1.0";

/// Whether the crate was built for a native target. It always is.
pub fn is_native() -> (r: bool)
    ensures
        r,
{
    true
}

/// Whether the crate was built for WebAssembly. It never is.
pub fn is_wasm() -> (r: bool)
    ensures
        !r,
{
    false
}

} // verus!
