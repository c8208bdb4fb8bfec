//! What a result says about itself: sources, plan steps, alternatives and
//! warnings.

use vstd::prelude::*;
use crate::json::JsonMap;
use crate::number::Double;
use crate::number::ONE_BITS;

verus! {

/// The kinds of sources.
#[derive(Debug, Clone, Copy, PartialEq, Eq, Structural)]
pub enum SourceType {
    /// A web page or another online resource.
    Url,
    /// A local or remote file.
    File,
    /// A database record.
    Database,
    /// An API endpoint.
    Api,
    /// A knowledge graph or an internal model.
    Knowledge,
    /// Input that the user gave.
    User,
    /// Anything else.
    Other,
}

/// Where a piece of data came from.
#[derive(Debug, Clone, PartialEq)]
pub struct Source {
    /// A name for people.
    pub name: String,
    /// The kind of source.
    pub source_type: SourceType,
    /// Where the source can be found.
    pub url: Option<String>,
    /// When the source was read, as an ISO timestamp.
    pub accessed_at: Option<String>,
    /// How relevant the source is, between zero and one.
    pub relevance: Option<Double>,
    /// An excerpt from the source.
    pub snippet: Option<String>,
}

impl Source {
    /// A source with a name and a kind.
    pub fn new(name: &str, source_type: SourceType) -> (r: Source)
        ensures
            r.name@ == name@,
            r.source_type == source_type,
            r.url is None,
            r.accessed_at is None,
            r.relevance is None,
            r.snippet is None,
    {
        Source {
            name: String::from_str(name),
            source_type,
            url: None,
            accessed_at: None,
            relevance: None,
            snippet: None,
        }
    }

    /// The same source with a URL.
    pub fn with_url(self, url: &str) -> (r: Source)
        ensures
            r.url is Some,
            r.url->0@ == url@,
            r.name == self.name,
            r.source_type == self.source_type,
            r.accessed_at == self.accessed_at,
            r.relevance == self.relevance,
            r.snippet == self.snippet,
    {
        let mut r = self;
        r.url = Some(String::from_str(url));
        r
    }

    /// The same source with the time it was read.
    pub fn with_accessed_at(self, timestamp: &str) -> (r: Source)
        ensures
            r.accessed_at is Some,
            r.accessed_at->0@ == timestamp@,
            r.name == self.name,
            r.source_type == self.source_type,
            r.url == self.url,
            r.relevance == self.relevance,
            r.snippet == self.snippet,
    {
        let mut r = self;
        r.accessed_at = Some(String::from_str(timestamp));
        r
    }

    /// The same source with a relevance, held between zero and one.
    pub fn with_relevance(self, relevance: Double) -> (r: Source)
        ensures
            r.relevance == Some(relevance.clamp_spec(Double { bits: 0 }, Double { bits: ONE_BITS })),
            r.name == self.name,
            r.source_type == self.source_type,
            r.url == self.url,
            r.accessed_at == self.accessed_at,
            r.snippet == self.snippet,
    {
        let mut r = self;
        r.relevance = Some(relevance.clamp(Double::zero(), Double::one()));
        r
    }

    /// The same source with an excerpt.
    pub fn with_snippet(self, snippet: &str) -> (r: Source)
        ensures
            r.snippet is Some,
            r.snippet->0@ == snippet@,
            r.name == self.name,
            r.source_type == self.source_type,
            r.url == self.url,
            r.accessed_at == self.accessed_at,
            r.relevance == self.relevance,
    {
        let mut r = self;
        r.snippet = Some(String::from_str(snippet));
        r
    }
}

/// A source with a name, a kind and, where given, a URL.
pub fn create_source(name: &str, source_type: SourceType, url: Option<&str>) -> (r: Source)
    ensures
        r.name@ == name@,
        r.source_type == source_type,
        r.url is Some <==> url is Some,
        url matches Some(u) ==> r.url->0@ == u@,
        r.accessed_at is None,
        r.relevance is None,
        r.snippet is None,
{
    let mut source = Source::new(name, source_type);
    if let Some(u) = url {
        source.url = Some(String::from_str(u));
    }
    source
}

/// How far a plan step has come.
#[derive(Debug, Clone, Copy, PartialEq, Eq, Structural)]
pub enum PlanStepStatus {
    /// Not started yet.
    Pending,
    /// Under way.
    Running,
    /// Done.
    Completed,
    /// Ended in an error.
    Failed,
    /// Left out.
    Skipped,
}

/// One step of a plan with several.
#[derive(Debug, Clone, PartialEq)]
pub struct PlanStep {
    /// The number of the step, usually from one.
    pub step: u32,
    /// What the step does.
    pub description: String,
    /// How far it has come.
    pub status: PlanStepStatus,
    /// How long it took, in milliseconds.
    pub duration_ms: Option<u64>,
    /// Why it failed.
    pub error: Option<String>,
    /// More about the step.
    pub details: Option<JsonMap>,
}

impl PlanStep {
    /// A pending step.
    pub fn new(step: u32, description: &str) -> (r: PlanStep)
        ensures
            r.step == step,
            r.description@ == description@,
            r.status == PlanStepStatus::Pending,
            r.duration_ms is None,
            r.error is None,
            r.details is None,
    {
        PlanStep {
            step,
            description: String::from_str(description),
            status: PlanStepStatus::Pending,
            duration_ms: None,
            error: None,
            details: None,
        }
    }

    /// The same step with another status.
    pub fn with_status(self, status: PlanStepStatus) -> (r: PlanStep)
        ensures
            r.status == status,
            r.step == self.step,
            r.description == self.description,
            r.duration_ms == self.duration_ms,
            r.error == self.error,
            r.details == self.details,
    {
        let mut r = self;
        r.status = status;
        r
    }

    /// The same step with a duration.
    pub fn with_duration(self, duration_ms: u64) -> (r: PlanStep)
        ensures
            r.duration_ms == Some(duration_ms),
            r.step == self.step,
            r.description == self.description,
            r.status == self.status,
            r.error == self.error,
            r.details == self.details,
    {
        let mut r = self;
        r.duration_ms = Some(duration_ms);
        r
    }

    /// The same step, failed with the given message.
    pub fn with_error(self, error: &str) -> (r: PlanStep)
        ensures
            r.error is Some,
            r.error->0@ == error@,
            r.status == PlanStepStatus::Failed,
            r.step == self.step,
            r.description == self.description,
            r.duration_ms == self.duration_ms,
            r.details == self.details,
    {
        let mut r = self;
        r.error = Some(String::from_str(error));
        r.status = PlanStepStatus::Failed;
        r
    }
}

/// A step with a number, a description and a status.
pub fn create_step(step: u32, description: &str, status: PlanStepStatus) -> (r: PlanStep)
    ensures
        r.step == step,
        r.description@ == description@,
        r.status == status,
        r.duration_ms is None,
        r.error is None,
        r.details is None,
{
    PlanStep::new(step, description).with_status(status)
}

/// Sets the status of a step, and its duration and error where they are given.
pub fn update_step_status(
    step: &mut PlanStep,
    status: PlanStepStatus,
    duration_ms: Option<u64>,
    error: Option<&str>,
)
    ensures
        final(step).status == status,
        final(step).duration_ms == if duration_ms is Some {
            duration_ms
        } else {
            old(step).duration_ms
        },
        error is None ==> final(step).error == old(step).error,
        error matches Some(e) ==> final(step).error is Some && final(step).error->0@ == e@,
        final(step).step == old(step).step,
        final(step).description == old(step).description,
        final(step).details == old(step).details,
{
    step.status = status;
    if let Some(d) = duration_ms {
        step.duration_ms = Some(d);
    }
    if let Some(e) = error {
        step.error = Some(String::from_str(e));
    }
}

/// A result that was weighed and not chosen.
#[derive(Debug, Clone, PartialEq)]
pub struct Alternative<T> {
    /// The alternative itself.
    pub data: T,
    /// Why it was not chosen.
    pub reason: String,
    /// How sure the command is of it, between zero and one.
    pub confidence: Option<Double>,
}

impl<T> Alternative<T> {
    /// An alternative with the reason it was not chosen.
    pub fn new(data: T, reason: &str) -> (r: Alternative<T>)
        ensures
            r.data == data,
            r.reason@ == reason@,
            r.confidence is None,
    {
        Alternative { data, reason: String::from_str(reason), confidence: None }
    }

    /// The same alternative with a confidence, held between zero and one.
    pub fn with_confidence(self, confidence: Double) -> (r: Alternative<T>)
        ensures
            r.confidence == Some(
                confidence.clamp_spec(Double { bits: 0 }, Double { bits: ONE_BITS }),
            ),
            r.data == self.data,
            r.reason == self.reason,
    {
        let mut r = self;
        r.confidence = Some(confidence.clamp(Double::zero(), Double::one()));
        r
    }
}

/// How grave a warning is.
#[derive(Debug, Clone, Copy, PartialEq, Eq, Structural)]
pub enum WarningSeverity {
    /// For information.
    Low,
    /// Worth a look.
    Medium,
    /// Needs attention.
    High,
}

/// Something the user should know that did not stop the command.
#[derive(Debug, Clone, PartialEq)]
pub struct Warning {
    /// A code for programs to branch on.
    pub code: String,
    /// The warning, for people.
    pub message: String,
    /// How grave it is.
    pub severity: Option<WarningSeverity>,
    /// What the warning is about.
    pub context: Option<JsonMap>,
}

impl Warning {
    /// A warning with a code and a message.
    pub fn new(code: &str, message: &str) -> (r: Warning)
        ensures
            r.code@ == code@,
            r.message@ == message@,
            r.severity is None,
            r.context is None,
    {
        Warning {
            code: String::from_str(code),
            message: String::from_str(message),
            severity: None,
            context: None,
        }
    }

    /// The same warning with a severity.
    pub fn with_severity(self, severity: WarningSeverity) -> (r: Warning)
        ensures
            r.severity == Some(severity),
            r.code == self.code,
            r.message == self.message,
            r.context == self.context,
    {
        let mut r = self;
        r.severity = Some(severity);
        r
    }

    /// The same warning with a context.
    pub fn with_context(self, context: JsonMap) -> (r: Warning)
        ensures
            r.context == Some(context),
            r.code == self.code,
            r.message == self.message,
            r.severity == self.severity,
    {
        let mut r = self;
        r.context = Some(context);
        r
    }
}

/// A warning with a code, a message and a severity: medium where none is
/// given.
pub fn create_warning(code: &str, message: &str, severity: Option<WarningSeverity>) -> (r:
    Warning)
    ensures
        r.code@ == code@,
        r.message@ == message@,
        r.severity == Some(
            match severity {
                Some(s) => s,
                None => WarningSeverity::Medium,
            },
        ),
        r.context is None,
{
    let severity = match severity {
        Some(s) => s,
        None => WarningSeverity::Medium,
    };
    Warning::new(code, message).with_severity(severity)
}

} // verus!
