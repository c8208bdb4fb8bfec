//! Batches: several commands in one request, run in order.

use vstd::prelude::*;
use crate::errors::CommandError;
use crate::json::JsonMap;
use crate::json::JsonValue;
use crate::number::Double;
use crate::result::CommandResult;

verus! {

/// One command of a batch.
#[derive(Debug, Clone, PartialEq)]
pub struct BatchCommand<T> {
    /// An identifier that is unique within the batch.
    pub id: String,
    /// The name of the command to run.
    pub command: String,
    /// The input of the command.
    pub input: T,
    /// Tags, to sort the commands by.
    pub tags: Option<Vec<String>>,
    /// How important the command is; higher is more.
    pub priority: Option<i32>,
}

impl<T> BatchCommand<T> {
    /// A command without tags or priority.
    pub fn new(id: &str, command: &str, input: T) -> (r: BatchCommand<T>)
        ensures
            r.id@ == id@,
            r.command@ == command@,
            r.input == input,
            r.tags is None,
            r.priority is None,
    {
        BatchCommand {
            id: String::from_str(id),
            command: String::from_str(command),
            input,
            tags: None,
            priority: None,
        }
    }

    /// The same command with tags.
    pub fn with_tags(self, tags: Vec<String>) -> (r: BatchCommand<T>)
        ensures
            r.tags == Some(tags),
            r.id == self.id,
            r.command == self.command,
            r.input == self.input,
            r.priority == self.priority,
    {
        let mut r = self;
        r.tags = Some(tags);
        r
    }

    /// The same command with a priority.
    pub fn with_priority(self, priority: i32) -> (r: BatchCommand<T>)
        ensures
            r.priority == Some(priority),
            r.id == self.id,
            r.command == self.command,
            r.input == self.input,
            r.tags == self.tags,
    {
        let mut r = self;
        r.priority = Some(priority);
        r
    }
}

/// How a batch is to run.
#[derive(Debug, Clone, PartialEq)]
pub struct BatchOptions {
    /// Whether the commands after a failed one still run.
    pub continue_on_error: bool,
    /// How many commands may run side by side. The commands run one after
    /// the other whatever this says.
    pub max_concurrency: Option<usize>,
    /// A time limit for the whole batch, in milliseconds.
    pub timeout_ms: Option<u64>,
    /// How many commands may fail before the batch stops.
    pub max_failures: Option<usize>,
}

impl Default for BatchOptions {
    fn default() -> (r: BatchOptions)
        ensures
            !r.continue_on_error,
            r.max_concurrency is None,
            r.timeout_ms is None,
            r.max_failures is None,
    {
        BatchOptions {
            continue_on_error: false,
            max_concurrency: None,
            timeout_ms: None,
            max_failures: None,
        }
    }
}

/// A request to run several commands.
#[derive(Debug, Clone, PartialEq)]
pub struct BatchRequest<T> {
    /// The commands, in the order in which they run.
    pub commands: Vec<BatchCommand<T>>,
    /// How the batch is to run.
    pub options: BatchOptions,
    /// More about the batch.
    pub context: Option<JsonMap>,
}

impl<T> BatchRequest<T> {
    /// A request with the options of `BatchOptions::default`.
    pub fn new(commands: Vec<BatchCommand<T>>) -> (r: BatchRequest<T>)
        ensures
            r.commands == commands,
            !r.options.continue_on_error,
            r.options.max_concurrency is None,
            r.options.timeout_ms is None,
            r.options.max_failures is None,
            r.context is None,
    {
        BatchRequest { commands, options: BatchOptions::default(), context: None }
    }

    /// The same request with other options.
    pub fn with_options(self, options: BatchOptions) -> (r: BatchRequest<T>)
        ensures
            r.options == options,
            r.commands == self.commands,
            r.context == self.context,
    {
        let mut r = self;
        r.options = options;
        r
    }
}

/// The outcome of one command of a batch.
#[derive(Debug, Clone)]
pub struct BatchCommandResult<T> {
    /// The identifier of the command.
    pub id: String,
    /// The name of the command.
    pub command: String,
    /// What the command returned.
    pub result: CommandResult<T>,
    /// How long the command took, in milliseconds.
    pub duration_ms: Option<u64>,
}

impl<T> BatchCommandResult<T> {
    /// The outcome of a command, without a duration.
    pub fn success(id: &str, command: &str, result: CommandResult<T>) -> (r: BatchCommandResult<
        T,
    >)
        ensures
            r.id@ == id@,
            r.command@ == command@,
            r.result == result,
            r.duration_ms is None,
    {
        BatchCommandResult {
            id: String::from_str(id),
            command: String::from_str(command),
            result,
            duration_ms: None,
        }
    }

    /// The same outcome with a duration.
    pub fn with_duration(self, duration_ms: u64) -> (r: BatchCommandResult<T>)
        ensures
            r.duration_ms == Some(duration_ms),
            r.id == self.id,
            r.command == self.command,
            r.result == self.result,
    {
        let mut r = self;
        r.duration_ms = Some(duration_ms);
        r
    }
}

/// The counts of a batch.
#[derive(Debug, Clone, PartialEq)]
pub struct BatchSummary {
    /// How many commands the batch has.
    pub total: usize,
    /// How many succeeded.
    pub succeeded: usize,
    /// How many failed.
    pub failed: usize,
    /// How many were left out.
    pub skipped: usize,
    /// The mean confidence of the commands that succeeded and stated one.
    pub average_confidence: Option<Double>,
}

impl BatchSummary {
    /// A summary without a confidence.
    pub fn new(total: usize, succeeded: usize, failed: usize, skipped: usize) -> (r: BatchSummary)
        ensures
            r.total == total,
            r.succeeded == succeeded,
            r.failed == failed,
            r.skipped == skipped,
            r.average_confidence is None,
    {
        BatchSummary { total, succeeded, failed, skipped, average_confidence: None }
    }
}

/// When a batch ran and how long.
#[derive(Debug, Clone, PartialEq)]
pub struct BatchTiming {
    /// When the batch started, as an ISO timestamp.
    pub started_at: String,
    /// When the batch ended.
    pub ended_at: Option<String>,
    /// How long the batch took, in milliseconds.
    pub total_ms: Option<u64>,
    /// The mean time of a command, in milliseconds.
    pub average_ms: Option<u64>,
}

/// The outcome of a batch.
#[derive(Debug, Clone)]
pub struct BatchResult<T> {
    /// Whether every command succeeded.
    pub success: bool,
    /// The outcome of each command, in request order.
    pub results: Vec<BatchCommandResult<T>>,
    /// The counts.
    pub summary: BatchSummary,
    /// When the batch ran and how long.
    pub timing: BatchTiming,
    /// Why the batch as a whole could not run.
    pub error: Option<CommandError>,
}

/// A request with default options.
pub fn create_batch_request<T>(commands: Vec<BatchCommand<T>>) -> (r: BatchRequest<T>)
    ensures
        r.commands == commands,
        !r.options.continue_on_error,
        r.options.max_concurrency is None,
        r.options.timeout_ms is None,
        r.options.max_failures is None,
        r.context is None,
{
    BatchRequest::new(commands)
}

/// How many of the outcomes say that their command succeeded.
pub open spec fn succeeded_count<T>(results: Seq<BatchCommandResult<T>>) -> nat
    decreases results.len(),
{
    if results.len() == 0 {
        0
    } else {
        succeeded_count(results.drop_last()) + if results.last().result.success {
            1nat
        } else {
            0nat
        }
    }
}

/// No more outcomes succeeded than there are.
pub proof fn lemma_succeeded_bound<T>(results: Seq<BatchCommandResult<T>>)
    ensures
        succeeded_count(results) <= results.len(),
        succeeded_count(results) == results.len() <==> forall|i: int|
            0 <= i < results.len() ==> (#[trigger] results[i]).result.success,
    decreases results.len(),
{
    if results.len() > 0 {
        let rest = results.drop_last();
        lemma_succeeded_bound(rest);
        if succeeded_count(results) == results.len() {
            assert forall|i: int| 0 <= i < results.len() implies (
            #[trigger] results[i]).result.success by {
                if i < results.len() - 1 {
                    assert(rest[i].result.success);
                }
            }
        }
        if forall|i: int| 0 <= i < results.len() ==> (#[trigger] results[i]).result.success {
            assert forall|i: int| 0 <= i < rest.len() implies (
            #[trigger] rest[i]).result.success by {
                assert(results[i].result.success);
            }
            assert(results[results.len() - 1].result.success);
        }
    }
}

/// Counts the outcomes that say their command succeeded.
pub fn count_succeeded<T>(results: &Vec<BatchCommandResult<T>>) -> (r: usize)
    ensures
        r == succeeded_count(results@),
        r <= results.len(),
{
    let mut count: usize = 0;
    let mut i: usize = 0;
    proof {
        assert(results@.take(0) =~= Seq::<BatchCommandResult<T>>::empty());
    }
    while i < results.len()
        invariant
            i <= results.len(),
            count == succeeded_count(results@.take(i as int)),
            count <= i,
        decreases results.len() - i,
    {
        proof {
            assert(results@.take(i + 1).drop_last() =~= results@.take(i as int));
            assert(results@.take(i + 1).last() == results@[i as int]);
        }
        if results[i].result.success {
            count += 1;
        }
        i += 1;
    }
    proof {
        assert(results@.take(results.len() as int) =~= results@);
    }
    count
}

/// The confidence that an outcome adds to the mean: that of a command that
/// succeeded and stated one.
pub open spec fn confidence_stated<T>(result: BatchCommandResult<T>) -> Seq<Double> {
    if result.result.success && result.result.confidence is Some {
        seq![result.result.confidence->0]
    } else {
        Seq::empty()
    }
}

/// The confidences that the outcomes add to the mean, in order.
pub open spec fn confidences_stated<T>(results: Seq<BatchCommandResult<T>>) -> Seq<Double>
    decreases results.len(),
{
    if results.len() == 0 {
        Seq::empty()
    } else {
        confidences_stated(results.drop_last()) + confidence_stated(results.last())
    }
}

/// The confidences of the commands that succeeded and stated one, in order:
/// what the mean confidence of a batch is taken over.
pub fn successful_confidences<T>(results: &[BatchCommandResult<T>]) -> (r: Vec<Double>)
    ensures
        r@ == confidences_stated(results@),
{
    let mut out: Vec<Double> = Vec::new();
    let mut i: usize = 0;
    proof {
        assert(results@.take(0) =~= Seq::<BatchCommandResult<T>>::empty());
        assert(out@ =~= confidences_stated(results@.take(0)));
    }
    while i < results.len()
        invariant
            i <= results.len(),
            out@ == confidences_stated(results@.take(i as int)),
        decreases results.len() - i,
    {
        proof {
            assert(results@.take(i + 1).drop_last() =~= results@.take(i as int));
            assert(results@.take(i + 1).last() == results@[i as int]);
        }
        let ghost before = out@;
        if results[i].result.success {
            if let Some(c) = results[i].result.confidence {
                out.push(c);
            }
        }
        proof {
            assert(out@ =~= before + confidence_stated(results@[i as int]));
        }
        i += 1;
    }
    proof {
        assert(results@.take(results.len() as int) =~= results@);
    }
    out
}

/// The outcome of a batch, from the outcomes of its commands.
///
/// The counts are taken from the outcomes. `average_confidence` is the mean
/// of `successful_confidences(&results)`, which the caller works out; it is
/// kept where that list is not empty, and left out otherwise.
pub fn create_batch_result<T>(
    results: Vec<BatchCommandResult<T>>,
    started_at: &str,
    ended_at: &str,
    total_ms: u64,
    average_confidence: Option<Double>,
) -> (r: BatchResult<T>)
    ensures
        r.results == results,
        r.summary.total == results@.len(),
        r.summary.succeeded == succeeded_count(results@),
        r.summary.failed == results@.len() - succeeded_count(results@),
        r.summary.skipped == 0,
        r.summary.average_confidence == if confidences_stated(results@).len() == 0 {
            None
        } else {
            average_confidence
        },
        r.success == (succeeded_count(results@) == results@.len()),
        (forall|i: int| 0 <= i < results@.len() ==> (#[trigger] results@[i]).result.success)
            ==> r.success && r.summary.succeeded == results@.len() && r.summary.failed == 0,
        r.timing.started_at@ == started_at@,
        r.timing.ended_at is Some,
        r.timing.ended_at->0@ == ended_at@,
        r.timing.total_ms == Some(total_ms),
        r.timing.average_ms == if results@.len() > 0 {
            Some((total_ms as nat / results@.len()) as u64)
        } else {
            None
        },
        r.error is None,
{
    proof {
        lemma_succeeded_bound(results@);
    }
    let total = results.len();
    let succeeded = count_succeeded(&results);
    let failed = total - succeeded;
    let stated = successful_confidences(results.as_slice());
    let average_confidence = if stated.len() == 0 {
        None
    } else {
        average_confidence
    };
    let average_ms = if total > 0 {
        Some(total_ms / total as u64)
    } else {
        None
    };
    BatchResult {
        success: failed == 0,
        results,
        summary: BatchSummary { total, succeeded, failed, skipped: 0, average_confidence },
        timing: BatchTiming {
            started_at: String::from_str(started_at),
            ended_at: Some(String::from_str(ended_at)),
            total_ms: Some(total_ms),
            average_ms,
        },
        error: None,
    }
}

/// The outcome of a batch that could not run.
pub fn create_failed_batch_result<T>(error: CommandError, started_at: &str) -> (r: BatchResult<T>)
    ensures
        !r.success,
        r.results@.len() == 0,
        r.summary.total == 0,
        r.summary.succeeded == 0,
        r.summary.failed == 0,
        r.summary.skipped == 0,
        r.summary.average_confidence is None,
        r.timing.started_at@ == started_at@,
        r.timing.ended_at is None,
        r.timing.total_ms is None,
        r.timing.average_ms is None,
        r.error == Some(error),
{
    BatchResult {
        success: false,
        results: Vec::new(),
        summary: BatchSummary::new(0, 0, 0, 0),
        timing: BatchTiming {
            started_at: String::from_str(started_at),
            ended_at: None,
            total_ms: None,
            average_ms: None,
        },
        error: Some(error),
    }
}

/// Whether a document has the shape of a batch request.
pub fn is_batch_request(value: &JsonValue) -> (r: bool)
    ensures
        r == (value@.member("commands"@) is Some && value@.member("options"@) is Some),
{
    value.get("commands").is_some() && value.get("options").is_some()
}

/// Whether a document has the shape of a batch result.
pub fn is_batch_result(value: &JsonValue) -> (r: bool)
    ensures
        r == (value@.member("results"@) is Some && value@.member("summary"@) is Some
            && value@.member("timing"@) is Some),
{
    value.get("results").is_some() && value.get("summary").is_some() && value.get(
        "timing",
    ).is_some()
}

/// Whether a document has the shape of a batch command.
pub fn is_batch_command(value: &JsonValue) -> (r: bool)
    ensures
        r == (value@.member("id"@) is Some && value@.member("command"@) is Some && value@.member(
            "input"@,
        ) is Some),
{
    value.get("id").is_some() && value.get("command").is_some() && value.get("input").is_some()
}

/// The outcome stands for a command that was not run because one before it
/// failed.
pub open spec fn is_skipped<T>(r: BatchCommandResult<T>) -> bool {
    &&& !r.result.success
    &&& r.result.data is None
    &&& r.result.error is Some
    &&& r.result.error->0.code@ == "COMMAND_SKIPPED"@
    &&& r.result.error->0.message@ == "Command skipped due to previous error"@
    &&& r.result.error->0.suggestion is None
    &&& r.result.error->0.retryable is None
    &&& r.result.error->0.details is None
    &&& r.result.error->0.cause is None
    &&& r.result.bare()
    &&& r.duration_ms == Some(0u64)
}

/// The outcome that stands for a command that was not run because one
/// before it failed.
pub fn skipped_result<T>(id: String, command: String) -> (r: BatchCommandResult<T>)
    ensures
        r.id == id,
        r.command == command,
        is_skipped(r),
{
    BatchCommandResult {
        id,
        command,
        result: crate::result::failure(
            CommandError::new("COMMAND_SKIPPED", "Command skipped due to previous error"),
        ),
        duration_ms: Some(0),
    }
}

/// One of the outcomes says that its command failed.
pub open spec fn any_failed<T>(results: Seq<BatchCommandResult<T>>) -> bool {
    exists|k: int| 0 <= k < results.len() && !(#[trigger] results[k]).result.success
}

/// The rule of a batch that stops at the first failure: every outcome after
/// a failed one stands for a command that was not run.
pub open spec fn halted_after_failure<T>(results: Seq<BatchCommandResult<T>>) -> bool {
    forall|k: int, j: int|
        0 <= k < j < results.len() && !(#[trigger] results[k]).result.success ==> is_skipped(
            #[trigger] results[j],
        )
}

/// A batch under way: the outcomes so far, and whether it has stopped.
#[derive(Debug)]
pub struct BatchRun<T> {
    /// Whether the commands after a failed one still run.
    pub continue_on_error: bool,
    /// Whether the batch has stopped running commands.
    pub stopped: bool,
    /// The outcomes so far, in request order.
    pub results: Vec<BatchCommandResult<T>>,
}

impl<T> BatchRun<T> {
    /// A batch has stopped exactly when it is to stop at failures and one of
    /// its commands has failed; and then every outcome after the failure
    /// stands for a command that was not run.
    pub open spec fn well_formed(self) -> bool {
        &&& self.stopped == (!self.continue_on_error && any_failed(self.results@))
        &&& !self.continue_on_error ==> halted_after_failure(self.results@)
    }

    /// A batch that has run nothing yet.
    pub fn new(options: &BatchOptions) -> (r: BatchRun<T>)
        ensures
            r.continue_on_error == options.continue_on_error,
            !r.stopped,
            r.results@.len() == 0,
            r.well_formed(),
    {
        BatchRun {
            continue_on_error: options.continue_on_error,
            stopped: false,
            results: Vec::new(),
        }
    }

    /// Whether the next command is to be run. A batch that goes on after
    /// failures runs every command.
    pub fn admits(&self) -> (r: bool)
        ensures
            r == !self.stopped,
            self.well_formed() && self.continue_on_error ==> r,
    {
        !self.stopped
    }

    /// Takes down what a command returned and how long it took. The batch
    /// stops where the command failed and the batch is to stop at failures.
    pub fn record(&mut self, id: String, command: String, result: CommandResult<T>, duration_ms: u64)
        requires
            old(self).well_formed(),
            !old(self).stopped,
        ensures
            final(self).well_formed(),
            final(self).continue_on_error == old(self).continue_on_error,
            final(self).results@.len() == old(self).results@.len() + 1,
            final(self).results@.drop_last() == old(self).results@,
            final(self).results@.last().id == id,
            final(self).results@.last().command == command,
            final(self).results@.last().result == result,
            final(self).results@.last().duration_ms == Some(duration_ms),
            final(self).stopped == (!result.success && !old(self).continue_on_error),
    {
        let failed = !result.success;
        let ghost before = self.results@;
        let item = BatchCommandResult { id, command, result, duration_ms: Some(duration_ms) };
        self.results.push(item);
        if failed && !self.continue_on_error {
            self.stopped = true;
        }
        proof {
            let after = self.results@;
            assert(after.drop_last() =~= before);
            if failed {
                assert(!after[after.len() - 1].result.success);
            }
            if any_failed(after) && !failed {
                let k = choose|k: int| 0 <= k < after.len() && !(#[trigger] after[k]).result.success;
                assert(!before[k].result.success);
            }
            if !self.continue_on_error {
                assert forall|k: int, j: int|
                    0 <= k < j < after.len() && !(#[trigger] after[k]).result.success implies is_skipped(
                    #[trigger] after[j],
                ) by {
                    assert(!before[k].result.success);
                }
            }
        }
    }

    /// Takes down that a command was not run.
    pub fn skip(&mut self, id: String, command: String)
        requires
            old(self).well_formed(),
            old(self).stopped,
        ensures
            final(self).well_formed(),
            final(self).stopped,
            final(self).continue_on_error == old(self).continue_on_error,
            final(self).results@.len() == old(self).results@.len() + 1,
            final(self).results@.drop_last() == old(self).results@,
            final(self).results@.last().id == id,
            final(self).results@.last().command == command,
            is_skipped(final(self).results@.last()),
    {
        let ghost before = self.results@;
        let item = skipped_result(id, command);
        self.results.push(item);
        proof {
            let after = self.results@;
            assert(after.drop_last() =~= before);
            let k = choose|k: int| 0 <= k < before.len() && !(#[trigger] before[k]).result.success;
            assert(!after[k].result.success);
            assert forall|k: int, j: int|
                0 <= k < j < after.len() && !(#[trigger] after[k]).result.success implies is_skipped(
                #[trigger] after[j],
            ) by {
                if j < before.len() {
                    assert(!before[k].result.success);
                    assert(is_skipped(before[j]));
                }
            }
        }
    }

    /// The outcome of the batch, with counts taken from the outcomes of its
    /// commands. `average_confidence` is the mean of
    /// `successful_confidences(&self.results)`, which the caller works out;
    /// it is kept where that list is not empty, and left out otherwise.
    pub fn finish(
        self,
        started_at: String,
        ended_at: String,
        total_ms: u64,
        average_confidence: Option<Double>,
    ) -> (r: BatchResult<T>)
        ensures
            r.results == self.results,
            r.summary.total == self.results@.len(),
            r.summary.succeeded == succeeded_count(self.results@),
            r.summary.failed == self.results@.len() - succeeded_count(self.results@),
            r.summary.skipped == 0,
            r.summary.average_confidence == if confidences_stated(self.results@).len() == 0 {
                None
            } else {
                average_confidence
            },
            r.success == (succeeded_count(self.results@) == self.results@.len()),
            r.timing.started_at == started_at,
            r.timing.ended_at == Some(ended_at),
            r.timing.total_ms == Some(total_ms),
            r.timing.average_ms == if self.results@.len() > 0 {
                Some((total_ms as nat / self.results@.len()) as u64)
            } else {
                None
            },
            r.error is None,
    {
        let total = self.results.len();
        let succeeded = count_succeeded(&self.results);
        let failed = total - succeeded;
        let stated = successful_confidences(self.results.as_slice());
        let average_confidence = if stated.len() == 0 {
            None
        } else {
            average_confidence
        };
        let average_ms = if total > 0 {
            Some(total_ms / total as u64)
        } else {
            None
        };
        BatchResult {
            success: failed == 0,
            results: self.results,
            summary: BatchSummary { total, succeeded, failed, skipped: 0, average_confidence },
            timing: BatchTiming {
                started_at,
                ended_at: Some(ended_at),
                total_ms: Some(total_ms),
                average_ms,
            },
            error: None,
        }
    }
}

/// A batch that goes on after failures never stops: each of its commands
/// is run, whatever came before.
pub proof fn lemma_continuing_never_stops<T>(run: BatchRun<T>)
    requires
        run.well_formed(),
        run.continue_on_error,
    ensures
        !run.stopped,
{
}

/// A batch that has stopped holds a failure, and every outcome after a
/// failure stands for a command that was not run.
pub proof fn lemma_stopped_pads<T>(run: BatchRun<T>, k: int, j: int)
    requires
        run.well_formed(),
        !run.continue_on_error,
        0 <= k < j < run.results@.len(),
        !run.results@[k].result.success,
    ensures
        run.stopped,
        is_skipped(run.results@[j]),
        run.results@[j].result.error->0.code@ == "COMMAND_SKIPPED"@,
{
}

/// The outcome of a batch without commands: a failure of the request, with
/// no outcomes.
pub fn empty_batch_result<T>(started_at: String, ended_at: String) -> (r: BatchResult<T>)
    ensures
        !r.success,
        r.results@.len() == 0,
        r.summary.total == 0,
        r.summary.succeeded == 0,
        r.summary.failed == 0,
        r.summary.skipped == 0,
        r.summary.average_confidence is None,
        r.timing.started_at == started_at,
        r.timing.ended_at == Some(ended_at),
        r.timing.total_ms == Some(0u64),
        r.timing.average_ms is None,
        r.error is Some,
        r.error->0.code@ == "INVALID_BATCH_REQUEST"@,
        r.error->0.message@ == "Batch request must contain at least one command"@,
        r.error->0.suggestion is Some,
        r.error->0.suggestion->0@ == "Provide an array of commands to execute"@,
        r.error->0.retryable == Some(false),
        r.error->0.details is None,
        r.error->0.cause is None,
{
    BatchResult {
        success: false,
        results: Vec::new(),
        summary: BatchSummary::new(0, 0, 0, 0),
        timing: BatchTiming {
            started_at,
            ended_at: Some(ended_at),
            total_ms: Some(0),
            average_ms: None,
        },
        error: Some(
            CommandError::new(
                "INVALID_BATCH_REQUEST",
                "Batch request must contain at least one command",
            ).with_suggestion("Provide an array of commands to execute").with_retryable(false),
        ),
    }
}

} // verus!
