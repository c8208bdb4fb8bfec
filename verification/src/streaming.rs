//! Chunks: how a command reports before it is done.
//!
//! A stream is a run of chunks: progress and partial data in any number,
//! then one chunk that completes the stream or reports its error.

use vstd::prelude::*;
use crate::errors::CommandError;
use crate::json::Json;
use crate::json::JsonValue;
use crate::number::Double;
use crate::number::HUNDRED_BITS;

verus! {

/// How far a command has come.
#[derive(Debug, Clone, PartialEq)]
pub struct ProgressChunk {
    /// Always `progress`.
    pub chunk_type: String,
    /// The share of the work that is done, between zero and one hundred.
    pub progress: Double,
    /// What the command is doing.
    pub message: String,
    /// The step the command is at.
    pub current_step: Option<u32>,
    /// How many steps there are.
    pub total_steps: Option<u32>,
}

/// A part of the answer.
#[derive(Debug, Clone, PartialEq)]
pub struct DataChunk<T> {
    /// Always `data`.
    pub chunk_type: String,
    /// The part.
    pub data: T,
    /// Whether this is the last part.
    pub is_final: bool,
    /// The place of the part among the parts.
    pub sequence: Option<u32>,
}

/// The end of a stream that succeeded.
#[derive(Debug, Clone, PartialEq)]
pub struct CompleteChunk<T> {
    /// Always `complete`.
    pub chunk_type: String,
    /// The whole answer.
    pub data: T,
    /// How long the command took, in milliseconds.
    pub duration_ms: Option<u64>,
}

/// The end of a stream that failed.
#[derive(Debug, Clone, PartialEq)]
pub struct ErrorChunk {
    /// Always `error`.
    pub chunk_type: String,
    /// What went wrong.
    pub error: CommandError,
    /// Whether the stream can go on after this error.
    pub recoverable: bool,
}

/// One chunk of a stream.
#[derive(Debug, Clone)]
pub enum StreamChunk<T> {
    Progress(ProgressChunk),
    Data(DataChunk<T>),
    Complete(CompleteChunk<T>),
    Error(ErrorChunk),
}

impl<T> StreamChunk<T> {
    /// The chunk ends its stream: nothing follows a completion or an error.
    pub open spec fn terminal(self) -> bool {
        self is Complete || self is Error
    }

    /// Whether the chunk ends its stream.
    pub fn is_terminal(&self) -> (r: bool)
        ensures
            r == self.terminal(),
    {
        match self {
            StreamChunk::Complete(_) => true,
            StreamChunk::Error(_) => true,
            _ => false,
        }
    }
}

/// How a command is to stream.
#[derive(Debug, Clone, PartialEq)]
pub struct StreamOptions {
    /// Whether progress is reported.
    pub report_progress: bool,
    /// The least time between two progress chunks, in milliseconds.
    pub progress_interval_ms: u64,
    /// Whether partial data is sent.
    pub emit_partial_data: bool,
    /// A time limit for the whole stream, in milliseconds.
    pub timeout_ms: Option<u64>,
    /// How much partial data may be held back.
    pub buffer_size: Option<usize>,
}

impl Default for StreamOptions {
    fn default() -> (r: StreamOptions)
        ensures
            r.report_progress,
            r.progress_interval_ms == 100,
            !r.emit_partial_data,
            r.timeout_ms is None,
            r.buffer_size is None,
    {
        StreamOptions {
            report_progress: true,
            progress_interval_ms: 100,
            emit_partial_data: false,
            timeout_ms: None,
            buffer_size: None,
        }
    }
}

/// A progress chunk; the progress is held between zero and one hundred.
pub fn create_progress_chunk(progress: Double, message: &str) -> (r: ProgressChunk)
    ensures
        r.chunk_type@ == "progress"@,
        r.progress == progress.clamp_spec(Double { bits: 0 }, Double { bits: HUNDRED_BITS }),
        r.message@ == message@,
        r.current_step is None,
        r.total_steps is None,
{
    ProgressChunk {
        chunk_type: String::from_str("progress"),
        progress: progress.clamp(Double::zero(), Double::hundred()),
        message: String::from_str(message),
        current_step: None,
        total_steps: None,
    }
}

/// A progress chunk with the step the command is at.
pub fn create_progress_chunk_with_steps(
    progress: Double,
    message: &str,
    current_step: u32,
    total_steps: u32,
) -> (r: ProgressChunk)
    ensures
        r.chunk_type@ == "progress"@,
        r.progress == progress.clamp_spec(Double { bits: 0 }, Double { bits: HUNDRED_BITS }),
        r.message@ == message@,
        r.current_step == Some(current_step),
        r.total_steps == Some(total_steps),
{
    ProgressChunk {
        chunk_type: String::from_str("progress"),
        progress: progress.clamp(Double::zero(), Double::hundred()),
        message: String::from_str(message),
        current_step: Some(current_step),
        total_steps: Some(total_steps),
    }
}

/// A chunk of partial data.
pub fn create_data_chunk<T>(data: T, is_final: bool) -> (r: DataChunk<T>)
    ensures
        r.chunk_type@ == "data"@,
        r.data == data,
        r.is_final == is_final,
        r.sequence is None,
{
    DataChunk { chunk_type: String::from_str("data"), data, is_final, sequence: None }
}

/// The chunk that completes a stream.
pub fn create_complete_chunk<T>(data: T, duration_ms: Option<u64>) -> (r: CompleteChunk<T>)
    ensures
        r.chunk_type@ == "complete"@,
        r.data == data,
        r.duration_ms == duration_ms,
{
    CompleteChunk { chunk_type: String::from_str("complete"), data, duration_ms }
}

/// The chunk that reports the error of a stream.
pub fn create_error_chunk(error: CommandError, recoverable: bool) -> (r: ErrorChunk)
    ensures
        r.chunk_type@ == "error"@,
        r.error == error,
        r.recoverable == recoverable,
{
    ErrorChunk { chunk_type: String::from_str("error"), error, recoverable }
}

/// The document is an object whose `type` is the string `kind`.
pub open spec fn typed(value: Json, kind: Seq<char>) -> bool {
    value.member("type"@) == Some(Json::String(kind))
}

fn has_type(value: &JsonValue, kind: &str) -> (r: bool)
    ensures
        r == typed(value@, kind@),
{
    match value.get("type") {
        Some(t) => t.json_eq(&JsonValue::string(kind)),
        None => false,
    }
}

/// Whether a document has the shape of a progress chunk.
pub fn is_progress_chunk(value: &JsonValue) -> (r: bool)
    ensures
        r == (typed(value@, "progress"@) && value@.member("progress"@) is Some && value@.member(
            "message"@,
        ) is Some),
{
    has_type(value, "progress") && value.get("progress").is_some() && value.get(
        "message",
    ).is_some()
}

/// Whether a document has the shape of a data chunk.
pub fn is_data_chunk(value: &JsonValue) -> (r: bool)
    ensures
        r == (typed(value@, "data"@) && value@.member("data"@) is Some),
{
    has_type(value, "data") && value.get("data").is_some()
}

/// Whether a document has the shape of a completing chunk.
pub fn is_complete_chunk(value: &JsonValue) -> (r: bool)
    ensures
        r == (typed(value@, "complete"@) && value@.member("data"@) is Some),
{
    has_type(value, "complete") && value.get("data").is_some()
}

/// Whether a document has the shape of an error chunk.
pub fn is_error_chunk(value: &JsonValue) -> (r: bool)
    ensures
        r == (typed(value@, "error"@) && value@.member("error"@) is Some),
{
    has_type(value, "error") && value.get("error").is_some()
}

/// Whether a document has the shape of a chunk of any kind.
pub fn is_stream_chunk(value: &JsonValue) -> (r: bool)
    ensures
        r == ((typed(value@, "progress"@) && value@.member("progress"@) is Some
            && value@.member("message"@) is Some) || (typed(value@, "data"@) && value@.member(
            "data"@,
        ) is Some) || (typed(value@, "complete"@) && value@.member("data"@) is Some) || (typed(
            value@,
            "error"@,
        ) && value@.member("error"@) is Some)),
{
    is_progress_chunk(value) || is_data_chunk(value) || is_complete_chunk(value) || is_error_chunk(
        value,
    )
}

/// The data that a chunk carries: that of a data chunk or of a completing
/// chunk.
pub open spec fn payload<T>(chunk: StreamChunk<T>) -> Seq<T> {
    match chunk {
        StreamChunk::Data(d) => seq![d.data],
        StreamChunk::Complete(c) => seq![c.data],
        _ => Seq::empty(),
    }
}

/// The data that the chunks carry, in order.
pub open spec fn payloads<T>(chunks: Seq<StreamChunk<T>>) -> Seq<T>
    decreases chunks.len(),
{
    if chunks.len() == 0 {
        Seq::empty()
    } else {
        payloads(chunks.drop_last()) + payload(chunks.last())
    }
}

/// Copies of the data of all data chunks and completing chunks, in order.
pub fn collect_stream_data<T: Clone>(chunks: &[StreamChunk<T>]) -> (r: Vec<T>)
    ensures
        r@.len() == payloads(chunks@).len(),
        forall|k: int| 0 <= k < r@.len() ==> cloned(#[trigger] payloads(chunks@)[k], r@[k]),
{
    let mut out: Vec<T> = Vec::new();
    let mut i: usize = 0;
    proof {
        assert(chunks@.take(0) =~= Seq::<StreamChunk<T>>::empty());
    }
    while i < chunks.len()
        invariant
            i <= chunks.len(),
            out@.len() == payloads(chunks@.take(i as int)).len(),
            forall|k: int|
                0 <= k < out@.len() ==> cloned(
                    #[trigger] payloads(chunks@.take(i as int))[k],
                    out@[k],
                ),
        decreases chunks.len() - i,
    {
        proof {
            assert(chunks@.take(i + 1).drop_last() =~= chunks@.take(i as int));
            assert(chunks@.take(i + 1).last() == chunks@[i as int]);
        }
        match &chunks[i] {
            StreamChunk::Data(d) => {
                out.push(d.data.clone());
            },
            StreamChunk::Complete(c) => {
                out.push(c.data.clone());
            },
            _ => {},
        }
        i += 1;
    }
    proof {
        assert(chunks@.take(chunks.len() as int) =~= chunks@);
    }
    out
}

/// How many of the chunks make up the stream: those before the first chunk
/// that ends it, and that chunk. What follows it is no part of the stream.
pub open spec fn stream_len<T>(chunks: Seq<StreamChunk<T>>) -> int
    decreases chunks.len(),
{
    if chunks.len() == 0 {
        0
    } else if chunks[0].terminal() {
        1
    } else {
        1 + stream_len(chunks.drop_first())
    }
}

/// Counts the chunks that make up the stream: none before the last of them
/// ends the stream, and the last one does unless the chunks run out first.
pub fn stream_length<T>(chunks: &[StreamChunk<T>]) -> (r: usize)
    ensures
        r == stream_len(chunks@),
        r <= chunks@.len(),
        forall|i: int| 0 <= i < r - 1 ==> !(#[trigger] chunks@[i]).terminal(),
        r < chunks@.len() ==> r > 0 && chunks@[r - 1].terminal(),
{
    let mut i: usize = 0;
    proof {
        assert(chunks@.skip(0) =~= chunks@);
    }
    while i < chunks.len()
        invariant
            i <= chunks.len(),
            stream_len(chunks@) == i + stream_len(chunks@.skip(i as int)),
            forall|j: int| 0 <= j < i ==> !(#[trigger] chunks@[j]).terminal(),
        decreases chunks.len() - i,
    {
        proof {
            assert(chunks@.skip(i as int)[0] == chunks@[i as int]);
            assert(chunks@.skip(i as int).drop_first() =~= chunks@.skip(i + 1));
        }
        if chunks[i].is_terminal() {
            return i + 1;
        }
        i += 1;
    }
    i
}

} // verus!
