use afd::json::JsonMap;
use afd::json::JsonNumber;
use afd::json::JsonValue;
use afd::streaming::collect_stream_data;
use afd::streaming::create_complete_chunk;
use afd::streaming::create_data_chunk;
use afd::streaming::create_error_chunk;
use afd::streaming::create_progress_chunk;
use afd::streaming::create_progress_chunk_with_steps;
use afd::streaming::is_complete_chunk;
use afd::streaming::is_data_chunk;
use afd::streaming::is_error_chunk;
use afd::streaming::is_progress_chunk;
use afd::streaming::is_stream_chunk;
use afd::streaming::stream_length;
use afd::streaming::StreamChunk;
use afd::streaming::StreamOptions;
use afd::CommandError;
use afd::Double;

fn d(value: f64) -> Double {
    Double::from_bits(value.to_bits())
}

fn f(value: Double) -> f64 {
    f64::from_bits(value.to_bits())
}

fn s(text: &str) -> JsonValue {
    JsonValue::String(text.to_string())
}

fn obj(members: Vec<(&str, JsonValue)>) -> JsonValue {
    let mut map = JsonMap::new();
    for (key, value) in members {
        map.insert(key, value);
    }
    JsonValue::Object(map)
}

#[test]
fn test_progress_chunk() {
    let chunk = create_progress_chunk(d(50.0), "Processing...");
    assert_eq!(f(chunk.progress), 50.0);
    assert_eq!(chunk.message, "Processing...");
}

#[test]
fn test_progress_chunk_clamping() {
    let chunk = create_progress_chunk(d(150.0), "Test");
    assert_eq!(f(chunk.progress), 100.0);

    let chunk = create_progress_chunk(d(-10.0), "Test");
    assert_eq!(f(chunk.progress), 0.0);
}

#[test]
fn test_data_chunk() {
    let chunk = create_data_chunk("partial data", false);
    assert_eq!(chunk.data, "partial data");
    assert!(!chunk.is_final);
}

#[test]
fn test_complete_chunk() {
    let chunk = create_complete_chunk("final result", Some(1500));
    assert_eq!(chunk.data, "final result");
    assert_eq!(chunk.duration_ms, Some(1500));
}

#[test]
fn test_error_chunk() {
    let error = CommandError::timeout("test", 5000);
    let chunk = create_error_chunk(error.clone(), true);
    assert!(chunk.recoverable);
    assert_eq!(chunk.error.code, "TIMEOUT");
}

#[test]
fn test_stream_options_default() {
    let opts = StreamOptions::default();
    assert!(opts.report_progress);
    assert_eq!(opts.progress_interval_ms, 100);
    assert!(!opts.emit_partial_data);
}

#[test]
fn streaming_test_type_guards() {
    let progress = obj(vec![
        ("type", s("progress")),
        ("progress", JsonValue::Number(JsonNumber::Float(d(50.0)))),
        ("message", s("Test")),
    ]);
    assert!(is_progress_chunk(&progress));

    let data = obj(vec![("type", s("data")), ("data", s("test")), ("isFinal", JsonValue::Bool(false))]);
    assert!(is_data_chunk(&data));

    let complete = obj(vec![("type", s("complete")), ("data", s("done"))]);
    assert!(is_complete_chunk(&complete));

    let error = obj(vec![
        ("type", s("error")),
        ("error", obj(vec![("code", s("INTERNAL_ERROR")), ("message", s("test"))])),
        ("recoverable", JsonValue::Bool(false)),
    ]);
    assert!(is_error_chunk(&error));
}

#[test]
fn test_collect_stream_data() {
    let chunks: Vec<StreamChunk<String>> = vec![
        StreamChunk::Progress(create_progress_chunk(d(25.0), "Starting")),
        StreamChunk::Data(create_data_chunk("chunk1".to_string(), false)),
        StreamChunk::Progress(create_progress_chunk(d(75.0), "Almost done")),
        StreamChunk::Data(create_data_chunk("chunk2".to_string(), false)),
        StreamChunk::Complete(create_complete_chunk("final".to_string(), Some(100))),
    ];

    let data = collect_stream_data(&chunks);
    assert_eq!(data, vec!["chunk1", "chunk2", "final"]);
}

#[test]
fn chunk_kinds_and_their_ends() {
    let chunks: Vec<StreamChunk<u8>> = vec![
        StreamChunk::Progress(create_progress_chunk_with_steps(d(10.0), "one", 1, 4)),
        StreamChunk::Data(create_data_chunk(7, true)),
        StreamChunk::Complete(create_complete_chunk(9, None)),
        StreamChunk::Error(create_error_chunk(CommandError::internal("x"), false)),
    ];
    let ends: Vec<bool> = chunks.iter().map(|c| c.is_terminal()).collect();
    assert_eq!(ends, vec![false, false, true, true]);
    assert_eq!(collect_stream_data(&chunks), vec![7, 9]);
    assert_eq!(collect_stream_data::<u8>(&[]), Vec::<u8>::new());

    let with_steps = create_progress_chunk_with_steps(d(250.0), "one", 1, 4);
    assert_eq!(with_steps.chunk_type, "progress");
    assert_eq!(f(with_steps.progress), 100.0);
    assert_eq!(with_steps.current_step, Some(1));
    assert_eq!(with_steps.total_steps, Some(4));
    assert!(f(create_progress_chunk(d(f64::NAN), "?").progress).is_nan());
    assert_eq!(create_progress_chunk(d(-0.0), "?").progress.to_bits(), (-0.0f64).to_bits());
}

#[test]
fn chunk_guards_reject_other_shapes() {
    let wrong_type = obj(vec![("type", s("data")), ("progress", s("x")), ("message", s("m"))]);
    assert!(!is_progress_chunk(&wrong_type));
    assert!(!is_data_chunk(&wrong_type));
    assert!(!is_stream_chunk(&wrong_type));
    assert!(!is_stream_chunk(&JsonValue::Null));
    assert!(!is_complete_chunk(&obj(vec![("type", s("complete"))])));
    assert!(!is_error_chunk(&obj(vec![("type", s("error")), ("data", s("x"))])));
    assert!(is_stream_chunk(&obj(vec![("type", s("complete")), ("data", JsonValue::Null)])));
}

#[test]
fn a_stream_ends_at_its_first_terminal_chunk() {
    let progress = || StreamChunk::<u8>::Progress(create_progress_chunk(d(1.0), "p"));
    let data = || StreamChunk::Data(create_data_chunk(1u8, false));
    let complete = || StreamChunk::Complete(create_complete_chunk(2u8, None));
    let error = || StreamChunk::<u8>::Error(create_error_chunk(CommandError::internal("x"), true));
    assert_eq!(stream_length::<u8>(&[]), 0);
    assert_eq!(stream_length(&[progress(), data()]), 2);
    assert_eq!(stream_length(&[progress(), data(), complete()]), 3);
    assert_eq!(stream_length(&[progress(), complete(), data(), complete()]), 2);
    assert_eq!(stream_length(&[error(), data()]), 1);
    assert_eq!(stream_length(&[data(), error(), complete()]), 2);
}
