use tremor_sink::errors::Error;
use tremor_sink::event::{CbAction, Event, Value};
use tremor_sink::metrics::MetricsSinkReporter;
use tremor_sink::serializer::{
    make_postprocessors, postprocess, resolve, u64_be, Codec, EventSerializer, Postprocessor,
    DEFAULT_STREAM_ID,
};
use tremor_sink::sink::{PipelineBinding, Port, SinkManager};

fn build_plain() -> EventSerializer {
    EventSerializer::build(None, "binary", vec![]).expect("the default codec resolves")
}

#[test]
fn resolve_knows_the_binary_codec() {
    assert_eq!(resolve("binary"), Ok(Codec::Binary));
    assert_eq!(resolve("json"), Err(Error::UnknownCodec));
}

#[test]
fn build_rejects_unknown_codec_and_postprocessor() {
    let r = EventSerializer::build(Some("nope".to_string()), "binary", vec![]);
    assert!(matches!(r, Err(Error::UnknownCodec)));
    let r = EventSerializer::build(None, "nope", vec![]);
    assert!(matches!(r, Err(Error::UnknownCodec)));
    let r = EventSerializer::build(None, "binary", vec!["gzip".to_string()]);
    assert!(matches!(r, Err(Error::UnknownPostprocessor)));
}

#[test]
fn identity_codec_passes_bytes_through() {
    let mut s = build_plain();
    let frames = s.serialize(&Value::new(vec![1, 2, 3]), 0).unwrap();
    assert_eq!(frames, vec![vec![1, 2, 3]]);
}

#[test]
fn serializing_twice_yields_the_same_frames() {
    // the default stream's codec and chain are stateless: two successive
    // serializations of the same value agree
    let mut s = build_plain();
    let a = s.serialize(&Value::new(vec![9, 8]), 1).unwrap();
    let b = s.serialize(&Value::new(vec![9, 8]), 2).unwrap();
    assert_eq!(a, b);
}

#[test]
fn separate_appends_a_newline() {
    let mut s = EventSerializer::build(None, "binary", vec!["separate".to_string()]).unwrap();
    let frames = s.serialize(&Value::new(vec![65, 66]), 0).unwrap();
    assert_eq!(frames, vec![vec![65, 66, 10]]);
}

#[test]
fn length_prefix_frames_exactly() {
    let mut s =
        EventSerializer::build(None, "binary", vec!["length-prefixed".to_string()]).unwrap();
    let frames = s.serialize(&Value::new(vec![7, 7, 7]), 0).unwrap();
    assert_eq!(frames, vec![vec![0, 0, 0, 0, 0, 0, 0, 3, 7, 7, 7]]);
}

#[test]
fn postprocessor_chain_runs_in_order() {
    let pps = make_postprocessors(&vec![
        "separate".to_string(),
        "length-prefixed".to_string(),
    ])
    .unwrap();
    assert_eq!(pps, vec![Postprocessor::Separate, Postprocessor::LengthPrefixed]);
    let frames = postprocess(&pps, 0, vec![1]);
    // first the newline is appended, then the two bytes are length-prefixed
    assert_eq!(frames, vec![vec![0, 0, 0, 0, 0, 0, 0, 2, 1, 10]]);
}

#[test]
fn u64_be_encodes_big_endian() {
    assert_eq!(u64_be(0), vec![0, 0, 0, 0, 0, 0, 0, 0]);
    assert_eq!(u64_be(0x0102030405060708), vec![1, 2, 3, 4, 5, 6, 7, 8]);
}

#[test]
fn streams_are_created_lazily_and_dropped() {
    let mut s = build_plain();
    assert!(!s.has_stream(5));
    let frames = s.serialize_for_stream(&Value::new(vec![1]), 0, 5).unwrap();
    assert_eq!(frames, vec![vec![1]]);
    assert!(s.has_stream(5));
    // the default stream never appears in the per-stream table
    let _ = s.serialize_for_stream(&Value::new(vec![2]), 0, DEFAULT_STREAM_ID).unwrap();
    assert!(!s.has_stream(DEFAULT_STREAM_ID));

    s.drop_stream(5);
    assert!(!s.has_stream(5));
    // re-use after a drop builds fresh state from the templates
    let again = s.serialize_for_stream(&Value::new(vec![1]), 0, 5).unwrap();
    assert_eq!(again, vec![vec![1]]);
    assert!(s.has_stream(5));
}

#[test]
fn connection_lost_clears_all_streams() {
    // after a lost connection the serializer holds no per-stream entries and
    // the close contraflow carries the merged trail
    let mut s = build_plain();
    let _ = s.serialize_for_stream(&Value::new(vec![1]), 0, 5).unwrap();
    let _ = s.serialize_for_stream(&Value::new(vec![1]), 0, 6).unwrap();
    assert!(s.has_stream(5) && s.has_stream(6));

    let mut m = SinkManager::new(MetricsSinkReporter::new(None));
    m.handle_connect(Port::In, vec![PipelineBinding { url: "p1".to_string(), addr: 1 }]);
    m.handle_start();
    let close = m.handle_connection_lost(&mut s, 99);
    assert!(!s.has_stream(5) && !s.has_stream(6));
    assert_eq!(close.cb, CbAction::Close);
    assert_eq!(close.ingest_ns, 99);

    let open = m.handle_connection_established(100);
    assert_eq!(open.cb, CbAction::Open);
    assert_eq!(open.ingest_ns, 100);
}

#[test]
fn connection_contraflow_uses_the_merged_trail() {
    let mut s = build_plain();
    let mut m = SinkManager::new(MetricsSinkReporter::new(None));
    m.handle_start();
    let mut op_meta = tremor_sink::op_meta::OpMeta::new();
    op_meta.insert(21, 1);
    let event = Event {
        id: 1,
        ingest_ns: 1,
        op_meta,
        transactional: false,
        kind: None,
        cb: CbAction::Noop,
        data: Value::new(vec![]),
    };
    let _ = m.handle_event_ingress(&event);
    let close = m.handle_connection_lost(&mut s, 2);
    assert!(close.op_meta.contains_key(21));
    let open = m.handle_connection_established(3);
    assert!(open.op_meta.contains_key(21));
}
