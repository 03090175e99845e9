use tremor_sink::deploy::{ConnectorDecl, DeployStmt, NodeId};
use tremor_sink::errors::Error;
use tremor_sink::event::{CbAction, Event, SignalKind};
use tremor_sink::metrics::MetricsSinkReporter;
use tremor_sink::op_meta::OpMeta;
use tremor_sink::raft::Addr;
use tremor_sink::uid_set::UidSet;
use tremor_sink::version::{hex8, log};

#[test]
fn for_coverage_only() {
    log("0.12.0", true, 0x000002ff, "1.8.2");
}

#[test]
fn version_lines_are_exact() {
    let lines = log("0.12.0", false, 0x000002ff, "1.8.2");
    assert_eq!(lines.len(), 2);
    assert_eq!(lines[0], "tremor version: 0.12.0");
    assert_eq!(lines[1], "rd_kafka version: 0x000002ff, 1.8.2");
    let debug_lines = log("0.12.0", true, 0, "");
    assert_eq!(debug_lines[0], "tremor version: 0.12.0 (DEBUG)");
    assert_eq!(debug_lines[1], "rd_kafka version: 0x00000000, ");
}

#[test]
fn hex8_formats_exactly() {
    assert_eq!(hex8(0xdeadbeef), "deadbeef");
    assert_eq!(hex8(0x1), "00000001");
    assert_eq!(hex8(u32::MAX), "ffffffff");
}

#[test]
fn op_meta_merge_is_right_biased() {
    let mut a = OpMeta::new();
    a.insert(1, 10);
    a.insert(2, 20);
    let mut b = OpMeta::new();
    b.insert(2, 99);
    b.insert(3, 30);
    a.merge(b);
    assert_eq!(a.get(1), Some(10));
    assert_eq!(a.get(2), Some(99));
    assert_eq!(a.get(3), Some(30));
    assert_eq!(a.len(), 3);
    assert!(!a.is_empty());
    assert!(OpMeta::new().is_empty());
}

#[test]
fn op_meta_insert_overrides() {
    let mut a = OpMeta::new();
    a.insert(4, 1);
    a.insert(4, 2);
    assert_eq!(a.get(4), Some(2));
    assert_eq!(a.len(), 1);
    assert_eq!(a.get(5), None);
    assert!(!a.contains_key(5));
    let c = a.clone();
    assert_eq!(c.get(4), Some(2));
}

#[test]
fn uid_set_tracks_quorum() {
    let mut starts = UidSet::new();
    starts.insert(7);
    starts.insert(9);
    starts.insert(7);
    assert_eq!(starts.len(), 2);
    let mut drains = UidSet::new();
    assert!(!drains.is_superset(&starts));
    drains.insert(7);
    assert!(!drains.is_superset(&starts));
    drains.insert(9);
    assert!(drains.is_superset(&starts));
    drains.insert(11);
    assert!(drains.is_superset(&starts));
    assert!(!starts.is_superset(&drains));
    assert!(starts.contains(7) && !starts.contains(11));
}

#[test]
fn metrics_flush_window() {
    let mut m = MetricsSinkReporter::new(Some(10));
    assert_eq!(m.periodic_flush(5), None);
    assert_eq!(m.periodic_flush(10), Some(10));
    assert_eq!(m.periodic_flush(15), None);
    assert_eq!(m.periodic_flush(20), Some(20));
    let mut never = MetricsSinkReporter::new(None);
    assert_eq!(never.periodic_flush(1_000_000), None);
}

#[test]
fn metrics_counts_ingress() {
    let mut m = MetricsSinkReporter::new(None);
    assert_eq!(m.count_in(), 0);
    m.increment_in();
    m.increment_in();
    assert_eq!(m.count_in(), 2);
}

#[test]
fn contraflow_constructors_set_their_action() {
    let ack = Event::cb_ack_with_timing(1, 2, OpMeta::new(), 3);
    assert_eq!(ack.cb, CbAction::Ack(3));
    assert_eq!(ack.id, 2);
    assert!(!ack.transactional);
    let fail = Event::cb_fail(1, 2, OpMeta::new());
    assert_eq!(fail.cb, CbAction::Fail);
    let open = Event::cb_open(9, OpMeta::new());
    assert_eq!(open.cb, CbAction::Open);
    assert_eq!(open.ingest_ns, 9);
    let close = Event::cb_close(9, OpMeta::new());
    assert_eq!(close.cb, CbAction::Close);
    let start = Event::signal_start(5);
    assert_eq!(start.kind, Some(SignalKind::Start(5)));
    let drain = Event::signal_drain(5);
    assert_eq!(drain.kind, Some(SignalKind::Drain(5)));
}

#[test]
fn error_messages_name_the_cause() {
    assert_eq!(Error::UnknownCodec.message(), "unknown codec");
    assert_eq!(Error::UnknownPostprocessor.message(), "unknown postprocessor");
    assert_eq!(Error::SinkDelivery.message(), "sink delivery failed");
}

#[test]
fn node_id_fqn_joins_modules() {
    let plain = NodeId { id: "c".to_string(), module: vec![] };
    assert_eq!(plain.fqn(), "c");
    let nested = NodeId {
        id: "c".to_string(),
        module: vec!["a".to_string(), "b".to_string()],
    };
    assert_eq!(nested.fqn(), "a::b::c");
}

#[test]
fn deploy_stmt_delegates_fqn_and_mid() {
    let decl = ConnectorDecl {
        mid: 17,
        node_id: NodeId { id: "kafka".to_string(), module: vec!["flows".to_string()] },
        params: None,
        builtin_kind: "kafka_producer".to_string(),
        docs: None,
    };
    assert_eq!(decl.fqn(), "flows::kafka");
    assert_eq!(decl.mid(), 17);
    let stmt = DeployStmt::ConnectorDecl(Box::new(decl));
    assert_eq!(stmt.fqn(), "flows::kafka");
    assert_eq!(stmt.mid(), 17);
}

#[test]
fn addr_endpoints_and_display() {
    let d = Addr::default();
    assert_eq!(d.api(), "127.0.0.1:8888");
    assert_eq!(d.rpc(), "127.0.0.1:9999");
    let a = Addr::new("10.0.0.1:1".to_string(), "10.0.0.1:2".to_string());
    assert_eq!(a.api(), "10.0.0.1:1");
    assert_eq!(a.rpc(), "10.0.0.1:2");
    let c = a.clone();
    assert_eq!(c.display(), "Addr { api: \"10.0.0.1:1\", rpc: \"10.0.0.1:2\" }");
}

#[test]
fn kv_write_needs_the_stored_value_back() {
    let ok = tremor_sink::raft::write(tremor_sink::raft::TremorResponse {
        value: Some("42".to_string()),
    });
    match ok {
        Ok(v) => assert_eq!(v, "42"),
        Err(_) => panic!("a returned value must be passed through"),
    }
    let err = tremor_sink::raft::write(tremor_sink::raft::TremorResponse { value: None });
    match err {
        Err(tremor_sink::raft::ApiError::Store(m)) => {
            assert_eq!(m, "state machine did not return the stored value upon write");
        }
        _ => panic!("a missing value must be a store error"),
    }
}
