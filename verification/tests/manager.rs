use tremor_sink::event::{CbAction, Event, SignalKind, Value};
use tremor_sink::metrics::MetricsSinkReporter;
use tremor_sink::op_meta::OpMeta;
use tremor_sink::sink::{
    handle_event_result, send_contraflow, ContraflowBuilder, DrainOutcome, PipelineBinding, Port,
    SinkManager, SinkState,
};

fn new_manager() -> SinkManager {
    SinkManager::new(MetricsSinkReporter::new(None))
}

fn binding(url: &str, addr: u64) -> PipelineBinding {
    PipelineBinding {
        url: url.to_string(),
        addr,
    }
}

fn event_with_meta(id: u64, transactional: bool, op: u64) -> Event {
    let mut op_meta = OpMeta::new();
    op_meta.insert(op, 1);
    Event {
        id,
        ingest_ns: 1,
        op_meta,
        transactional,
        kind: None,
        cb: CbAction::Noop,
        data: Value::new(vec![]),
    }
}

#[test]
fn start_only_from_initialized() {
    let mut m = new_manager();
    assert_eq!(m.state(), SinkState::Initialized);
    assert!(m.handle_start());
    assert_eq!(m.state(), SinkState::Running);
    // a second start is dropped without a state change
    assert!(!m.handle_start());
    assert_eq!(m.state(), SinkState::Running);
}

#[test]
fn pause_resume_cycle() {
    let mut m = new_manager();
    // pause before running is a no-op
    assert!(!m.handle_pause());
    assert_eq!(m.state(), SinkState::Initialized);
    m.handle_start();
    assert!(m.handle_pause());
    assert_eq!(m.state(), SinkState::Paused);
    // pause while paused is a no-op
    assert!(!m.handle_pause());
    assert!(m.handle_resume());
    assert_eq!(m.state(), SinkState::Running);
    // resume while running is a no-op
    assert!(!m.handle_resume());
    assert_eq!(m.state(), SinkState::Running);
}

#[test]
fn stop_from_any_state() {
    let mut m = new_manager();
    m.handle_stop();
    assert_eq!(m.state(), SinkState::Stopped);

    let mut m2 = new_manager();
    m2.handle_start();
    m2.handle_stop();
    assert_eq!(m2.state(), SinkState::Stopped);
}

#[test]
fn connect_appends_and_disconnect_removes() {
    let mut m = new_manager();
    m.handle_connect(Port::In, vec![binding("p1", 1), binding("p2", 2)]);
    assert_eq!(m.pipelines().len(), 2);
    m.handle_connect(Port::In, vec![binding("p3", 3)]);
    assert_eq!(m.pipelines().len(), 3);
    assert_eq!(m.pipelines()[0].url, "p1");
    assert_eq!(m.pipelines()[2].url, "p3");

    m.handle_disconnect(&"p2".to_string(), Port::In);
    assert_eq!(m.pipelines().len(), 2);
    assert_eq!(m.pipelines()[0].url, "p1");
    assert_eq!(m.pipelines()[1].url, "p3");
}

#[test]
fn connect_on_wrong_port_is_dropped() {
    let mut m = new_manager();
    m.handle_connect(Port::Out, vec![binding("p1", 1)]);
    assert_eq!(m.pipelines().len(), 0);
    m.handle_connect(Port::In, vec![binding("p1", 1)]);
    m.handle_disconnect(&"p1".to_string(), Port::Out);
    assert_eq!(m.pipelines().len(), 1);
}

#[test]
fn transactional_event_with_empty_replies_is_auto_acked() {
    // pipelines [P1, P2], event id 42 with op_meta {opA}; the sink returns
    // an empty reply vector and acknowledges automatically
    let mut m = new_manager();
    m.handle_connect(Port::In, vec![binding("p1", 1), binding("p2", 2)]);
    m.handle_start();
    let event = event_with_meta(42, true, 7);
    let builder = ContraflowBuilder::from(&event);
    let flush = m.handle_event_ingress(&event);
    assert_eq!(flush, None);
    let transactional = event.transactional;
    let cfs = handle_event_result(Ok(vec![]), 5, builder, transactional, true);
    assert_eq!(cfs.len(), 1);
    let deliveries = send_contraflow(m.pipelines(), cfs.into_iter().next().unwrap());
    assert_eq!(deliveries.len(), 2);
    for (target, cf) in &deliveries {
        assert_eq!(cf.id, 42);
        assert!(cf.op_meta.contains_key(7));
        match cf.cb {
            CbAction::Ack(duration) => assert_eq!(duration, 5),
            _ => panic!("expected an ack"),
        }
        assert!(target.addr == 1 || target.addr == 2);
    }
    assert_eq!(deliveries[0].0.addr, 1);
    assert_eq!(deliveries[1].0.addr, 2);
}

#[test]
fn failed_transactional_event_is_failed_once() {
    let mut m = new_manager();
    m.handle_connect(Port::In, vec![binding("p1", 1), binding("p2", 2)]);
    m.handle_start();
    let event = event_with_meta(42, true, 7);
    let builder = ContraflowBuilder::from(&event);
    let _ = m.handle_event_ingress(&event);
    let cfs = handle_event_result(
        Err(tremor_sink::errors::Error::SinkDelivery),
        5,
        builder,
        true,
        true,
    );
    assert_eq!(cfs.len(), 1);
    assert_eq!(cfs[0].cb, CbAction::Fail);
    assert_eq!(cfs[0].id, 42);
    // the failure does not change the lifecycle state
    assert_eq!(m.state(), SinkState::Running);
}

#[test]
fn failed_non_transactional_event_is_dropped_silently() {
    let event = event_with_meta(43, false, 7);
    let builder = ContraflowBuilder::from(&event);
    let cfs = handle_event_result(
        Err(tremor_sink::errors::Error::SinkDelivery),
        5,
        builder,
        false,
        true,
    );
    assert_eq!(cfs.len(), 0);
}

#[test]
fn drain_completes_on_quorum_over_observed_sources() {
    let mut m = new_manager();
    m.handle_connect(Port::In, vec![binding("p1", 1)]);
    m.handle_start();
    let (cf, notify) = m.handle_signal_pre(&Event::signal_start(7));
    assert!(cf.is_none());
    assert!(!notify);
    let _ = m.handle_signal_pre(&Event::signal_start(9));

    assert_eq!(m.handle_drain(), DrainOutcome::Waiting);
    assert_eq!(m.state(), SinkState::Draining);
    assert!(m.drain_channel_retained());
    // a second drain request while draining is ignored
    assert_eq!(m.handle_drain(), DrainOutcome::Ignored);

    let (cf, notify) = m.handle_signal_pre(&Event::signal_drain(7));
    assert!(!notify);
    assert_eq!(m.state(), SinkState::Draining);
    let drained_cf = cf.expect("a drain signal answers with a drained contraflow");
    assert_eq!(drained_cf.cb, CbAction::Drained(7));

    let (cf, notify) = m.handle_signal_pre(&Event::signal_drain(9));
    assert!(notify, "quorum reached: the supervisor is notified exactly once");
    assert_eq!(m.state(), SinkState::Drained);
    assert!(!m.drain_channel_retained());
    assert_eq!(cf.unwrap().cb, CbAction::Drained(9));

    // a later drain request answers immediately, without a second notice
    assert_eq!(m.handle_drain(), DrainOutcome::AlreadyDrained);
}

#[test]
fn drain_with_quorum_already_met_completes_at_once() {
    let mut m = new_manager();
    m.handle_start();
    // no sources ever announced a start: the empty set is covered
    assert_eq!(m.handle_drain(), DrainOutcome::DrainedNow);
    assert_eq!(m.state(), SinkState::Drained);
}

#[test]
fn tick_signals_are_ignored() {
    let mut m = new_manager();
    m.handle_start();
    let mut tick = Event::signal_start(0);
    tick.kind = Some(SignalKind::Tick);
    let (cf, notify) = m.handle_signal_pre(&tick);
    assert!(cf.is_none());
    assert!(!notify);
    assert_eq!(m.state(), SinkState::Running);
}

#[test]
fn asynchronous_sink_emits_nothing_until_the_reply() {
    // an async sink with auto-ack off returns only a no-reply entry: no
    // contraflow may be emitted when `on_event` returns
    let event = event_with_meta(100, true, 7);
    let builder = ContraflowBuilder::from(&event);
    let cfs = handle_event_result(
        Ok(vec![tremor_sink::sink::SinkReply::Noop]),
        1,
        builder,
        true,
        false,
    );
    assert_eq!(cfs.len(), 0);
}

#[test]
fn event_ingress_schedules_the_metrics_flush() {
    let mut m = SinkManager::new(MetricsSinkReporter::new(Some(10)));
    m.handle_start();
    let mut early = event_with_meta(1, false, 7);
    early.ingest_ns = 5;
    let mut late = event_with_meta(2, false, 7);
    late.ingest_ns = 12;
    let flush = m.handle_event_ingress(&early);
    assert_eq!(flush, None);
    let flush = m.handle_event_ingress(&late);
    assert_eq!(flush, Some(12));
    let flush = m.handle_event_ingress(&late);
    assert_eq!(flush, None);
}
