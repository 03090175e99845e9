use tremor_sink::event::{CbAction, Event, Value};
use tremor_sink::op_meta::OpMeta;
use tremor_sink::sink::{
    handle_async_reply, handle_replies, priority_order, send_contraflow, AsyncSinkReply,
    ContraflowBuilder, EventCfData, PipelineBinding, SinkMsg, SinkMsgWrapper, SinkReply,
};

fn template_event(id: u64) -> Event {
    Event {
        id,
        ingest_ns: 100,
        op_meta: OpMeta::new(),
        transactional: true,
        kind: None,
        cb: CbAction::Noop,
        data: Value::new(vec![]),
    }
}

#[test]
fn each_reply_yields_one_contraflow_in_order() {
    let e = template_event(1);
    let cfs = handle_replies(
        vec![SinkReply::Fail, SinkReply::Noop, SinkReply::Ack],
        9,
        ContraflowBuilder::from(&e),
        false,
    );
    assert_eq!(cfs.len(), 2);
    assert_eq!(cfs[0].cb, CbAction::Fail);
    assert_eq!(cfs[1].cb, CbAction::Ack(9));
    assert_eq!(cfs[0].id, 1);
    assert_eq!(cfs[1].id, 1);
}

#[test]
fn auto_ack_fires_on_empty_reply_vector() {
    let e = template_event(2);
    let cfs = handle_replies(vec![], 4, ContraflowBuilder::from(&e), true);
    assert_eq!(cfs.len(), 1);
    assert_eq!(cfs[0].cb, CbAction::Ack(4));
}

#[test]
fn auto_ack_fires_when_every_reply_is_none() {
    // a vector of only no-reply entries still triggers the automatic ack
    let e = template_event(3);
    let cfs = handle_replies(
        vec![SinkReply::Noop, SinkReply::Noop],
        4,
        ContraflowBuilder::from(&e),
        true,
    );
    assert_eq!(cfs.len(), 1);
    assert_eq!(cfs[0].cb, CbAction::Ack(4));
}

#[test]
fn auto_ack_stays_quiet_without_request() {
    let e = template_event(4);
    let cfs = handle_replies(vec![SinkReply::Noop], 4, ContraflowBuilder::from(&e), false);
    assert_eq!(cfs.len(), 0);
}

#[test]
fn explicit_reply_suppresses_auto_ack() {
    let e = template_event(5);
    let cfs = handle_replies(vec![SinkReply::Fail], 4, ContraflowBuilder::from(&e), true);
    assert_eq!(cfs.len(), 1);
    assert_eq!(cfs[0].cb, CbAction::Fail);
}

#[test]
fn cb_reply_keeps_the_events_own_trail() {
    let mut op_meta = OpMeta::new();
    op_meta.insert(11, 1);
    let e = Event {
        id: 6,
        ingest_ns: 100,
        op_meta,
        transactional: true,
        kind: None,
        cb: CbAction::Noop,
        data: Value::new(vec![]),
    };
    let cfs = handle_replies(
        vec![SinkReply::CB(CbAction::Close)],
        4,
        ContraflowBuilder::from(&e),
        true,
    );
    assert_eq!(cfs.len(), 1);
    assert_eq!(cfs[0].cb, CbAction::Close);
    assert!(cfs[0].op_meta.contains_key(11));
    assert_eq!(cfs[0].op_meta.len(), 1);
}

#[test]
fn async_ack_carries_the_reported_duration() {
    let e = template_event(100);
    let template = EventCfData::from(&e);
    let cf = handle_async_reply(AsyncSinkReply::Ack(template, 5_000_000));
    assert_eq!(cf.id, 100);
    assert_eq!(cf.cb, CbAction::Ack(5_000_000));
    assert_eq!(cf.ingest_ns, 100);
}

#[test]
fn async_fail_and_cb_translate() {
    let e = template_event(101);
    let cf = handle_async_reply(AsyncSinkReply::Fail(EventCfData::from(&e)));
    assert_eq!(cf.cb, CbAction::Fail);
    let cf = handle_async_reply(AsyncSinkReply::CB(EventCfData::from(&e), CbAction::Open));
    assert_eq!(cf.cb, CbAction::Open);
}

#[test]
fn async_replies_are_dequeued_first() {
    // both channels hold a message: the async reply must come out first
    let e = template_event(102);
    let reply = AsyncSinkReply::Ack(EventCfData::from(&e), 1);
    let ordered = priority_order(Some(reply), Some(SinkMsg::Start));
    assert_eq!(ordered.len(), 2);
    assert!(matches!(ordered[0], SinkMsgWrapper::FromSink(_)));
    assert!(matches!(ordered[1], SinkMsgWrapper::ToSink(SinkMsg::Start)));
}

#[test]
fn priority_order_passes_single_messages_through() {
    let ordered = priority_order(None, Some(SinkMsg::Stop));
    assert_eq!(ordered.len(), 1);
    assert!(matches!(ordered[0], SinkMsgWrapper::ToSink(SinkMsg::Stop)));
    let ordered = priority_order(None, None);
    assert_eq!(ordered.len(), 0);
}

#[test]
fn fan_out_visits_every_binding_once() {
    let pipelines = vec![
        PipelineBinding { url: "p1".to_string(), addr: 1 },
        PipelineBinding { url: "p2".to_string(), addr: 2 },
        PipelineBinding { url: "p3".to_string(), addr: 3 },
    ];
    let e = template_event(7);
    let cf = ContraflowBuilder::from(&e).into_ack(3);
    let deliveries = send_contraflow(&pipelines, cf);
    assert_eq!(deliveries.len(), 3);
    for (i, (target, event)) in deliveries.iter().enumerate() {
        assert_eq!(target.addr, (i + 1) as u64);
        assert_eq!(event.id, 7);
        assert_eq!(event.cb, CbAction::Ack(3));
    }
}

#[test]
fn fan_out_to_no_pipelines_is_silent() {
    let e = template_event(8);
    let cf = ContraflowBuilder::from(&e).into_fail();
    let deliveries = send_contraflow(&Vec::new(), cf);
    assert_eq!(deliveries.len(), 0);
}

#[test]
fn sink_reply_from_bool() {
    assert_eq!(SinkReply::from(true), SinkReply::Ack);
    assert_eq!(SinkReply::from(false), SinkReply::Fail);
}

#[test]
fn contraflow_builder_variants_agree() {
    let e = template_event(9);
    let b = ContraflowBuilder::from(&e);
    let ack = b.ack(2);
    assert_eq!(ack.cb, CbAction::Ack(2));
    let fail = b.fail();
    assert_eq!(fail.cb, CbAction::Fail);
    let cb = b.cb(CbAction::Drained(4));
    assert_eq!(cb.cb, CbAction::Drained(4));
    let moved = b.into_cb(CbAction::Open);
    assert_eq!(moved.cb, CbAction::Open);
    assert_eq!(moved.id, 9);
}
