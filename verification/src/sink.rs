//! The connector sink subsystem: the decision core of the per-connector actor
//! that mediates between upstream pipelines and a concrete sink.
//!
//! The sink manager here is a state machine over plain data. A driver loop
//! owns the channels and the user sink; it feeds every received message into
//! the handlers of [`SinkManager`] and performs the returned effects: calling
//! the user sink's hooks, fanning contraflow events out to the connected
//! pipelines, and notifying the connector supervisor when the sink has
//! drained.

use crate::errors::Error;
use crate::event::{
    spec_cb_ack_with_timing, spec_cb_close, spec_cb_fail, spec_cb_open, spec_insight, CbAction,
    Event, EventView, SignalKind, Value,
};
use crate::metrics::{
    spec_after_flush, spec_flush_due, spec_increment, MetricsReporterView, MetricsSinkReporter,
};
use crate::op_meta::OpMeta;
use crate::serializer::EventSerializer;
use crate::uid_set::UidSet;
use vstd::prelude::*;

verus! {

/// A connector port. Pipelines connect to a sink's `In` port only.
#[derive(Clone, Copy, PartialEq, Eq, Structural, Debug)]
pub enum Port {
    /// The ingress port of a sink.
    In,
    /// The egress port of a source; never valid on a sink.
    Out,
}

/// What a sink replies upon an event or a signal to the sink manager.
#[derive(Clone, Copy, PartialEq, Eq, Structural, Debug)]
pub enum SinkReply {
    /// No reply; replies may still come asynchronously.
    Noop,
    /// The event was delivered.
    Ack,
    /// Delivery of this one event failed.
    Fail,
    /// The whole sink became unavailable or available again.
    CB(CbAction),
}

impl SinkReply {
    /// `Ack` for success, `Fail` for failure.
    pub fn from(ok: bool) -> (r: Self)
        ensures
            r == if ok {
                SinkReply::Ack
            } else {
                SinkReply::Fail
            },
    {
        if ok {
            SinkReply::Ack
        } else {
            SinkReply::Fail
        }
    }
}

/// The mathematical content of retained contraflow metadata.
pub ghost struct CfDataView {
    pub event_id: u64,
    pub ingest_ns: u64,
    pub op_meta: Map<u64, u64>,
}

/// The metadata of one event retained for contraflow.
pub open spec fn spec_cf_of(e: EventView) -> CfDataView {
    CfDataView { event_id: e.id, ingest_ns: e.ingest_ns, op_meta: e.op_meta }
}

/// The basic event data needed for generating correct contraflow messages,
/// captured from an inbound event before it is handed to the user sink.
pub struct EventCfData {
    /// The identifier of the event the contraflow will answer.
    pub event_id: u64,
    /// The ingress timestamp of that event.
    pub ingest_ns: u64,
    /// The operator trail of that event.
    pub op_meta: OpMeta,
}

impl View for EventCfData {
    type V = CfDataView;

    open spec fn view(&self) -> CfDataView {
        CfDataView {
            event_id: self.event_id,
            ingest_ns: self.ingest_ns,
            op_meta: self.op_meta@,
        }
    }
}

impl EventCfData {
    /// Captures the contraflow metadata of an event.
    pub fn from(event: &Event) -> (r: Self)
        ensures
            r@ == spec_cf_of(event@),
    {
        EventCfData {
            event_id: event.id,
            ingest_ns: event.ingest_ns,
            op_meta: event.op_meta.clone(),
        }
    }
}

impl Clone for EventCfData {
    /// A clone carries the same metadata.
    fn clone(&self) -> (r: Self)
        ensures
            r@ == self@,
    {
        EventCfData {
            event_id: self.event_id,
            ingest_ns: self.ingest_ns,
            op_meta: self.op_meta.clone(),
        }
    }
}

/// A reply a sink delivers asynchronously, out of band, through the reply
/// channel rather than as the return value of an event handler.
pub enum AsyncSinkReply {
    /// Delivery of the event behind the metadata succeeded, with timing.
    Ack(EventCfData, u64),
    /// Delivery of the event behind the metadata failed.
    Fail(EventCfData),
    /// A circuit-breaker action tied to the event behind the metadata.
    CB(EventCfData, CbAction),
}

/// The context handed to every user sink invocation.
pub struct SinkContext {
    /// The connector's unique identifier.
    pub uid: u64,
    /// The connector's url.
    pub url: String,
}

/// The mathematical content of a pipeline binding.
pub ghost struct PipelineBindingView {
    pub url: Seq<char>,
    pub addr: u64,
}

/// One pipeline connected to the sink's `In` port: its url and the handle
/// under which the driver reaches its address.
pub struct PipelineBinding {
    /// The pipeline's url.
    pub url: String,
    /// The driver-side handle of the pipeline's address.
    pub addr: u64,
}

impl View for PipelineBinding {
    type V = PipelineBindingView;

    open spec fn view(&self) -> PipelineBindingView {
        PipelineBindingView { url: self.url@, addr: self.addr }
    }
}

impl Clone for PipelineBinding {
    /// A clone names the same pipeline.
    fn clone(&self) -> (r: Self)
        ensures
            r@ == self@,
    {
        PipelineBinding { url: self.url.clone(), addr: self.addr }
    }
}

/// The views of a list of pipeline bindings.
pub open spec fn binding_views(s: Seq<PipelineBinding>) -> Seq<PipelineBindingView> {
    s.map_values(|b: PipelineBinding| b@)
}

/// The messages a sink receives. Channel endpoints stay with the driver: on
/// `Drain` the driver retains the reply sender and the manager records only
/// that one is held.
pub enum SinkMsg {
    /// An event to handle.
    Event {
        /// The event.
        event: Event,
        /// The port through which it came.
        port: Port,
    },
    /// A signal to handle.
    Signal {
        /// The signal event.
        signal: Event,
    },
    /// Connect pipelines to the given port.
    Connect {
        /// The port.
        port: Port,
        /// The pipelines.
        pipelines: Vec<PipelineBinding>,
    },
    /// Disconnect a pipeline.
    Disconnect {
        /// The url of the pipeline.
        id: String,
        /// The port.
        port: Port,
    },
    /// The connection to the outside world was lost.
    ConnectionLost,
    /// The connection was (re-)established.
    ConnectionEstablished,
    /// Start the sink.
    Start,
    /// Pause the sink.
    Pause,
    /// Resume the sink.
    Resume,
    /// Stop the sink.
    Stop,
    /// Drain the sink and notify the connector when done.
    Drain,
}

/// A message the sink task handles: either an asynchronous reply from the
/// user sink or a message addressed to the sink.
pub enum SinkMsgWrapper {
    /// An asynchronous reply from the user sink.
    FromSink(AsyncSinkReply),
    /// A message addressed to the sink.
    ToSink(SinkMsg),
}

/// Orders the ready messages of the two input channels: an asynchronous reply
/// always goes first, so deferred acks never starve behind new events.
pub fn priority_order(reply: Option<AsyncSinkReply>, msg: Option<SinkMsg>) -> (out: Vec<
    SinkMsgWrapper,
>)
    ensures
        reply matches Some(r0) ==> (msg matches Some(m0) ==> out@ == seq![
            SinkMsgWrapper::FromSink(r0),
            SinkMsgWrapper::ToSink(m0),
        ]),
        reply matches Some(r0) ==> (msg is None ==> out@ == seq![SinkMsgWrapper::FromSink(r0)]),
        msg matches Some(m0) ==> (reply is None ==> out@ == seq![SinkMsgWrapper::ToSink(m0)]),
        (reply is None && msg is None) ==> out@ == Seq::<SinkMsgWrapper>::empty(),
{
    let mut out: Vec<SinkMsgWrapper> = Vec::new();
    match reply {
        Some(r0) => {
            out.push(SinkMsgWrapper::FromSink(r0));
        },
        None => {},
    }
    match msg {
        Some(m0) => {
            out.push(SinkMsgWrapper::ToSink(m0));
        },
        None => {},
    }
    out
}

/// Whenever both channels hold a message, the asynchronous reply channel is
/// served first: anything `priority_order` may return for two ready messages
/// begins with the reply.
pub proof fn lemma_async_reply_priority(
    reply: AsyncSinkReply,
    msg: SinkMsg,
    out: Vec<SinkMsgWrapper>,
)
    requires
        call_ensures(priority_order, (Some(reply), Some(msg)), out),
    ensures
        out@.len() == 2,
        out@[0] == SinkMsgWrapper::FromSink(reply),
        out@[1] == SinkMsgWrapper::ToSink(msg),
{
}

/// Retained contraflow metadata, ready to synthesize ack, fail and
/// circuit-breaker events answering one inbound event.
pub struct ContraflowBuilder {
    event_id: u64,
    ingest_ns: u64,
    op_meta: OpMeta,
}

impl View for ContraflowBuilder {
    type V = CfDataView;

    closed spec fn view(&self) -> CfDataView {
        CfDataView {
            event_id: self.event_id,
            ingest_ns: self.ingest_ns,
            op_meta: self.op_meta@,
        }
    }
}

impl ContraflowBuilder {
    /// Captures the contraflow metadata of an event.
    pub fn from(event: &Event) -> (r: Self)
        ensures
            r@ == spec_cf_of(event@),
    {
        ContraflowBuilder {
            event_id: event.id,
            ingest_ns: event.ingest_ns,
            op_meta: event.op_meta.clone(),
        }
    }

    /// An ack contraflow event, keeping the builder.
    pub fn ack(&self, duration: u64) -> (e: Event)
        ensures
            e@ == spec_cb_ack_with_timing(self@.ingest_ns, self@.event_id, self@.op_meta, duration),
    {
        Event::cb_ack_with_timing(self.ingest_ns, self.event_id, self.op_meta.clone(), duration)
    }

    /// An ack contraflow event, consuming the builder.
    pub fn into_ack(self, duration: u64) -> (e: Event)
        ensures
            e@ == spec_cb_ack_with_timing(self@.ingest_ns, self@.event_id, self@.op_meta, duration),
    {
        Event::cb_ack_with_timing(self.ingest_ns, self.event_id, self.op_meta, duration)
    }

    /// A fail contraflow event, keeping the builder.
    pub fn fail(&self) -> (e: Event)
        ensures
            e@ == spec_cb_fail(self@.ingest_ns, self@.event_id, self@.op_meta),
    {
        Event::cb_fail(self.ingest_ns, self.event_id, self.op_meta.clone())
    }

    /// A fail contraflow event, consuming the builder.
    pub fn into_fail(self) -> (e: Event)
        ensures
            e@ == spec_cb_fail(self@.ingest_ns, self@.event_id, self@.op_meta),
    {
        Event::cb_fail(self.ingest_ns, self.event_id, self.op_meta)
    }

    /// A circuit-breaker contraflow event, keeping the builder. It carries
    /// only this event's own operator trail, not the merged trail.
    pub fn cb(&self, cb: CbAction) -> (e: Event)
        ensures
            e@ == spec_insight(cb, self@.event_id, self@.ingest_ns, self@.op_meta),
    {
        Event::insight(cb, self.event_id, self.ingest_ns, self.op_meta.clone())
    }

    /// A circuit-breaker contraflow event, consuming the builder.
    pub fn into_cb(self, cb: CbAction) -> (e: Event)
        ensures
            e@ == spec_insight(cb, self@.event_id, self@.ingest_ns, self@.op_meta),
    {
        Event::insight(cb, self.event_id, self.ingest_ns, self.op_meta)
    }
}

/// The views of a list of events.
pub open spec fn event_views(s: Seq<Event>) -> Seq<EventView> {
    s.map_values(|e: Event| e@)
}

/// Pairs a contraflow event with every connected pipeline: each binding is
/// visited exactly once, in order. The event itself is cloned for every
/// binding but the last, which receives the original.
#[verifier::loop_isolation(false)]
pub fn send_contraflow(pipelines: &Vec<PipelineBinding>, contraflow: Event) -> (out: Vec<
    (PipelineBinding, Event),
>)
    ensures
        out@.len() == pipelines@.len(),
        forall|i: int|
            0 <= i < out@.len() ==> (#[trigger] out@[i]).0@ == pipelines@[i]@ && out@[i].1@
                == contraflow@,
{
    let mut out: Vec<(PipelineBinding, Event)> = Vec::new();
    let n = pipelines.len();
    if n == 0 {
        return out;
    }
    let mut i: usize = 0;
    while i < n - 1
        invariant
            n == pipelines@.len(),
            n >= 1,
            i <= n - 1,
            out@.len() == i,
            forall|j: int|
                0 <= j < i ==> (#[trigger] out@[j]).0@ == pipelines@[j]@ && out@[j].1@
                    == contraflow@,
        decreases n - i,
    {
        out.push((pipelines[i].clone(), contraflow.clone()));
        i += 1;
    }
    out.push((pipelines[n - 1].clone(), contraflow));
    out
}

/// Fan-out visits every currently connected pipeline exactly once per
/// contraflow event: anything `send_contraflow` may return pairs each binding,
/// in order, with that one event.
pub proof fn lemma_fan_out_exactly_once(
    pipelines: &Vec<PipelineBinding>,
    contraflow: Event,
    out: Vec<(PipelineBinding, Event)>,
)
    requires
        call_ensures(send_contraflow, (pipelines, contraflow), out),
    ensures
        out@.len() == pipelines@.len(),
        forall|i: int|
            0 <= i < out@.len() ==> (#[trigger] out@[i]).0@ == pipelines@[i]@ && out@[i].1@
                == contraflow@,
{
}

/// The contraflow event one sink reply produces, if any.
pub open spec fn spec_reply_event(reply: SinkReply, duration: u64, t: CfDataView) -> Option<
    EventView,
> {
    match reply {
        SinkReply::Noop => None,
        SinkReply::Ack => Some(spec_cb_ack_with_timing(t.ingest_ns, t.event_id, t.op_meta, duration)),
        SinkReply::Fail => Some(spec_cb_fail(t.ingest_ns, t.event_id, t.op_meta)),
        SinkReply::CB(cb) => Some(spec_insight(cb, t.event_id, t.ingest_ns, t.op_meta)),
    }
}

/// The contraflow events a reply vector produces, in order, before the
/// auto-ack rule.
pub open spec fn spec_reply_events(replies: Seq<SinkReply>, duration: u64, t: CfDataView) -> Seq<
    EventView,
>
    decreases replies.len(),
{
    if replies.len() == 0 {
        Seq::empty()
    } else {
        spec_reply_events(replies.drop_last(), duration, t) + (match spec_reply_event(
            replies.last(),
            duration,
            t,
        ) {
            Some(e) => seq![e],
            None => Seq::empty(),
        })
    }
}

/// The contraflow events a reply vector produces: one per reply except
/// `Noop`, and, when every reply is `Noop` (or there is none) and an
/// automatic ack was requested, a single ack with the recorded duration.
pub open spec fn spec_handle_replies(
    replies: Seq<SinkReply>,
    duration: u64,
    t: CfDataView,
    send_auto_ack: bool,
) -> Seq<EventView> {
    let base = spec_reply_events(replies, duration, t);
    if base.len() == 0 && send_auto_ack {
        seq![spec_cb_ack_with_timing(t.ingest_ns, t.event_id, t.op_meta, duration)]
    } else {
        base
    }
}

/// Turns the replies of one user-sink invocation into contraflow events.
///
/// Every reply but `Noop` yields exactly one contraflow event, in reply
/// order; when no reply yields one and `send_auto_ack` is set, a single ack
/// carrying `duration` is produced instead.
#[verifier::loop_isolation(false)]
pub fn handle_replies(
    replies: Vec<SinkReply>,
    duration: u64,
    cf_builder: ContraflowBuilder,
    send_auto_ack: bool,
) -> (out: Vec<Event>)
    ensures
        event_views(out@) == spec_handle_replies(replies@, duration, cf_builder@, send_auto_ack),
{
    let mut out: Vec<Event> = Vec::new();
    let n = replies.len();
    let mut i: usize = 0;
    while i < n
        invariant
            n == replies@.len(),
            i <= n,
            event_views(out@) == spec_reply_events(replies@.take(i as int), duration, cf_builder@),
        decreases n - i,
    {
        match replies[i] {
            SinkReply::Noop => {},
            SinkReply::Ack => {
                out.push(cf_builder.ack(duration));
            },
            SinkReply::Fail => {
                out.push(cf_builder.fail());
            },
            SinkReply::CB(cb) => {
                out.push(cf_builder.cb(cb));
            },
        }
        proof {
            assert(replies@.take(i + 1).drop_last() =~= replies@.take(i as int));
            assert(replies@.take(i + 1).last() == replies@[i as int]);
            assert(event_views(out@) =~= spec_reply_events(
                replies@.take(i + 1),
                duration,
                cf_builder@,
            ));
        }
        i += 1;
    }
    proof {
        assert(replies@.take(n as int) =~= replies@);
    }
    if out.len() == 0 && send_auto_ack {
        let ghost out0 = event_views(out@);
        out.push(cf_builder.into_ack(duration));
        proof {
            assert(out0.len() == 0);
            assert(event_views(out@) =~= seq![
                spec_cb_ack_with_timing(
                    cf_builder@.ingest_ns,
                    cf_builder@.event_id,
                    cf_builder@.op_meta,
                    duration,
                ),
            ]);
        }
    }
    out
}

/// The view of a user-sink result.
pub open spec fn result_views(res: Result<Vec<SinkReply>, Error>) -> Result<Seq<SinkReply>, Error> {
    match res {
        Ok(replies) => Ok(replies@),
        Err(e) => Err(e),
    }
}

/// The contraflow events the manager emits for one handled event: the reply
/// events on success, a single fail for a failed transactional event, and
/// nothing for a failed non-transactional one.
pub open spec fn spec_event_contraflow(
    res: Result<Seq<SinkReply>, Error>,
    duration: u64,
    t: CfDataView,
    transactional: bool,
    auto_ack: bool,
) -> Seq<EventView> {
    match res {
        Ok(replies) => spec_handle_replies(replies, duration, t, transactional && auto_ack),
        Err(_) => if transactional {
            seq![spec_cb_fail(t.ingest_ns, t.event_id, t.op_meta)]
        } else {
            Seq::empty()
        },
    }
}

/// Turns the outcome of one `on_event` invocation into contraflow events:
/// replies are handled with auto-ack exactly for transactional events on an
/// auto-acking sink, and an error fails the event exactly when it was
/// transactional.
pub fn handle_event_result(
    res: Result<Vec<SinkReply>, Error>,
    duration: u64,
    cf_builder: ContraflowBuilder,
    transactional: bool,
    auto_ack: bool,
) -> (out: Vec<Event>)
    ensures
        event_views(out@) == spec_event_contraflow(
            result_views(res),
            duration,
            cf_builder@,
            transactional,
            auto_ack,
        ),
{
    match res {
        Ok(replies) => handle_replies(replies, duration, cf_builder, transactional && auto_ack),
        Err(_) => {
            let mut out: Vec<Event> = Vec::new();
            if transactional {
                out.push(cf_builder.into_fail());
                proof {
                    assert(event_views(out@) =~= seq![
                        spec_cb_fail(cf_builder@.ingest_ns, cf_builder@.event_id, cf_builder@.op_meta),
                    ]);
                }
            } else {
                proof {
                    assert(event_views(out@) =~= Seq::<EventView>::empty());
                }
            }
            out
        },
    }
}

/// The retained metadata inside an asynchronous reply.
pub open spec fn spec_async_reply_data(reply: AsyncSinkReply) -> CfDataView {
    match reply {
        AsyncSinkReply::Ack(data, _) => data@,
        AsyncSinkReply::Fail(data) => data@,
        AsyncSinkReply::CB(data, _) => data@,
    }
}

/// The contraflow event an asynchronous sink reply translates to.
pub open spec fn spec_async_reply_event(reply: AsyncSinkReply) -> EventView {
    let t = spec_async_reply_data(reply);
    match reply {
        AsyncSinkReply::Ack(_, duration) => spec_cb_ack_with_timing(
            t.ingest_ns,
            t.event_id,
            t.op_meta,
            duration,
        ),
        AsyncSinkReply::Fail(_) => spec_cb_fail(t.ingest_ns, t.event_id, t.op_meta),
        AsyncSinkReply::CB(_, cb) => spec_insight(cb, t.event_id, t.ingest_ns, t.op_meta),
    }
}

/// Translates one asynchronous sink reply into the contraflow event to fan
/// out.
pub fn handle_async_reply(reply: AsyncSinkReply) -> (cf: Event)
    ensures
        cf@ == spec_async_reply_event(reply),
{
    match reply {
        AsyncSinkReply::Ack(data, duration) => Event::cb_ack_with_timing(
            data.ingest_ns,
            data.event_id,
            data.op_meta,
            duration,
        ),
        AsyncSinkReply::Fail(data) => Event::cb_fail(data.ingest_ns, data.event_id, data.op_meta),
        AsyncSinkReply::CB(data, cb) => Event::insight(cb, data.event_id, data.ingest_ns, data.op_meta),
    }
}

/// The finite lifecycle states of a sink.
#[derive(Clone, Copy, PartialEq, Eq, Structural, Debug)]
pub enum SinkState {
    /// Freshly created, not yet started.
    Initialized,
    /// Started and processing events.
    Running,
    /// Paused; control messages are still handled.
    Paused,
    /// A drain was requested and not every started source has drained yet.
    Draining,
    /// Every started source has drained.
    Drained,
    /// Stopped; the actor loop exits.
    Stopped,
}

/// The outcome of a drain request, telling the driver what to do with the
/// reply channel that came with it.
#[derive(Clone, Copy, PartialEq, Eq, Structural, Debug)]
pub enum DrainOutcome {
    /// A drain is already under way; the request is dropped.
    Ignored,
    /// The sink is already drained; answer on the request's own channel.
    AlreadyDrained,
    /// Draining began; the driver must retain the reply channel.
    Waiting,
    /// Quorum was already met; the sink is drained, answer right away.
    DrainedNow,
}

/// The mathematical content of a sink manager.
pub ghost struct SinkManagerView {
    pub state: SinkState,
    pub pipelines: Seq<PipelineBindingView>,
    pub merged_operator_meta: Map<u64, u64>,
    pub starts_received: Set<u64>,
    pub drains_received: Set<u64>,
    pub drain_channel: bool,
    pub metrics: MetricsReporterView,
}

/// The manager after a drain request, with the outcome for the driver.
pub open spec fn spec_drain_step(m: SinkManagerView) -> (SinkManagerView, DrainOutcome) {
    if m.state == SinkState::Draining {
        (m, DrainOutcome::Ignored)
    } else if m.state == SinkState::Drained {
        (m, DrainOutcome::AlreadyDrained)
    } else if m.starts_received.subset_of(m.drains_received) {
        (
            SinkManagerView { state: SinkState::Drained, drain_channel: false, ..m },
            DrainOutcome::DrainedNow,
        )
    } else {
        (
            SinkManagerView { state: SinkState::Draining, drain_channel: true, ..m },
            DrainOutcome::Waiting,
        )
    }
}

/// The manager after the bookkeeping part of one signal.
pub open spec fn spec_signal_step(m: SinkManagerView, kind: Option<SignalKind>) -> SinkManagerView {
    match kind {
        Some(SignalKind::Drain(uid)) => {
            let drains = m.drains_received.insert(uid);
            if m.starts_received.subset_of(drains) {
                SinkManagerView {
                    state: SinkState::Drained,
                    drains_received: drains,
                    drain_channel: false,
                    ..m
                }
            } else {
                SinkManagerView { drains_received: drains, ..m }
            }
        },
        Some(SignalKind::Start(uid)) => SinkManagerView {
            starts_received: m.starts_received.insert(uid),
            ..m
        },
        _ => m,
    }
}

/// Whether the bookkeeping part of one signal must notify the connector
/// supervisor that the sink has drained.
pub open spec fn spec_signal_notify(m: SinkManagerView, kind: Option<SignalKind>) -> bool {
    match kind {
        Some(SignalKind::Drain(uid)) => m.starts_received.subset_of(m.drains_received.insert(uid))
            && m.drain_channel,
        _ => false,
    }
}

/// The per-connector sink manager: the lifecycle state machine, the connected
/// pipelines, the merged operator trail, and the drain bookkeeping.
pub struct SinkManager {
    state: SinkState,
    pipelines: Vec<PipelineBinding>,
    merged_operator_meta: OpMeta,
    starts_received: UidSet,
    drains_received: UidSet,
    drain_channel: bool,
    metrics_reporter: MetricsSinkReporter,
}

impl View for SinkManager {
    type V = SinkManagerView;

    closed spec fn view(&self) -> SinkManagerView {
        SinkManagerView {
            state: self.state,
            pipelines: binding_views(self.pipelines@),
            merged_operator_meta: self.merged_operator_meta@,
            starts_received: self.starts_received@,
            drains_received: self.drains_received@,
            drain_channel: self.drain_channel,
            metrics: self.metrics_reporter@,
        }
    }
}

impl SinkManager {
    /// A fresh manager: initialized, with no pipelines, no observed sources
    /// and no retained drain channel.
    pub fn new(metrics_reporter: MetricsSinkReporter) -> (r: Self)
        ensures
            r@ == (SinkManagerView {
                state: SinkState::Initialized,
                pipelines: Seq::empty(),
                merged_operator_meta: Map::empty(),
                starts_received: Set::empty(),
                drains_received: Set::empty(),
                drain_channel: false,
                metrics: metrics_reporter@,
            }),
    {
        let r = SinkManager {
            state: SinkState::Initialized,
            pipelines: Vec::new(),
            merged_operator_meta: OpMeta::new(),
            starts_received: UidSet::new(),
            drains_received: UidSet::new(),
            drain_channel: false,
            metrics_reporter,
        };
        proof {
            assert(binding_views(r.pipelines@) =~= Seq::<PipelineBindingView>::empty());
        }
        r
    }

    /// The current lifecycle state.
    pub fn state(&self) -> (r: SinkState)
        ensures
            r == self@.state,
    {
        self.state
    }

    /// The pipelines connected to the `In` port, in connection order.
    pub fn pipelines(&self) -> (r: &Vec<PipelineBinding>)
        ensures
            binding_views(r@) == self@.pipelines,
    {
        &self.pipelines
    }

    /// Whether a drain reply channel is currently retained by the driver.
    pub fn drain_channel_retained(&self) -> (r: bool)
        ensures
            r == self@.drain_channel,
    {
        self.drain_channel
    }

    /// Appends pipelines to the `In` port. A connect on any other port is a
    /// no-op.
    #[verifier::loop_isolation(false)]
    pub fn handle_connect(&mut self, port: Port, pipelines: Vec<PipelineBinding>)
        ensures
            port == Port::In ==> final(self)@ == (SinkManagerView {
                pipelines: old(self)@.pipelines + binding_views(pipelines@),
                ..old(self)@
            }),
            port != Port::In ==> *final(self) == *old(self),
            final(self)@ == spec_msg_step(old(self)@, (SinkMsg::Connect { port, pipelines })),
    {
        if port == Port::In {
            let mut rest = pipelines;
            let ghost s0 = self.pipelines@;
            let ghost extra = rest@;
            self.pipelines.append(&mut rest);
            proof {
                assert(binding_views(self.pipelines@) =~= binding_views(s0) + binding_views(extra));
            }
        }
    }

    /// Removes every pipeline whose url matches from the `In` port. A
    /// disconnect on any other port is a no-op.
    #[verifier::loop_isolation(false)]
    pub fn handle_disconnect(&mut self, id: &String, port: Port)
        ensures
            port == Port::In ==> final(self)@ == (SinkManagerView {
                pipelines: old(self)@.pipelines.filter(
                    |b: PipelineBindingView| b.url != id@,
                ),
                ..old(self)@
            }),
            port != Port::In ==> *final(self) == *old(self),
            final(self)@ == spec_msg_step(old(self)@, (SinkMsg::Disconnect { id: *id, port })),
    {
        if port == Port::In {
            let mut kept: Vec<PipelineBinding> = Vec::new();
            std::mem::swap(&mut kept, &mut self.pipelines);
            let old_pipelines = kept;
            let mut result: Vec<PipelineBinding> = Vec::new();
            let ghost s0 = binding_views(old_pipelines@);
            let ghost pred = |b: PipelineBindingView| b.url != id@;
            let n = old_pipelines.len();
            let mut i: usize = 0;
            while i < n
                invariant
                    n == old_pipelines@.len(),
                    i <= n,
                    s0 == binding_views(old_pipelines@),
                    binding_views(result@) == s0.take(i as int).filter(pred),
                decreases n - i,
            {
                let keep = !(old_pipelines[i].url == *id);
                proof {
                    reveal(Seq::filter);
                    assert(s0[i as int] == old_pipelines@[i as int]@);
                    assert(keep == pred(s0[i as int]));
                    assert(s0.take(i + 1).drop_last() =~= s0.take(i as int));
                    assert(s0.take(i + 1).last() == s0[i as int]);
                    assert(s0.take(i + 1).filter(pred) == if pred(s0[i as int]) {
                        s0.take(i as int).filter(pred).push(s0[i as int])
                    } else {
                        s0.take(i as int).filter(pred)
                    });
                }
                if keep {
                    result.push(old_pipelines[i].clone());
                    proof {
                        assert(binding_views(result@) =~= s0.take(i as int).filter(pred).push(
                            s0[i as int],
                        ));
                        assert(binding_views(result@) =~= s0.take(i + 1).filter(pred));
                    }
                } else {
                    proof {
                        assert(binding_views(result@) =~= s0.take(i + 1).filter(pred));
                    }
                }
                i += 1;
            }
            proof {
                assert(s0.take(n as int) =~= s0);
            }
            self.pipelines = result;
        }
    }

    /// Starts an initialized sink; the driver then calls the sink's start
    /// hook. In any other state the message is dropped.
    pub fn handle_start(&mut self) -> (r: bool)
        ensures
            r == (old(self)@.state == SinkState::Initialized),
            r ==> final(self)@ == (SinkManagerView { state: SinkState::Running, ..old(self)@ }),
            !r ==> *final(self) == *old(self),
            final(self)@ == spec_msg_step(old(self)@, SinkMsg::Start),
    {
        if self.state == SinkState::Initialized {
            self.state = SinkState::Running;
            true
        } else {
            false
        }
    }

    /// Pauses a running sink; the driver then calls the sink's pause hook. In
    /// any other state the message is dropped.
    pub fn handle_pause(&mut self) -> (r: bool)
        ensures
            r == (old(self)@.state == SinkState::Running),
            r ==> final(self)@ == (SinkManagerView { state: SinkState::Paused, ..old(self)@ }),
            !r ==> *final(self) == *old(self),
            final(self)@ == spec_msg_step(old(self)@, SinkMsg::Pause),
    {
        if self.state == SinkState::Running {
            self.state = SinkState::Paused;
            true
        } else {
            false
        }
    }

    /// Resumes a paused sink; the driver then calls the sink's resume hook.
    /// In any other state the message is dropped.
    pub fn handle_resume(&mut self) -> (r: bool)
        ensures
            r == (old(self)@.state == SinkState::Paused),
            r ==> final(self)@ == (SinkManagerView { state: SinkState::Running, ..old(self)@ }),
            !r ==> *final(self) == *old(self),
            final(self)@ == spec_msg_step(old(self)@, SinkMsg::Resume),
    {
        if self.state == SinkState::Paused {
            self.state = SinkState::Running;
            true
        } else {
            false
        }
    }

    /// Stops the sink from any state; the driver calls the sink's stop hook
    /// and exits its loop.
    pub fn handle_stop(&mut self)
        ensures
            final(self)@ == (SinkManagerView { state: SinkState::Stopped, ..old(self)@ }),
            final(self)@ == spec_msg_step(old(self)@, SinkMsg::Stop),
    {
        self.state = SinkState::Stopped;
    }

    /// Handles a drain request. While draining, further requests are
    /// dropped; when already drained, the driver answers at once; otherwise
    /// the sink starts draining, and completes immediately if every started
    /// source has already drained.
    pub fn handle_drain(&mut self) -> (r: DrainOutcome)
        ensures
            (final(self)@, r) == spec_drain_step(old(self)@),
            final(self)@ == spec_msg_step(old(self)@, SinkMsg::Drain),
    {
        if self.state == SinkState::Draining {
            DrainOutcome::Ignored
        } else if self.state == SinkState::Drained {
            DrainOutcome::AlreadyDrained
        } else if self.drains_received.is_superset(&self.starts_received) {
            self.state = SinkState::Drained;
            self.drain_channel = false;
            DrainOutcome::DrainedNow
        } else {
            self.state = SinkState::Draining;
            self.drain_channel = true;
            DrainOutcome::Waiting
        }
    }

    /// Builds the circuit-breaker open contraflow for a re-established
    /// connection, from the merged operator trail.
    pub fn handle_connection_established(&self, ingest_ns: u64) -> (cf: Event)
        ensures
            cf@ == spec_cb_open(ingest_ns, self@.merged_operator_meta),
    {
        Event::cb_open(ingest_ns, self.merged_operator_meta.clone())
    }

    /// Handles a lost connection: clears all per-stream serializer state and
    /// builds the circuit-breaker close contraflow from the merged operator
    /// trail.
    pub fn handle_connection_lost(&mut self, serializer: &mut EventSerializer, ingest_ns: u64) -> (
        cf: Event)
        ensures
            *final(self) == *old(self),
            final(serializer)@.codec == old(serializer)@.codec,
            final(serializer)@.postprocessors == old(serializer)@.postprocessors,
            final(serializer)@.streams == Set::<u64>::empty(),
            cf@ == spec_cb_close(ingest_ns, old(self)@.merged_operator_meta),
            final(self)@ == spec_msg_step(old(self)@, SinkMsg::ConnectionLost),
    {
        serializer.clear();
        Event::cb_close(ingest_ns, self.merged_operator_meta.clone())
    }

    /// The bookkeeping done before an event is handed to the user sink:
    /// counts it, decides whether the periodic metrics flush is due, and
    /// merges the event's operator trail into the merged trail. The caller
    /// captures the contraflow metadata before the event moves on.
    pub fn handle_event_ingress(&mut self, event: &Event) -> (flush: Option<u64>)
        ensures
            flush == if spec_flush_due(spec_increment(old(self)@.metrics), event@.ingest_ns) {
                Some(event@.ingest_ns)
            } else {
                None::<u64>
            },
            final(self)@ == (SinkManagerView {
                merged_operator_meta: old(self)@.merged_operator_meta.union_prefer_right(
                    event@.op_meta,
                ),
                metrics: spec_after_flush(spec_increment(old(self)@.metrics), event@.ingest_ns),
                ..old(self)@
            }),
            final(self)@ == spec_msg_step(
                old(self)@,
                (SinkMsg::Event { event: *event, port: Port::In }),
            ),
    {
        self.metrics_reporter.increment_in();
        let flush = self.metrics_reporter.periodic_flush(event.ingest_ns);
        self.merged_operator_meta.merge(event.op_meta.clone());
        flush
    }

    /// The bookkeeping done before a signal is handed to the user sink:
    /// records start and drain announcements, completes the drain when the
    /// drained sources cover the started ones, and builds the `Drained`
    /// contraflow answering a drain signal. The returned flag tells the
    /// driver to send the drained notice on the retained reply channel.
    pub fn handle_signal_pre(&mut self, signal: &Event) -> (r: (Option<Event>, bool))
        ensures
            final(self)@ == spec_signal_step(old(self)@, signal@.kind),
            final(self)@ == spec_msg_step(old(self)@, (SinkMsg::Signal { signal: *signal })),
            r.1 == spec_signal_notify(old(self)@, signal@.kind),
            (match signal@.kind {
                Some(SignalKind::Drain(uid)) => r.0 matches Some(e) && e@ == spec_insight(
                    CbAction::Drained(uid),
                    signal@.id,
                    signal@.ingest_ns,
                    signal@.op_meta,
                ),
                _ => r.0 is None,
            }),
    {
        let mut cf: Option<Event> = None;
        let mut notify = false;
        match signal.kind {
            Some(SignalKind::Drain(uid)) => {
                self.drains_received.insert(uid);
                if self.drains_received.is_superset(&self.starts_received) {
                    self.state = SinkState::Drained;
                    if self.drain_channel {
                        self.drain_channel = false;
                        notify = true;
                    }
                }
                cf = Some(ContraflowBuilder::from(signal).into_cb(CbAction::Drained(uid)));
            },
            Some(SignalKind::Start(uid)) => {
                self.starts_received.insert(uid);
            },
            _ => {},
        }
        (cf, notify)
    }
}

/// Whether a contraflow event is an ack or fail answering the given event.
pub open spec fn is_ack_or_fail_for(e: EventView, id: u64) -> bool {
    e.id == id && (e.cb is Ack || e.cb is Fail)
}

/// How many contraflow events in a list ack or fail the given event.
pub open spec fn count_ack_fail(events: Seq<EventView>, id: u64) -> nat {
    events.filter(|e: EventView| is_ack_or_fail_for(e, id)).len()
}

/// How many replies in a vector are `Ack` or `Fail`.
pub open spec fn count_ack_fail_replies(replies: Seq<SinkReply>) -> nat {
    replies.filter(|r: SinkReply| r is Ack || r is Fail).len()
}

/// How many replies in a vector produce a contraflow event.
pub open spec fn count_emitting_replies(replies: Seq<SinkReply>) -> nat {
    replies.filter(|r: SinkReply| !(r is Noop)).len()
}

/// Whether a reply vector holds an explicit circuit-breaker reply.
pub open spec fn has_cb_reply(replies: Seq<SinkReply>) -> bool {
    exists|i: int| 0 <= i < replies.len() && (#[trigger] replies[i]) is CB
}

/// Filtering a singleton list.
proof fn lemma_filter_singleton<A>(x: A, pred: spec_fn(A) -> bool)
    ensures
        seq![x].filter(pred) == if pred(x) {
            seq![x]
        } else {
            Seq::<A>::empty()
        },
{
    reveal_with_fuel(Seq::filter, 2);
    assert(seq![x].drop_last() =~= Seq::<A>::empty());
    assert(Seq::<A>::empty().filter(pred) =~= Seq::<A>::empty());
    if pred(x) {
        assert(seq![x].filter(pred) =~= seq![x]);
    }
}

/// Two predicates that agree on every element filter a list identically.
proof fn lemma_filter_agree<A>(s: Seq<A>, p: spec_fn(A) -> bool, q: spec_fn(A) -> bool)
    requires
        forall|i: int| 0 <= i < s.len() ==> p(#[trigger] s[i]) == q(s[i]),
    ensures
        s.filter(p) == s.filter(q),
    decreases s.len(),
{
    reveal(Seq::filter);
    if s.len() > 0 {
        assert(forall|i: int|
            0 <= i < s.drop_last().len() ==> p(#[trigger] s.drop_last()[i]) == q(
                s.drop_last()[i],
            ));
        lemma_filter_agree(s.drop_last(), p, q);
        assert(p(s.last()) == q(s.last()));
    }
}

/// Every contraflow event of a reply vector answers the template's event, and
/// the ack-or-fail events among them correspond one to one to the `Ack` and
/// `Fail` replies.
proof fn lemma_reply_events_accounting(replies: Seq<SinkReply>, duration: u64, t: CfDataView)
    ensures
        spec_reply_events(replies, duration, t).len() == count_emitting_replies(replies),
        !has_cb_reply(replies) ==> count_ack_fail(spec_reply_events(replies, duration, t), t.event_id)
            == count_ack_fail_replies(replies),
    decreases replies.len(),
{
    reveal(Seq::filter);
    let events = spec_reply_events(replies, duration, t);
    let af = |e: EventView| is_ack_or_fail_for(e, t.event_id);
    let emitting = |r: SinkReply| !(r is Noop);
    let afr = |r: SinkReply| r is Ack || r is Fail;
    if replies.len() == 0 {
        assert(events =~= Seq::<EventView>::empty());
    } else {
        let rest = replies.drop_last();
        lemma_reply_events_accounting(rest, duration, t);
        if !has_cb_reply(replies) {
            assert(forall|i: int|
                0 <= i < rest.len() ==> !((#[trigger] rest[i]) is CB)) by {
                assert(forall|i: int|
                    0 <= i < rest.len() ==> rest[i] == #[trigger] replies[i]);
            }
            assert(!has_cb_reply(rest));
        }
        let tail = match spec_reply_event(replies.last(), duration, t) {
            Some(e) => seq![e],
            None => Seq::<EventView>::empty(),
        };
        assert(events == spec_reply_events(rest, duration, t) + tail);
        Seq::filter_distributes_over_add(spec_reply_events(rest, duration, t), tail, af);
        assert(replies =~= rest.push(replies.last()));
        Seq::filter_distributes_over_add(rest, seq![replies.last()], emitting);
        Seq::filter_distributes_over_add(rest, seq![replies.last()], afr);
        assert(rest + seq![replies.last()] =~= replies);
        lemma_filter_singleton(replies.last(), emitting);
        lemma_filter_singleton(replies.last(), afr);
        match spec_reply_event(replies.last(), duration, t) {
            Some(e) => {
                lemma_filter_singleton(e, af);
                assert(tail.filter(af).len() == if af(e) {
                    1int
                } else {
                    0int
                });
            },
            None => {
                assert(tail.filter(af) =~= Seq::<EventView>::empty());
            },
        }
    }
}

/// For every transactional event handled while the sink acknowledges
/// automatically, exactly one ack-or-fail contraflow event answering that
/// event is emitted, provided the sink did not reply with an explicit
/// circuit-breaker action and did not reply with more than one ack or fail.
pub proof fn lemma_transactional_single_ack_or_fail(
    res: Result<Seq<SinkReply>, Error>,
    duration: u64,
    t: CfDataView,
)
    requires
        res matches Ok(replies) ==> !has_cb_reply(replies) && count_ack_fail_replies(replies) <= 1,
    ensures
        count_ack_fail(spec_event_contraflow(res, duration, t, true, true), t.event_id) == 1,
{
    let af = |e: EventView| is_ack_or_fail_for(e, t.event_id);
    match res {
        Ok(replies) => {
            lemma_reply_events_accounting(replies, duration, t);
            let base = spec_reply_events(replies, duration, t);
            if base.len() == 0 {
                let ack = spec_cb_ack_with_timing(t.ingest_ns, t.event_id, t.op_meta, duration);
                lemma_filter_singleton(ack, af);
            } else {
                let emitting = |r: SinkReply| !(r is Noop);
                let afr = |r: SinkReply| r is Ack || r is Fail;
                assert(forall|i: int|
                    0 <= i < replies.len() ==> emitting(#[trigger] replies[i]) == afr(
                        replies[i],
                    ));
                lemma_filter_agree(replies, emitting, afr);
                assert(count_emitting_replies(replies) == count_ack_fail_replies(replies));
            }
        },
        Err(_) => {
            let fail = spec_cb_fail(t.ingest_ns, t.event_id, t.op_meta);
            lemma_filter_singleton(fail, af);
        },
    }
}

/// For a non-transactional event the sink emits exactly the ack and fail
/// contraflow the user sink itself returned, and none on an error, whether or
/// not the sink acknowledges automatically.
pub proof fn lemma_non_transactional_accounting(
    res: Result<Seq<SinkReply>, Error>,
    duration: u64,
    t: CfDataView,
    auto_ack: bool,
)
    requires
        res matches Ok(replies) ==> !has_cb_reply(replies),
    ensures
        count_ack_fail(spec_event_contraflow(res, duration, t, false, auto_ack), t.event_id)
            == match res {
            Ok(replies) => count_ack_fail_replies(replies),
            Err(_) => 0,
        },
{
    reveal(Seq::filter);
    match res {
        Ok(replies) => {
            lemma_reply_events_accounting(replies, duration, t);
        },
        Err(_) => {
            assert(spec_event_contraflow(res, duration, t, false, auto_ack)
                =~= Seq::<EventView>::empty());
        },
    }
}

/// A drain request completes the drain exactly when the sink is not already
/// draining or drained and every source that announced a start has announced
/// a drain; an already drained sink stays drained, and a draining sink
/// ignores the request.
pub proof fn lemma_drain_request_completion(m: SinkManagerView)
    ensures
        spec_drain_step(m).0.state == SinkState::Drained <==> m.state == SinkState::Drained || (
        m.state != SinkState::Draining && m.starts_received.subset_of(m.drains_received)),
        spec_drain_step(m).1 == DrainOutcome::DrainedNow <==> (m.state != SinkState::Draining
            && m.state != SinkState::Drained && m.starts_received.subset_of(m.drains_received)),
        spec_drain_step(m).0.starts_received == m.starts_received,
        spec_drain_step(m).0.drains_received == m.drains_received,
{
}

/// A drain signal from a source completes the drain exactly when, counting
/// that source as drained, the drained sources cover the started ones; the
/// supervisor is notified exactly when that happens while a drain reply
/// channel is retained. Start and drain announcements are only ever added.
pub proof fn lemma_drain_signal_completion(m: SinkManagerView, uid: u64)
    ensures
        spec_signal_step(m, Some(SignalKind::Drain(uid))).state == SinkState::Drained <==> m.state
            == SinkState::Drained || m.starts_received.subset_of(m.drains_received.insert(uid)),
        spec_signal_step(m, Some(SignalKind::Drain(uid))).drains_received
            == m.drains_received.insert(uid),
        spec_signal_step(m, Some(SignalKind::Drain(uid))).starts_received == m.starts_received,
        spec_signal_notify(m, Some(SignalKind::Drain(uid))) == (m.starts_received.subset_of(
            m.drains_received.insert(uid),
        ) && m.drain_channel),
        spec_signal_step(m, Some(SignalKind::Start(uid))).starts_received
            == m.starts_received.insert(uid),
        spec_signal_step(m, Some(SignalKind::Start(uid))).state == m.state,
{
}

/// What became of a stream when a writer is told it is done.
#[derive(Clone, Copy, PartialEq, Eq, Structural, Debug)]
pub enum StreamDone {
    /// Only this stream closed.
    StreamClosed,
    /// The whole connector closed with it.
    ConnectorClosed,
}

/// The contract a concrete sink implements: event and signal handling,
/// metrics, lifecycle hooks, and the acknowledgement mode it advertises. The
/// driver owns one such value and invokes it from its loop.
pub trait Sink {
    /// Called for every event, with the port it came through, the shared
    /// serializer and the time the handling started.
    fn on_event(
        &mut self,
        input: Port,
        event: Event,
        ctx: &SinkContext,
        serializer: &mut EventSerializer,
        start: u64,
    ) -> Result<Vec<SinkReply>, Error>;

    /// Called for every signal.
    fn on_signal(
        &mut self,
        _signal: Event,
        _ctx: &SinkContext,
        _serializer: &mut EventSerializer,
    ) -> Result<Vec<SinkReply>, Error> {
        Ok(Vec::new())
    }

    /// Pulls metrics payloads from the sink.
    fn metrics(&mut self, _timestamp: u64) -> Vec<Value> {
        Vec::new()
    }

    /// Called when the sink starts.
    fn on_start(&mut self, _ctx: &mut SinkContext) {
    }

    /// Called when the sink pauses.
    fn on_pause(&mut self, _ctx: &mut SinkContext) {
    }

    /// Called when the sink resumes.
    fn on_resume(&mut self, _ctx: &mut SinkContext) {
    }

    /// Called when the sink stops.
    fn on_stop(&mut self, _ctx: &mut SinkContext) {
    }

    /// Called when the sink lost connectivity.
    fn on_connection_lost(&mut self, _ctx: &mut SinkContext) {
    }

    /// Called when the sink re-established connectivity.
    fn on_connection_established(&mut self, _ctx: &mut SinkContext) {
    }

    /// When true, the manager acknowledges or fails transactional events
    /// automatically; such sinks reply `Noop`, or `Fail` when they fail at
    /// once. When false, the sink must acknowledge or fail every event
    /// itself, typically through the asynchronous reply channel.
    fn auto_ack(&self) -> bool {
        true
    }

    /// When true, deliveries may outlive `on_event`; when false, an event can
    /// be considered delivered once `on_event` returns.
    fn asynchronous(&self) -> bool {
        false
    }
}

/// The contract of a writer behind a stream-oriented sink.
pub trait StreamWriter {
    /// Writes the given byte frames.
    fn write(&mut self, data: Vec<Vec<u8>>) -> Result<(), Error>;

    /// Called when a stream is done; says what became of it.
    fn on_done(&self, _stream: u64) -> Result<StreamDone, Error> {
        Ok(StreamDone::StreamClosed)
    }
}

/// The whole transition table in one place: what one received message does to
/// the manager's bookkeeping. A message whose precondition fails leaves the
/// manager unchanged. The event and signal rows cover only the bookkeeping;
/// the contraflow they emit is given by `spec_event_contraflow`,
/// `spec_signal_notify` and the reply handling.
pub open spec fn spec_msg_step(m: SinkManagerView, msg: SinkMsg) -> SinkManagerView {
    match msg {
        SinkMsg::Connect { port, pipelines } => if port == Port::In {
            SinkManagerView { pipelines: m.pipelines + binding_views(pipelines@), ..m }
        } else {
            m
        },
        SinkMsg::Disconnect { id, port } => if port == Port::In {
            SinkManagerView {
                pipelines: m.pipelines.filter(|b: PipelineBindingView| b.url != id@),
                ..m
            }
        } else {
            m
        },
        SinkMsg::Start => if m.state == SinkState::Initialized {
            SinkManagerView { state: SinkState::Running, ..m }
        } else {
            m
        },
        SinkMsg::Pause => if m.state == SinkState::Running {
            SinkManagerView { state: SinkState::Paused, ..m }
        } else {
            m
        },
        SinkMsg::Resume => if m.state == SinkState::Paused {
            SinkManagerView { state: SinkState::Running, ..m }
        } else {
            m
        },
        SinkMsg::Stop => SinkManagerView { state: SinkState::Stopped, ..m },
        SinkMsg::Drain => spec_drain_step(m).0,
        SinkMsg::ConnectionEstablished => m,
        SinkMsg::ConnectionLost => m,
        SinkMsg::Event { event, port } => SinkManagerView {
            merged_operator_meta: m.merged_operator_meta.union_prefer_right(event@.op_meta),
            metrics: spec_after_flush(spec_increment(m.metrics), event@.ingest_ns),
            ..m
        },
        SinkMsg::Signal { signal } => spec_signal_step(m, signal@.kind),
    }
}

/// The manager after a whole history of received messages.
pub open spec fn spec_run(m: SinkManagerView, msgs: Seq<SinkMsg>) -> SinkManagerView
    decreases msgs.len(),
{
    if msgs.len() == 0 {
        m
    } else {
        spec_msg_step(spec_run(m, msgs.drop_last()), msgs.last())
    }
}

/// The signal discriminator a message carries, if it is a signal.
pub open spec fn spec_msg_signal_kind(msg: SinkMsg) -> Option<SignalKind> {
    match msg {
        SinkMsg::Signal { signal } => signal@.kind,
        _ => None,
    }
}

/// The source identifiers of the start signals in a history.
pub open spec fn spec_start_uids(msgs: Seq<SinkMsg>) -> Set<u64> {
    Set::new(
        |uid: u64|
            exists|i: int|
                0 <= i < msgs.len() && spec_msg_signal_kind(#[trigger] msgs[i]) == Some(
                    SignalKind::Start(uid),
                ),
    )
}

/// The source identifiers of the drain signals in a history.
pub open spec fn spec_drain_uids(msgs: Seq<SinkMsg>) -> Set<u64> {
    Set::new(
        |uid: u64|
            exists|i: int|
                0 <= i < msgs.len() && spec_msg_signal_kind(#[trigger] msgs[i]) == Some(
                    SignalKind::Drain(uid),
                ),
    )
}

/// One message never removes an observed source, and observes exactly the
/// start and drain announcements it carries.
proof fn lemma_msg_step_observes_sources(m: SinkManagerView, msg: SinkMsg)
    ensures
        spec_msg_step(m, msg).starts_received =~= m.starts_received + spec_start_uids(seq![msg]),
        spec_msg_step(m, msg).drains_received =~= m.drains_received + spec_drain_uids(seq![msg]),
{
    match msg {
        SinkMsg::Signal { signal } => {
            match signal@.kind {
                Some(SignalKind::Start(uid)) => {
                    assert(seq![msg][0] == msg);
                    assert(spec_start_uids(seq![msg]) =~= Set::<u64>::empty().insert(uid));
                    assert(spec_drain_uids(seq![msg]) =~= Set::<u64>::empty());
                },
                Some(SignalKind::Drain(uid)) => {
                    assert(seq![msg][0] == msg);
                    assert(spec_start_uids(seq![msg]) =~= Set::<u64>::empty());
                    assert(spec_drain_uids(seq![msg]) =~= Set::<u64>::empty().insert(uid));
                },
                _ => {
                    assert(spec_start_uids(seq![msg]) =~= Set::<u64>::empty());
                    assert(spec_drain_uids(seq![msg]) =~= Set::<u64>::empty());
                },
            }
        },
        _ => {
            assert(spec_start_uids(seq![msg]) =~= Set::<u64>::empty());
            assert(spec_drain_uids(seq![msg]) =~= Set::<u64>::empty());
        },
    }
}

/// The drain coordinator's sets hold exactly the sources observed on signals:
/// over any history, the started and drained sets grow to the initial sets
/// joined with the identifiers the history announced.
pub proof fn lemma_run_observes_sources(m: SinkManagerView, msgs: Seq<SinkMsg>)
    ensures
        spec_run(m, msgs).starts_received =~= m.starts_received + spec_start_uids(msgs),
        spec_run(m, msgs).drains_received =~= m.drains_received + spec_drain_uids(msgs),
    decreases msgs.len(),
{
    if msgs.len() == 0 {
        assert(spec_start_uids(msgs) =~= Set::<u64>::empty());
        assert(spec_drain_uids(msgs) =~= Set::<u64>::empty());
    } else {
        let prefix = msgs.drop_last();
        let last = msgs.last();
        lemma_run_observes_sources(m, prefix);
        lemma_msg_step_observes_sources(spec_run(m, prefix), last);
        assert forall|uid: u64| spec_start_uids(msgs).contains(uid) implies spec_start_uids(
            prefix,
        ).contains(uid) || spec_start_uids(seq![last]).contains(uid) by {
            let i = choose|i: int|
                0 <= i < msgs.len() && spec_msg_signal_kind(#[trigger] msgs[i]) == Some(
                    SignalKind::Start(uid),
                );
            if i < msgs.len() - 1 {
                assert(prefix[i] == msgs[i]);
            } else {
                assert(seq![last][0] == msgs[i]);
            }
        }
        assert forall|uid: u64|
            spec_start_uids(prefix).contains(uid) || spec_start_uids(
                seq![last],
            ).contains(uid) implies spec_start_uids(msgs).contains(uid) by {
            if spec_start_uids(prefix).contains(uid) {
                let i = choose|i: int|
                    0 <= i < prefix.len() && spec_msg_signal_kind(#[trigger] prefix[i]) == Some(
                        SignalKind::Start(uid),
                    );
                assert(msgs[i] == prefix[i]);
            } else {
                let i = choose|i: int|
                    0 <= i < 1 && spec_msg_signal_kind(#[trigger] seq![last][i]) == Some(
                        SignalKind::Start(uid),
                    );
                assert(msgs[msgs.len() - 1] == seq![last][0]);
            }
        }
        assert forall|uid: u64| spec_drain_uids(msgs).contains(uid) implies spec_drain_uids(
            prefix,
        ).contains(uid) || spec_drain_uids(seq![last]).contains(uid) by {
            let i = choose|i: int|
                0 <= i < msgs.len() && spec_msg_signal_kind(#[trigger] msgs[i]) == Some(
                    SignalKind::Drain(uid),
                );
            if i < msgs.len() - 1 {
                assert(prefix[i] == msgs[i]);
            } else {
                assert(seq![last][0] == msgs[i]);
            }
        }
        assert forall|uid: u64|
            spec_drain_uids(prefix).contains(uid) || spec_drain_uids(
                seq![last],
            ).contains(uid) implies spec_drain_uids(msgs).contains(uid) by {
            if spec_drain_uids(prefix).contains(uid) {
                let i = choose|i: int|
                    0 <= i < prefix.len() && spec_msg_signal_kind(#[trigger] prefix[i]) == Some(
                        SignalKind::Drain(uid),
                    );
                assert(msgs[i] == prefix[i]);
            } else {
                let i = choose|i: int|
                    0 <= i < 1 && spec_msg_signal_kind(#[trigger] seq![last][i]) == Some(
                        SignalKind::Drain(uid),
                    );
                assert(msgs[msgs.len() - 1] == seq![last][0]);
            }
        }
    }
}

/// The manager enters the drained state only at a moment of quorum: whatever
/// message makes the state become drained, every source that had announced a
/// start has, counting that very message, announced a drain.
pub proof fn lemma_drained_entered_at_quorum(m: SinkManagerView, msg: SinkMsg)
    requires
        m.state != SinkState::Drained,
        spec_msg_step(m, msg).state == SinkState::Drained,
    ensures
        spec_msg_step(m, msg).starts_received.subset_of(spec_msg_step(m, msg).drains_received),
{
}

/// Once drained, the sink stays drained until it is stopped.
pub proof fn lemma_drained_is_stable(m: SinkManagerView, msg: SinkMsg)
    requires
        m.state == SinkState::Drained,
    ensures
        spec_msg_step(m, msg).state == SinkState::Drained || (msg is Stop && spec_msg_step(
            m,
            msg,
        ).state == SinkState::Stopped),
{
}

/// Over any whole history: if the manager ends up drained without having been
/// drained at the start, some step entered the drained state at a moment of
/// quorum.
pub proof fn lemma_run_drained_needs_quorum(m: SinkManagerView, msgs: Seq<SinkMsg>)
    requires
        m.state != SinkState::Drained,
        spec_run(m, msgs).state == SinkState::Drained,
    ensures
        exists|i: int|
            0 <= i < msgs.len() && (#[trigger] spec_run(m, msgs.take(i + 1))).state
                == SinkState::Drained && spec_run(m, msgs.take(i + 1)).starts_received.subset_of(
                spec_run(m, msgs.take(i + 1)).drains_received,
            ),
    decreases msgs.len(),
{
    let n = msgs.len() as int;
    let prefix = msgs.drop_last();
    let before = spec_run(m, prefix);
    assert(msgs.take(n) =~= msgs);
    if before.state == SinkState::Drained {
        lemma_run_drained_needs_quorum(m, prefix);
        let j = choose|j: int|
            0 <= j < prefix.len() && (#[trigger] spec_run(m, prefix.take(j + 1))).state
                == SinkState::Drained && spec_run(m, prefix.take(j + 1)).starts_received.subset_of(
                spec_run(m, prefix.take(j + 1)).drains_received,
            );
        assert(prefix.take(j + 1) =~= msgs.take(j + 1));
        assert((#[trigger] spec_run(m, msgs.take(j + 1))).state == SinkState::Drained
            && spec_run(m, msgs.take(j + 1)).starts_received.subset_of(
            spec_run(m, msgs.take(j + 1)).drains_received,
        ));
    } else {
        lemma_drained_entered_at_quorum(before, msgs.last());
        assert(prefix =~= msgs.take(n - 1));
        assert((#[trigger] spec_run(m, msgs.take(n - 1 + 1))).state == SinkState::Drained
            && spec_run(m, msgs.take(n - 1 + 1)).starts_received.subset_of(
            spec_run(m, msgs.take(n - 1 + 1)).drains_received,
        ));
    }
}

} // verus!
