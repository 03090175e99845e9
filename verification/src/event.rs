//! The event record and the contraflow events built from it.
//!
//! An event carries a unique identifier, an ingress timestamp, the operator
//! trail it visited, a transactional flag, an optional signal discriminator
//! and a payload. Contraflow events travel the other way: they are events
//! tagged with a circuit-breaker action, built from the minimal metadata
//! retained of an inbound event.

use crate::op_meta::OpMeta;
use vstd::prelude::*;

verus! {

/// A circuit-breaker action carried by a contraflow event or a sink reply.
#[derive(Clone, Copy, PartialEq, Eq, Structural, Debug)]
pub enum CbAction {
    /// No circuit-breaker information.
    Noop,
    /// The sink became available again; upstream may resume sending.
    Open,
    /// The sink became unavailable; upstream should halt.
    Close,
    /// Delivery of one event succeeded, with the time it took in nanoseconds.
    Ack(u64),
    /// Delivery of one event failed.
    Fail,
    /// The source with this identifier has fully drained through this sink.
    Drained(u64),
}

/// The signal discriminator attached to signal events.
#[derive(Clone, Copy, PartialEq, Eq, Structural, Debug)]
pub enum SignalKind {
    /// A source announced itself.
    Start(u64),
    /// A source announced that it has drained.
    Drain(u64),
    /// A periodic tick; ignored by the sink manager.
    Tick,
}

/// An event payload: an opaque sequence of bytes.
pub struct Value {
    bytes: Vec<u8>,
}

impl View for Value {
    type V = Seq<u8>;

    closed spec fn view(&self) -> Seq<u8> {
        self.bytes@
    }
}

impl Value {
    /// A payload holding the given bytes.
    pub fn new(bytes: Vec<u8>) -> (r: Self)
        ensures
            r@ == bytes@,
    {
        Value { bytes }
    }

    /// An empty payload.
    pub fn empty() -> (r: Self)
        ensures
            r@ == Seq::<u8>::empty(),
    {
        let r = Value { bytes: Vec::new() };
        proof {
            assert(r@ =~= Seq::<u8>::empty());
        }
        r
    }

    /// The payload bytes.
    pub fn bytes(&self) -> (r: &Vec<u8>)
        ensures
            r@ == self@,
    {
        &self.bytes
    }

    /// The payload length in bytes.
    pub fn len(&self) -> (r: usize)
        ensures
            r == self@.len(),
    {
        self.bytes.len()
    }
}

impl Clone for Value {
    /// A clone carries the same bytes.
    #[verifier::loop_isolation(false)]
    fn clone(&self) -> (r: Self)
        ensures
            r@ == self@,
    {
        let n = self.bytes.len();
        let mut bytes: Vec<u8> = Vec::new();
        let mut i: usize = 0;
        while i < n
            invariant
                n == self.bytes@.len(),
                i <= n,
                bytes@ == self.bytes@.take(i as int),
            decreases n - i,
        {
            bytes.push(self.bytes[i]);
            proof {
                assert(bytes@ =~= self.bytes@.take(i + 1));
            }
            i += 1;
        }
        proof {
            assert(bytes@ =~= self.bytes@);
        }
        Value { bytes }
    }
}

/// The mathematical content of an event.
pub ghost struct EventView {
    pub id: u64,
    pub ingest_ns: u64,
    pub op_meta: Map<u64, u64>,
    pub transactional: bool,
    pub kind: Option<SignalKind>,
    pub cb: CbAction,
    pub data: Seq<u8>,
}

/// An event: the unit of data flowing from pipelines into a sink, and, tagged
/// with a circuit-breaker action, the unit of contraflow travelling back.
pub struct Event {
    /// The unique event identifier.
    pub id: u64,
    /// Nanosecond timestamp taken at ingress.
    pub ingest_ns: u64,
    /// The trail of operators the event visited.
    pub op_meta: OpMeta,
    /// Whether the producer expects an ack or fail contraflow.
    pub transactional: bool,
    /// The signal discriminator, for signal events.
    pub kind: Option<SignalKind>,
    /// The circuit-breaker action, for contraflow events.
    pub cb: CbAction,
    /// The payload.
    pub data: Value,
}

impl View for Event {
    type V = EventView;

    open spec fn view(&self) -> EventView {
        EventView {
            id: self.id,
            ingest_ns: self.ingest_ns,
            op_meta: self.op_meta@,
            transactional: self.transactional,
            kind: self.kind,
            cb: self.cb,
            data: self.data@,
        }
    }
}

/// The contraflow event acknowledging the event with the given identifier,
/// carrying the observed delivery duration.
pub open spec fn spec_cb_ack_with_timing(
    ingest_ns: u64,
    id: u64,
    op_meta: Map<u64, u64>,
    duration: u64,
) -> EventView {
    EventView {
        id,
        ingest_ns,
        op_meta,
        transactional: false,
        kind: None,
        cb: CbAction::Ack(duration),
        data: Seq::empty(),
    }
}

/// The contraflow event failing the event with the given identifier.
pub open spec fn spec_cb_fail(ingest_ns: u64, id: u64, op_meta: Map<u64, u64>) -> EventView {
    EventView {
        id,
        ingest_ns,
        op_meta,
        transactional: false,
        kind: None,
        cb: CbAction::Fail,
        data: Seq::empty(),
    }
}

/// The contraflow event carrying an arbitrary circuit-breaker action for the
/// event with the given identifier.
pub open spec fn spec_insight(
    cb: CbAction,
    id: u64,
    ingest_ns: u64,
    op_meta: Map<u64, u64>,
) -> EventView {
    EventView {
        id,
        ingest_ns,
        op_meta,
        transactional: false,
        kind: None,
        cb,
        data: Seq::empty(),
    }
}

/// The connector-wide circuit-breaker open event.
pub open spec fn spec_cb_open(ingest_ns: u64, op_meta: Map<u64, u64>) -> EventView {
    spec_insight(CbAction::Open, 0, ingest_ns, op_meta)
}

/// The connector-wide circuit-breaker close event.
pub open spec fn spec_cb_close(ingest_ns: u64, op_meta: Map<u64, u64>) -> EventView {
    spec_insight(CbAction::Close, 0, ingest_ns, op_meta)
}

impl Event {
    /// An ack contraflow event with delivery timing.
    pub fn cb_ack_with_timing(ingest_ns: u64, id: u64, op_meta: OpMeta, duration: u64) -> (e: Event)
        ensures
            e@ == spec_cb_ack_with_timing(ingest_ns, id, op_meta@, duration),
    {
        Event {
            id,
            ingest_ns,
            op_meta,
            transactional: false,
            kind: None,
            cb: CbAction::Ack(duration),
            data: Value::empty(),
        }
    }

    /// A fail contraflow event.
    pub fn cb_fail(ingest_ns: u64, id: u64, op_meta: OpMeta) -> (e: Event)
        ensures
            e@ == spec_cb_fail(ingest_ns, id, op_meta@),
    {
        Event {
            id,
            ingest_ns,
            op_meta,
            transactional: false,
            kind: None,
            cb: CbAction::Fail,
            data: Value::empty(),
        }
    }

    /// A contraflow event carrying the given circuit-breaker action.
    pub fn insight(cb: CbAction, id: u64, ingest_ns: u64, op_meta: OpMeta) -> (e: Event)
        ensures
            e@ == spec_insight(cb, id, ingest_ns, op_meta@),
    {
        Event {
            id,
            ingest_ns,
            op_meta,
            transactional: false,
            kind: None,
            cb,
            data: Value::empty(),
        }
    }

    /// The connector-wide circuit-breaker open event, built from the merged
    /// operator trail.
    pub fn cb_open(ingest_ns: u64, op_meta: OpMeta) -> (e: Event)
        ensures
            e@ == spec_cb_open(ingest_ns, op_meta@),
    {
        Event::insight(CbAction::Open, 0, ingest_ns, op_meta)
    }

    /// The connector-wide circuit-breaker close event, built from the merged
    /// operator trail.
    pub fn cb_close(ingest_ns: u64, op_meta: OpMeta) -> (e: Event)
        ensures
            e@ == spec_cb_close(ingest_ns, op_meta@),
    {
        Event::insight(CbAction::Close, 0, ingest_ns, op_meta)
    }

    /// A start signal from the source with the given identifier.
    pub fn signal_start(uid: u64) -> (e: Event)
        ensures
            e@.kind == Some(SignalKind::Start(uid)),
            e@.transactional == false,
            e@.op_meta == Map::<u64, u64>::empty(),
    {
        Event {
            id: 0,
            ingest_ns: 0,
            op_meta: OpMeta::new(),
            transactional: false,
            kind: Some(SignalKind::Start(uid)),
            cb: CbAction::Noop,
            data: Value::empty(),
        }
    }

    /// A drain signal from the source with the given identifier.
    pub fn signal_drain(uid: u64) -> (e: Event)
        ensures
            e@.kind == Some(SignalKind::Drain(uid)),
            e@.transactional == false,
            e@.op_meta == Map::<u64, u64>::empty(),
    {
        Event {
            id: 0,
            ingest_ns: 0,
            op_meta: OpMeta::new(),
            transactional: false,
            kind: Some(SignalKind::Drain(uid)),
            cb: CbAction::Noop,
            data: Value::empty(),
        }
    }
}

impl Clone for Event {
    /// A clone carries the same view.
    fn clone(&self) -> (r: Self)
        ensures
            r@ == self@,
    {
        Event {
            id: self.id,
            ingest_ns: self.ingest_ns,
            op_meta: self.op_meta.clone(),
            transactional: self.transactional,
            kind: self.kind,
            cb: self.cb,
            data: self.data.clone(),
        }
    }
}

} // verus!
