//! The event serializer: a per-stream codec and postprocessor chain.
//!
//! Every sink owns one serializer. Stream id `0` is the default stream and
//! uses the primary codec and postprocessor chain; any other stream id gets
//! its own pair, created lazily on first use from the same templates and
//! retained until the stream is dropped or the serializer is cleared. The
//! codecs and postprocessors offered here are stateless values, so a stream's
//! pair always equals a freshly built one.

use crate::errors::Error;
use crate::event::Value;
use vstd::prelude::*;
use vstd::string::StrSliceExecFns;

verus! {

/// The default stream: always implicitly present, served by the primary
/// codec and postprocessor chain.
pub const DEFAULT_STREAM_ID: u64 = 0;

/// A codec turns one payload value into one byte frame.
#[derive(Clone, Copy, PartialEq, Eq, Structural, Debug)]
pub enum Codec {
    /// Passes the payload bytes through unchanged.
    Binary,
}

impl Codec {
    /// The bytes this codec produces for a payload.
    pub open spec fn spec_encode(self, data: Seq<u8>) -> Seq<u8> {
        match self {
            Codec::Binary => data,
        }
    }

    /// Encodes one payload value into one byte frame.
    pub fn encode(&self, value: &Value) -> (r: Vec<u8>)
        ensures
            r@ == self.spec_encode(value@),
    {
        match self {
            Codec::Binary => clone_bytes(value.bytes()),
        }
    }
}

/// A postprocessor turns one byte frame into zero or more byte frames.
#[derive(Clone, Copy, PartialEq, Eq, Structural, Debug)]
pub enum Postprocessor {
    /// Appends a newline to each frame.
    Separate,
    /// Prefixes each frame with its length as eight big-endian bytes.
    LengthPrefixed,
}

/// The big-endian bytes of a 64-bit length.
pub open spec fn spec_u64_be(n: u64) -> Seq<u8> {
    seq![
        (n >> 56) as u8,
        (n >> 48) as u8,
        (n >> 40) as u8,
        (n >> 32) as u8,
        (n >> 24) as u8,
        (n >> 16) as u8,
        (n >> 8) as u8,
        n as u8,
    ]
}

/// Encodes a 64-bit length as eight big-endian bytes.
pub fn u64_be(n: u64) -> (r: Vec<u8>)
    ensures
        r@ == spec_u64_be(n),
{
    let mut r: Vec<u8> = Vec::new();
    r.push(#[verifier::truncate] ((n >> 56) as u8));
    r.push(#[verifier::truncate] ((n >> 48) as u8));
    r.push(#[verifier::truncate] ((n >> 40) as u8));
    r.push(#[verifier::truncate] ((n >> 32) as u8));
    r.push(#[verifier::truncate] ((n >> 24) as u8));
    r.push(#[verifier::truncate] ((n >> 16) as u8));
    r.push(#[verifier::truncate] ((n >> 8) as u8));
    r.push(#[verifier::truncate] (n as u8));
    proof {
        assert(r@ =~= spec_u64_be(n));
    }
    r
}

impl Postprocessor {
    /// The frames this postprocessor produces for one input frame.
    pub open spec fn spec_apply(self, frame: Seq<u8>) -> Seq<Seq<u8>> {
        match self {
            Postprocessor::Separate => seq![frame.push(10u8)],
            Postprocessor::LengthPrefixed => seq![spec_u64_be(frame.len() as u64) + frame],
        }
    }

    /// Processes one frame into zero or more frames.
    pub fn apply(&self, _ingest_ns: u64, frame: Vec<u8>) -> (r: Vec<Vec<u8>>)
        ensures
            bytes_views(r@) == self.spec_apply(frame@),
    {
        let mut out: Vec<Vec<u8>> = Vec::new();
        match self {
            Postprocessor::Separate => {
                let mut f = frame;
                f.push(10u8);
                out.push(f);
            },
            Postprocessor::LengthPrefixed => {
                let ghost original = frame@;
                let mut f = u64_be(frame.len() as u64);
                let mut rest = frame;
                f.append(&mut rest);
                proof {
                    assert(f@ == spec_u64_be(original.len() as u64) + original);
                }
                out.push(f);
            },
        }
        proof {
            assert(bytes_views(out@) =~= self.spec_apply(frame@));
        }
        out
    }
}

/// The views of a sequence of byte frames.
pub open spec fn bytes_views(frames: Seq<Vec<u8>>) -> Seq<Seq<u8>> {
    frames.map_values(|f: Vec<u8>| f@)
}

/// The frames a postprocessor produces for a sequence of input frames.
pub open spec fn spec_apply_all(pp: Postprocessor, frames: Seq<Seq<u8>>) -> Seq<Seq<u8>>
    decreases frames.len(),
{
    if frames.len() == 0 {
        Seq::empty()
    } else {
        spec_apply_all(pp, frames.drop_last()) + pp.spec_apply(frames.last())
    }
}

/// The frames a postprocessor chain produces for a sequence of input frames:
/// the first postprocessor runs first, each later one over all frames the
/// previous one produced.
pub open spec fn spec_chain(pps: Seq<Postprocessor>, frames: Seq<Seq<u8>>) -> Seq<Seq<u8>>
    decreases pps.len(),
{
    if pps.len() == 0 {
        frames
    } else {
        spec_apply_all(pps.last(), spec_chain(pps.drop_last(), frames))
    }
}

/// The frames the whole chain produces for one encoded frame.
pub open spec fn spec_postprocess(pps: Seq<Postprocessor>, data: Seq<u8>) -> Seq<Seq<u8>> {
    spec_chain(pps, seq![data])
}

/// The frames a serializer with the given codec and chain produces for a
/// payload.
pub open spec fn spec_frames(codec: Codec, pps: Seq<Postprocessor>, data: Seq<u8>) -> Seq<
    Seq<u8>,
> {
    spec_postprocess(pps, codec.spec_encode(data))
}

/// Runs one postprocessor over every frame in order.
#[verifier::loop_isolation(false)]
fn apply_all(pp: &Postprocessor, ingest_ns: u64, frames: Vec<Vec<u8>>) -> (r: Vec<Vec<u8>>)
    ensures
        bytes_views(r@) == spec_apply_all(*pp, bytes_views(frames@)),
{
    let mut out: Vec<Vec<u8>> = Vec::new();
    let ghost all = bytes_views(frames@);
    let m = frames.len();
    let mut done: usize = 0;
    while done < m
        invariant
            m == all.len(),
            done <= m,
            bytes_views(out@) == spec_apply_all(*pp, all.take(done as int)),
        decreases m - done,
    {
        let frame = clone_bytes(&frames[done]);
        proof {
            assert(frame@ == all[done as int]);
        }
        let produced = pp.apply(ingest_ns, frame);
        let n = produced.len();
        let mut i: usize = 0;
        while i < n
            invariant
                n == produced@.len(),
                i <= n,
                bytes_views(out@) == spec_apply_all(*pp, all.take(done as int)) + bytes_views(
                    produced@,
                ).take(i as int),
            decreases n - i,
        {
            let ghost out0 = bytes_views(out@);
            let f = clone_bytes(&produced[i]);
            out.push(f);
            proof {
                assert(bytes_views(out@) =~= out0.push(produced@[i as int]@));
                assert(bytes_views(produced@).take(i + 1) =~= bytes_views(produced@).take(
                    i as int,
                ).push(produced@[i as int]@));
                assert(bytes_views(out@) =~= spec_apply_all(*pp, all.take(done as int))
                    + bytes_views(produced@).take(i + 1));
            }
            i += 1;
        }
        proof {
            assert(bytes_views(produced@).take(n as int) =~= pp.spec_apply(all[done as int]));
            assert(all.take(done + 1).drop_last() =~= all.take(done as int));
            assert(all.take(done + 1).last() == all[done as int]);
            assert(bytes_views(out@) =~= spec_apply_all(*pp, all.take(done + 1)));
        }
        done += 1;
    }
    proof {
        assert(all.take(m as int) =~= all);
    }
    out
}

/// Runs the postprocessor chain over one encoded frame.
#[verifier::loop_isolation(false)]
pub fn postprocess(pps: &Vec<Postprocessor>, ingest_ns: u64, data: Vec<u8>) -> (r: Vec<Vec<u8>>)
    ensures
        bytes_views(r@) == spec_postprocess(pps@, data@),
{
    let mut frames: Vec<Vec<u8>> = Vec::new();
    let ghost data0 = data@;
    frames.push(data);
    proof {
        assert(bytes_views(frames@) =~= seq![data0]);
    }
    let n = pps.len();
    let mut i: usize = 0;
    while i < n
        invariant
            n == pps@.len(),
            i <= n,
            bytes_views(frames@) == spec_chain(pps@.take(i as int), seq![data0]),
        decreases n - i,
    {
        frames = apply_all(&pps[i], ingest_ns, frames);
        proof {
            assert(pps@.take(i + 1).drop_last() =~= pps@.take(i as int));
            assert(pps@.take(i + 1).last() == pps@[i as int]);
        }
        i += 1;
    }
    proof {
        assert(pps@.take(n as int) =~= pps@);
    }
    frames
}

/// Copies a byte vector.
#[verifier::loop_isolation(false)]
fn clone_bytes(v: &Vec<u8>) -> (r: Vec<u8>)
    ensures
        r@ == v@,
{
    let n = v.len();
    let mut r: Vec<u8> = Vec::new();
    let mut i: usize = 0;
    while i < n
        invariant
            n == v@.len(),
            i <= n,
            r@ == v@.take(i as int),
        decreases n - i,
    {
        r.push(v[i]);
        proof {
            assert(r@ =~= v@.take(i + 1));
        }
        i += 1;
    }
    proof {
        assert(r@ =~= v@);
    }
    r
}

/// Whether two strings hold the same characters.
fn str_eq(a: &str, b: &str) -> (r: bool)
    ensures
        r == (a@ == b@),
{
    let la = a.unicode_len();
    let lb = b.unicode_len();
    if la != lb {
        return false;
    }
    let mut i: usize = 0;
    while i < la
        invariant
            la == a@.len(),
            lb == b@.len(),
            la == lb,
            i <= la,
            forall|j: int| 0 <= j < i ==> a@[j] == b@[j],
        decreases la - i,
    {
        if a.get_char(i) != b.get_char(i) {
            return false;
        }
        i += 1;
    }
    proof {
        assert(a@ =~= b@);
    }
    true
}

/// The codec registered under a name, if any.
pub open spec fn spec_resolve(name: Seq<char>) -> Option<Codec> {
    if name == "binary"@ {
        Some(Codec::Binary)
    } else {
        None
    }
}

/// Resolves a codec by name.
pub fn resolve(name: &str) -> (r: Result<Codec, Error>)
    ensures
        r == match spec_resolve(name@) {
            Some(c) => Ok::<Codec, Error>(c),
            None => Err::<Codec, Error>(Error::UnknownCodec),
        },
{
    if str_eq(name, "binary") {
        Ok(Codec::Binary)
    } else {
        Err(Error::UnknownCodec)
    }
}

/// The postprocessor registered under a name, if any.
pub open spec fn spec_postprocessor(name: Seq<char>) -> Option<Postprocessor> {
    if name == "separate"@ {
        Some(Postprocessor::Separate)
    } else if name == "length-prefixed"@ {
        Some(Postprocessor::LengthPrefixed)
    } else {
        None
    }
}

/// The chain registered under a list of names, if every name is known.
pub open spec fn spec_make_postprocessors(names: Seq<Seq<char>>) -> Option<Seq<Postprocessor>>
    decreases names.len(),
{
    if names.len() == 0 {
        Some(Seq::empty())
    } else {
        match (spec_make_postprocessors(names.drop_last()), spec_postprocessor(names.last())) {
            (Some(pps), Some(pp)) => Some(pps.push(pp)),
            _ => None,
        }
    }
}

/// The views of a list of names.
pub open spec fn name_views(names: Seq<String>) -> Seq<Seq<char>> {
    names.map_values(|n: String| n@)
}

/// Resolves a postprocessor by name.
pub fn make_postprocessor(name: &str) -> (r: Result<Postprocessor, Error>)
    ensures
        r == match spec_postprocessor(name@) {
            Some(pp) => Ok::<Postprocessor, Error>(pp),
            None => Err::<Postprocessor, Error>(Error::UnknownPostprocessor),
        },
{
    if str_eq(name, "separate") {
        Ok(Postprocessor::Separate)
    } else if str_eq(name, "length-prefixed") {
        Ok(Postprocessor::LengthPrefixed)
    } else {
        Err(Error::UnknownPostprocessor)
    }
}

/// Resolves a whole postprocessor chain by name, in order.
#[verifier::loop_isolation(false)]
pub fn make_postprocessors(names: &Vec<String>) -> (r: Result<Vec<Postprocessor>, Error>)
    ensures
        r matches Ok(pps) ==> Some(pps@) == spec_make_postprocessors(name_views(names@)),
        r matches Err(e) ==> e == Error::UnknownPostprocessor && spec_make_postprocessors(
            name_views(names@),
        ) is None,
{
    let mut pps: Vec<Postprocessor> = Vec::new();
    let n = names.len();
    let mut i: usize = 0;
    while i < n
        invariant
            n == names@.len(),
            i <= n,
            Some(pps@) == spec_make_postprocessors(name_views(names@).take(i as int)),
        decreases n - i,
    {
        match make_postprocessor(names[i].as_str()) {
            Ok(pp) => {
                pps.push(pp);
                proof {
                    let nv = name_views(names@);
                    assert(nv.take(i + 1).drop_last() =~= nv.take(i as int));
                    assert(nv.take(i + 1).last() == nv[i as int]);
                }
            },
            Err(e) => {
                proof {
                    lemma_make_postprocessors_prefix_none(name_views(names@), i as int);
                }
                return Err(e);
            },
        }
        i += 1;
    }
    proof {
        assert(name_views(names@).take(n as int) =~= name_views(names@));
    }
    Ok(pps)
}

/// If one name in a list is unknown, the whole list resolves to nothing.
proof fn lemma_make_postprocessors_prefix_none(names: Seq<Seq<char>>, i: int)
    requires
        0 <= i < names.len(),
        spec_postprocessor(names[i]) is None,
    ensures
        spec_make_postprocessors(names) is None,
    decreases names.len(),
{
    if names.len() > 0 {
        if i == names.len() - 1 {
        } else {
            assert(names.drop_last()[i] == names[i]);
            lemma_make_postprocessors_prefix_none(names.drop_last(), i);
        }
    }
}

/// The codec and postprocessor chain of one stream.
pub struct StreamState {
    codec: Codec,
    postprocessors: Vec<Postprocessor>,
}

/// The mathematical content of an event serializer: the primary codec, the
/// primary postprocessor chain, and the set of live non-default stream ids.
pub ghost struct SerializerView {
    pub codec: Codec,
    pub postprocessors: Seq<Postprocessor>,
    pub streams: Set<u64>,
}

/// The set of stream ids in an association list.
pub open spec fn stream_ids(s: Seq<(u64, StreamState)>) -> Set<u64> {
    Set::new(|k: u64| exists|i: int| 0 <= i < s.len() && (#[trigger] s[i]).0 == k)
}

/// Helper for serializing events within a sink.
///
/// Tracks a codec and postprocessor chain for each stream. Streams other than
/// the default must be dropped when they are done, or cleared out wholesale
/// when the connection is lost.
pub struct EventSerializer {
    codec: Codec,
    postprocessors: Vec<Postprocessor>,
    streams: Vec<(u64, StreamState)>,
}

impl View for EventSerializer {
    type V = SerializerView;

    closed spec fn view(&self) -> SerializerView {
        SerializerView {
            codec: self.codec,
            postprocessors: self.postprocessors@,
            streams: stream_ids(self.streams@),
        }
    }
}

impl EventSerializer {
    #[verifier::type_invariant]
    spec fn type_inv(self) -> bool {
        &&& forall|i: int, j: int|
            0 <= i < j < self.streams@.len() ==> (#[trigger] self.streams@[i]).0
                != (#[trigger] self.streams@[j]).0
        &&& forall|i: int|
            0 <= i < self.streams@.len() ==> (#[trigger] self.streams@[i]).1.codec == self.codec
                && self.streams@[i].1.postprocessors@ == self.postprocessors@
        &&& forall|i: int| 0 <= i < self.streams@.len() ==> (#[trigger] self.streams@[i]).0 != 0
    }

    /// Builds a serializer from an optional codec name, the connector's
    /// default codec name, and a list of postprocessor names.
    pub fn build(
        codec_config: Option<String>,
        default_codec: &str,
        postprocessor_names: Vec<String>,
    ) -> (r: Result<EventSerializer, Error>)
        ensures
            ({
                let name = match codec_config {
                    Some(n) => n@,
                    None => default_codec@,
                };
                match (spec_resolve(name), spec_make_postprocessors(
                    name_views(postprocessor_names@),
                )) {
                    (Some(c), Some(pps)) => r matches Ok(s) && s@.codec == c && s@.postprocessors
                        == pps && s@.streams == Set::<u64>::empty(),
                    (None, _) => r == Err::<EventSerializer, Error>(Error::UnknownCodec),
                    (Some(_), None) => r == Err::<EventSerializer, Error>(
                        Error::UnknownPostprocessor,
                    ),
                }
            }),
    {
        let resolved = match &codec_config {
            Some(n) => resolve(n.as_str()),
            None => resolve(default_codec),
        };
        let codec = match resolved {
            Ok(c) => c,
            Err(e) => {
                return Err(e);
            },
        };
        let postprocessors = match make_postprocessors(&postprocessor_names) {
            Ok(pps) => pps,
            Err(e) => {
                return Err(e);
            },
        };
        let r = EventSerializer { codec, postprocessors, streams: Vec::new() };
        proof {
            assert(r@.streams =~= Set::<u64>::empty());
        }
        Ok(r)
    }

    /// Whether the serializer holds per-stream state for the given stream.
    #[verifier::loop_isolation(false)]
    pub fn has_stream(&self, stream_id: u64) -> (r: bool)
        ensures
            r == self@.streams.contains(stream_id),
    {
        let n = self.streams.len();
        let mut i: usize = 0;
        while i < n
            invariant
                n == self.streams@.len(),
                i <= n,
                forall|j: int| 0 <= j < i ==> (#[trigger] self.streams@[j]).0 != stream_id,
            decreases n - i,
        {
            if self.streams[i].0 == stream_id {
                proof {
                    assert((#[trigger] self.streams@[i as int]).0 == stream_id);
                }
                return true;
            }
            i += 1;
        }
        false
    }

    /// Drops the per-stream state of one stream.
    #[verifier::loop_isolation(false)]
    pub fn drop_stream(&mut self, stream_id: u64)
        ensures
            final(self)@.codec == old(self)@.codec,
            final(self)@.postprocessors == old(self)@.postprocessors,
            final(self)@.streams == old(self)@.streams.remove(stream_id),
    {
        proof {
            use_type_invariant(&*self);
        }
        let mut streams: Vec<(u64, StreamState)> = Vec::new();
        std::mem::swap(&mut streams, &mut self.streams);
        let ghost s0 = streams@;
        let n = streams.len();
        let mut i: usize = 0;
        while i < n
            invariant
                streams@ == s0,
                n == s0.len(),
                i <= n,
                self.codec == old(self).codec,
                self.postprocessors@ == old(self).postprocessors@,
                self.streams@.len() == 0,
                forall|j: int| 0 <= j < i ==> (#[trigger] s0[j]).0 != stream_id,
            decreases n - i,
        {
            if streams[i].0 == stream_id {
                let _removed = streams.remove(i);
                proof {
                    assert(self.postprocessors@ == old(self).postprocessors@);
                    assert(self.codec == old(self).codec);
                    let t = streams@;
                    assert forall|a: int, b: int| 0 <= a < b < t.len() implies (#[trigger] t[a]).0
                        != (#[trigger] t[b]).0 by {
                        let a0 = if a < i { a } else { a + 1 };
                        let b0 = if b < i { b } else { b + 1 };
                        assert(t[a] == s0[a0] && t[b] == s0[b0]);
                    }
                    assert forall|a: int| 0 <= a < t.len() implies (#[trigger] t[a]).1.codec
                        == self.codec && t[a].1.postprocessors@ == self.postprocessors@ && t[a].0
                        != 0 by {
                        let a0 = if a < i { a } else { a + 1 };
                        assert(t[a] == s0[a0]);
                    }
                    assert forall|k: u64| stream_ids(t).contains(k) implies stream_ids(s0).remove(
                        stream_id,
                    ).contains(k) by {
                        let j = choose|j: int| 0 <= j < t.len() && (#[trigger] t[j]).0 == k;
                        if j < i {
                            assert(s0[j].0 == k);
                        } else {
                            assert(s0[j + 1].0 == k);
                        }
                    }
                    assert forall|k: u64| stream_ids(s0).remove(stream_id).contains(k) implies
                        stream_ids(t).contains(k) by {
                        let j = choose|j: int| 0 <= j < s0.len() && (#[trigger] s0[j]).0 == k;
                        if j < i {
                            assert(t[j].0 == k);
                        } else {
                            assert(j != i);
                            assert(t[j - 1].0 == k);
                        }
                    }
                    assert(stream_ids(t) =~= stream_ids(s0).remove(stream_id));
                }
                self.streams = streams;
                return;
            }
            i += 1;
        }
        proof {
            assert(stream_ids(s0) =~= stream_ids(s0).remove(stream_id));
        }
        self.streams = streams;
    }

    /// Drops all per-stream state. This can lose buffered data; only use it
    /// when all streams are known to be gone, as on a lost connection.
    pub fn clear(&mut self)
        ensures
            final(self)@.codec == old(self)@.codec,
            final(self)@.postprocessors == old(self)@.postprocessors,
            final(self)@.streams == Set::<u64>::empty(),
    {
        proof {
            use_type_invariant(&*self);
        }
        let mut streams: Vec<(u64, StreamState)> = Vec::new();
        std::mem::swap(&mut streams, &mut self.streams);
        proof {
            assert(stream_ids(self.streams@) =~= Set::<u64>::empty());
        }
    }

    /// Serializes a value for the default stream.
    pub fn serialize(&mut self, value: &Value, ingest_ns: u64) -> (r: Result<Vec<Vec<u8>>, Error>)
        ensures
            r matches Ok(frames) && bytes_views(frames@) == spec_frames(
                old(self)@.codec,
                old(self)@.postprocessors,
                value@,
            ),
            *final(self) == *old(self),
    {
        self.serialize_for_stream(value, ingest_ns, DEFAULT_STREAM_ID)
    }

    /// Serializes a value for one stream.
    ///
    /// The default stream uses the primary codec and postprocessor chain; any
    /// other stream id uses its own pair, created on first use from the same
    /// templates. Serialization itself never fails; a result of zero frames
    /// is valid and is not an error.
    #[verifier::loop_isolation(false)]
    pub fn serialize_for_stream(&mut self, value: &Value, ingest_ns: u64, stream_id: u64) -> (r:
        Result<Vec<Vec<u8>>, Error>)
        ensures
            r matches Ok(frames) && bytes_views(frames@) == spec_frames(
                old(self)@.codec,
                old(self)@.postprocessors,
                value@,
            ),
            final(self)@.codec == old(self)@.codec,
            final(self)@.postprocessors == old(self)@.postprocessors,
            final(self)@.streams == if stream_id == DEFAULT_STREAM_ID {
                old(self)@.streams
            } else {
                old(self)@.streams.insert(stream_id)
            },
            stream_id == DEFAULT_STREAM_ID ==> *final(self) == *old(self),
    {
        proof {
            use_type_invariant(&*self);
        }
        if stream_id == DEFAULT_STREAM_ID {
            let encoded = self.codec.encode(value);
            return Ok(postprocess(&self.postprocessors, ingest_ns, encoded));
        }
        let n = self.streams.len();
        let mut i: usize = 0;
        while i < n
            invariant
                n == self.streams@.len(),
                i <= n,
                forall|j: int| 0 <= j < i ==> (#[trigger] self.streams@[j]).0 != stream_id,
            decreases n - i,
        {
            if self.streams[i].0 == stream_id {
                let state = &self.streams[i].1;
                let encoded = state.codec.encode(value);
                let frames = postprocess(&state.postprocessors, ingest_ns, encoded);
                proof {
                    assert(stream_ids(self.streams@).contains(stream_id));
                    assert(stream_ids(self.streams@) =~= stream_ids(self.streams@).insert(
                        stream_id,
                    ));
                }
                return Ok(frames);
            }
            i += 1;
        }
        let state = StreamState {
            codec: self.codec,
            postprocessors: clone_postprocessors(&self.postprocessors),
        };
        let encoded = state.codec.encode(value);
        let frames = postprocess(&state.postprocessors, ingest_ns, encoded);
        let mut streams: Vec<(u64, StreamState)> = Vec::new();
        std::mem::swap(&mut streams, &mut self.streams);
        let ghost s0 = streams@;
        streams.push((stream_id, state));
        proof {
            assert forall|k: u64| stream_ids(streams@).contains(k) implies stream_ids(
                s0,
            ).insert(stream_id).contains(k) by {
                let j = choose|j: int| 0 <= j < streams@.len() && (#[trigger] streams@[j]).0 == k;
                if j < s0.len() {
                    assert(s0[j].0 == k);
                }
            }
            assert forall|k: u64| stream_ids(s0).insert(stream_id).contains(k) implies stream_ids(
                streams@,
            ).contains(k) by {
                if k == stream_id {
                    assert(streams@[s0.len() as int].0 == k);
                } else {
                    let j = choose|j: int| 0 <= j < s0.len() && (#[trigger] s0[j]).0 == k;
                    assert(streams@[j].0 == k);
                }
            }
            assert(stream_ids(streams@) =~= stream_ids(s0).insert(stream_id));
        }
        self.streams = streams;
        Ok(frames)
    }
}

/// Serializing through the default stream is repeatable: the frames depend
/// only on the codec and the postprocessor chain, and `serialize` leaves the
/// serializer unchanged, so two successive serializations of the same value
/// yield the same frames.
pub proof fn lemma_default_stream_repeatable(
    before: SerializerView,
    after: SerializerView,
    data: Seq<u8>,
)
    requires
        after.codec == before.codec,
        after.postprocessors == before.postprocessors,
    ensures
        spec_frames(after.codec, after.postprocessors, data) == spec_frames(
            before.codec,
            before.postprocessors,
            data,
        ),
{
}

/// Copies a postprocessor chain.
#[verifier::loop_isolation(false)]
fn clone_postprocessors(pps: &Vec<Postprocessor>) -> (r: Vec<Postprocessor>)
    ensures
        r@ == pps@,
{
    let n = pps.len();
    let mut r: Vec<Postprocessor> = Vec::new();
    let mut i: usize = 0;
    while i < n
        invariant
            n == pps@.len(),
            i <= n,
            r@ == pps@.take(i as int),
        decreases n - i,
    {
        r.push(pps[i]);
        proof {
            assert(r@ =~= pps@.take(i + 1));
        }
        i += 1;
    }
    proof {
        assert(r@ =~= pps@);
    }
    r
}

} // verus!
