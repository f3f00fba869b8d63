//! Incremental framing over a byte-stream substrate.
//!
//! The sending side queues encoded frames in a [`SendBuf`] and drains them
//! under a byte budget; the receiving side feeds arbitrary chunks into a
//! [`RecvBuf`] and pops whole events.  The round-trip law at the end states
//! that a drained byte stream, however it is chunked, replays exactly the
//! events that were pushed, in order.

use vstd::prelude::*;
use vstd::slice::{slice_subrange, slice_to_vec};
use crate::types::{EventModel, ProtocolEvent, ProtocolError};
use crate::wire::{
    spec_encode, spec_parse, wf_event, encode_event, try_parse, ParseModel, ParseOutcome,
};

verus! {

/// The concatenated encoding of a sequence of events.
pub open spec fn spec_encode_all(es: Seq<EventModel>) -> Seq<u8>
    decreases es.len(),
{
    if es.len() == 0 {
        Seq::empty()
    } else {
        spec_encode(es[0]) + spec_encode_all(es.skip(1))
    }
}

/// Every complete frame at the head of `b`, in order.  Parsing stops at an
/// incomplete or malformed head.
pub open spec fn spec_parse_all(b: Seq<u8>) -> Seq<EventModel>
    decreases b.len(),
{
    match spec_parse(b) {
        ParseModel::Frame(e, n) => {
            if 1 <= n <= b.len() {
                seq![e] + spec_parse_all(b.skip(n))
            } else {
                seq![e]
            }
        },
        _ => Seq::empty(),
    }
}

/// Round trip of the byte framing: replaying the concatenated encodings of
/// any sequence of well-formed events yields exactly those events, in
/// order.  Chunking does not matter, because a receiver only ever
/// concatenates what it is fed.
pub proof fn lemma_stream_round_trip(es: Seq<EventModel>)
    requires
        forall|i: int| 0 <= i < es.len() ==> wf_event(#[trigger] es[i]),
    ensures
        spec_parse_all(spec_encode_all(es)) =~= es,
    decreases es.len(),
{
    if es.len() == 0 {
        assert(spec_encode_all(es).len() == 0);
    } else {
        let head = es[0];
        let rest = es.skip(1);
        let b = spec_encode_all(es);
        crate::wire::lemma_parse_encode(head, spec_encode_all(rest));
        let n = spec_encode(head).len() as int;
        assert(spec_parse(b) == ParseModel::Frame(head, n));
        crate::wire::lemma_parse_bounds(b);
        assert(b.skip(n) =~= spec_encode_all(rest));
        lemma_stream_round_trip(rest);
    }
}

/// The models of a sequence of events.
pub open spec fn events_view(q: Seq<ProtocolEvent>) -> Seq<EventModel> {
    q.map_values(|e: ProtocolEvent| e@)
}

/// Every event of the sequence fits the wire format.
pub open spec fn wf_events(q: Seq<EventModel>) -> bool {
    forall|i: int| 0 <= i < q.len() ==> wf_event(#[trigger] q[i])
}

/// Appending one event to a batch appends its encoding to the batch's
/// bytes.
pub proof fn lemma_encode_all_snoc(es: Seq<EventModel>, e: EventModel)
    ensures
        spec_encode_all(es.push(e)) == spec_encode_all(es) + spec_encode(e),
    decreases es.len(),
{
    if es.len() == 0 {
        assert(es.push(e).skip(1) =~= Seq::<EventModel>::empty());
        assert(es.push(e)[0] == e);
        assert(spec_encode_all(es.push(e).skip(1)) == Seq::<u8>::empty());
        assert(spec_encode_all(es.push(e)) =~= spec_encode(e));
        assert(spec_encode_all(es) + spec_encode(e) =~= spec_encode(e));
    } else {
        assert(es.push(e).skip(1) =~= es.skip(1).push(e));
        lemma_encode_all_snoc(es.skip(1), e);
        assert(spec_encode_all(es.push(e)) =~= spec_encode_all(es) + spec_encode(e));
    }
}

/// Outbound frame queue of one byte-stream connection.
pub struct SendBuf {
    bytes: Vec<u8>,
}

impl View for SendBuf {
    type V = Seq<u8>;

    closed spec fn view(&self) -> Seq<u8> {
        self.bytes@
    }
}

impl SendBuf {
    /// Makes an empty queue.
    pub fn new() -> (s: SendBuf)
        ensures
            s@ == Seq::<u8>::empty(),
    {
        SendBuf { bytes: Vec::new() }
    }

    /// How many bytes wait to be drained.
    pub fn buffered_len(&self) -> (n: usize)
        ensures
            n == self@.len(),
    {
        self.bytes.len()
    }

    /// Queues one event: its encoding is appended to the pending bytes.
    pub fn push_event(&mut self, e: &ProtocolEvent)
        requires
            wf_event(e@),
        ensures
            final(self)@ == old(self)@ + spec_encode(e@),
    {
        encode_event(e, &mut self.bytes);
    }

    /// Takes up to `budget` pending bytes, oldest first; what is taken is
    /// exactly the head of the queue and the rest stays queued.
    pub fn drain(&mut self, budget: u64) -> (out: Vec<u8>)
        ensures
            out@ == old(self)@.take(spec_drain_len(old(self)@, budget)),
            final(self)@ == old(self)@.skip(spec_drain_len(old(self)@, budget)),
    {
        let k: usize = if budget >= self.bytes.len() as u64 {
            self.bytes.len()
        } else {
            budget as usize
        };
        let out = slice_to_vec(slice_subrange(self.bytes.as_slice(), 0, k));
        let rest = slice_to_vec(slice_subrange(self.bytes.as_slice(), k, self.bytes.len()));
        self.bytes = rest;
        out
    }
}

/// How many bytes a drain with the given budget takes from a queue.
pub open spec fn spec_drain_len(b: Seq<u8>, budget: u64) -> int {
    if budget >= b.len() {
        b.len() as int
    } else {
        budget as int
    }
}

/// Inbound reassembly buffer of one byte-stream connection.
pub struct RecvBuf {
    bytes: Vec<u8>,
}

impl View for RecvBuf {
    type V = Seq<u8>;

    closed spec fn view(&self) -> Seq<u8> {
        self.bytes@
    }
}

impl RecvBuf {
    /// Makes an empty buffer.
    pub fn new() -> (s: RecvBuf)
        ensures
            s@ == Seq::<u8>::empty(),
    {
        RecvBuf { bytes: Vec::new() }
    }

    /// How many bytes wait to be parsed.
    pub fn buffered_len(&self) -> (n: usize)
        ensures
            n == self@.len(),
    {
        self.bytes.len()
    }

    /// Appends one received chunk, whatever its size.
    pub fn feed(&mut self, chunk: &[u8])
        ensures
            final(self)@ == old(self)@ + chunk@,
    {
        self.bytes.extend_from_slice(chunk);
    }

    /// Whether the head of the buffer is ready: a whole frame has arrived,
    /// or the head can never become one.
    pub fn head_ready(&self) -> (r: bool)
        ensures
            r == !(spec_parse(self@) is Incomplete),
    {
        match try_parse(&self.bytes) {
            ParseOutcome::Incomplete => false,
            _ => true,
        }
    }

    /// Pops the event at the head of the buffer, if a whole frame has
    /// arrived.  A malformed head is reported as a violation and nothing is
    /// consumed.
    pub fn try_recv(&mut self) -> (r: Result<Option<ProtocolEvent>, ProtocolError>)
        ensures
            match spec_parse(old(self)@) {
                ParseModel::Incomplete => r == Ok::<Option<ProtocolEvent>, ProtocolError>(None)
                    && final(self)@ == old(self)@,
                ParseModel::Malformed => r == Err::<Option<ProtocolEvent>, ProtocolError>(
                    ProtocolError::Violated,
                ) && final(self)@ == old(self)@,
                ParseModel::Frame(e, n) => (r matches Ok(Some(ev)) && ev@ == e) && final(self)@
                    == old(self)@.skip(n),
            },
    {
        match try_parse(&self.bytes) {
            ParseOutcome::Incomplete => Ok(None),
            ParseOutcome::Malformed => Err(ProtocolError::Violated),
            ParseOutcome::Frame(e, n) => {
                proof {
                    crate::wire::lemma_parse_bounds(self.bytes@);
                }
                let rest = slice_to_vec(
                    slice_subrange(self.bytes.as_slice(), n, self.bytes.len()),
                );
                self.bytes = rest;
                Ok(Some(e))
            },
        }
    }
}

} // verus!
