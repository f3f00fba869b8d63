//! Identifiers, events and errors shared by every substrate backend.

use vstd::prelude::*;

verus! {

/// Process-local identifier of one connection, assigned at accept/connect
/// time and never reused.
pub type Cid = u64;

/// A byte budget or a number of bytes actually pushed to a substrate.
pub type Bandwidth = u64;

/// Delivery guarantees requested for a stream, a set of bit flags.
pub type Promises = u8;

/// The stream keeps the order of its messages.
pub const PROMISES_ORDERED: Promises = 1;

/// The stream never delivers a corrupted message.
pub const PROMISES_CONSISTENCY: Promises = 2;

/// Every message of the stream is delivered or the stream dies.
pub const GUARANTEED_DELIVERY: Promises = 4;

/// Wire value reserved to tag the main stream of a connection; no logical
/// stream may use it as its own id.
pub const SID_MAIN_MARKER: u64 = u64::MAX;

/// Identifies one logical multiplexed stream within a connection.
#[derive(Clone, Copy, Debug, PartialEq, Eq, Structural, Hash)]
pub struct Sid {
    pub id: u64,
}

impl Sid {
    pub open spec fn spec_get(self) -> u64 {
        self.id
    }

    /// Makes the stream id with the given wire value.
    #[verifier::when_used_as_spec(spec_new_sid)]
    pub fn new(id: u64) -> (s: Sid)
        ensures
            s.spec_get() == id,
    {
        Sid { id }
    }

    pub open spec fn spec_new_sid(id: u64) -> Sid {
        Sid { id }
    }

    /// The wire value of this stream id.
    pub fn get_u64(self) -> (id: u64)
        ensures
            id == self.spec_get(),
    {
        self.id
    }
}

/// Identifies a logical peer; opaque to this layer, passed through the
/// handshake and never interpreted.
#[derive(Clone, Copy, Debug, PartialEq, Eq, Structural, Hash)]
pub struct Pid {
    pub id: u128,
}

impl Pid {
    pub open spec fn spec_get(self) -> u128 {
        self.id
    }

    #[verifier::when_used_as_spec(spec_new_pid)]
    pub fn new(id: u128) -> (p: Pid)
        ensures
            p.spec_get() == id,
    {
        Pid { id }
    }

    pub open spec fn spec_new_pid(id: u128) -> Pid {
        Pid { id }
    }

    pub fn get_u128(self) -> (id: u128)
        ensures
            id == self.spec_get(),
    {
        self.id
    }
}

/// One unit of application traffic moved by a backend.
#[derive(Debug, Clone, PartialEq, Eq)]
pub enum ProtocolEvent {
    /// Opens the logical stream `sid` with a priority, requested guarantees
    /// and a bandwidth floor.
    OpenStream { sid: Sid, prio: u8, promises: Promises, guaranteed_bandwidth: Bandwidth },
    /// Closes the logical stream `sid`.
    CloseStream { sid: Sid },
    /// Ends the whole connection.
    Shutdown,
    /// Carries a payload on the logical stream `sid`.
    Message { sid: Sid, data: Vec<u8> },
}

/// Mathematical shape of a `ProtocolEvent`: payloads as sequences.
pub ghost enum EventModel {
    OpenStream { sid: u64, prio: u8, promises: u8, guaranteed_bandwidth: u64 },
    CloseStream { sid: u64 },
    Shutdown,
    Message { sid: u64, data: Seq<u8> },
}

impl View for ProtocolEvent {
    type V = EventModel;

    open spec fn view(&self) -> EventModel {
        match self {
            ProtocolEvent::OpenStream { sid, prio, promises, guaranteed_bandwidth } => {
                EventModel::OpenStream {
                    sid: sid.spec_get(),
                    prio: *prio,
                    promises: *promises,
                    guaranteed_bandwidth: *guaranteed_bandwidth,
                }
            },
            ProtocolEvent::CloseStream { sid } => EventModel::CloseStream { sid: sid.spec_get() },
            ProtocolEvent::Shutdown => EventModel::Shutdown,
            ProtocolEvent::Message { sid, data } => EventModel::Message {
                sid: sid.spec_get(),
                data: data@,
            },
        }
    }
}

/// Error of a `send`, `flush` or `recv` on an established connection.
#[derive(Debug, Clone, Copy, PartialEq, Eq, Structural)]
pub enum ProtocolError {
    /// The substrate ended, gracefully or not; every lower-level failure is
    /// collapsed to this one condition.
    Closed,
    /// The peer broke the framing rules, e.g. a malformed header.
    Violated,
}

/// Error of the initial handshake of a connection.
#[derive(Debug, Clone, Copy, PartialEq, Eq, Structural)]
pub enum InitProtocolError {
    /// The substrate ended before the handshake finished.
    Closed,
    /// The peer's hello did not start with the expected magic bytes.
    WrongMagicNumber,
    /// The peer speaks an incompatible wire version.
    WrongVersion,
}

/// Error of a connect or listen attempt, fatal to that attempt only.
#[derive(Debug, Clone, Copy, PartialEq, Eq, Structural)]
pub enum NetworkConnectError {
    /// No listener is bound to the requested address.
    NotConnected,
    /// The listener vanished while the connect was in flight.
    BrokenPipe,
    /// The substrate refused or dropped the attempt.
    Io,
}

/// One message moved through the in-process substrate.
#[derive(Debug, Clone, PartialEq, Eq)]
pub enum MpscMsg {
    /// Application traffic.
    Event(ProtocolEvent),
    /// A raw handshake frame.
    Init(Vec<u8>),
}

/// Which physical QUIC stream a buffer belongs to.
#[derive(Debug, Clone, Copy, PartialEq, Eq, Structural)]
pub enum QuicDataFormatStream {
    /// The designated main bidirectional stream of the connection.
    Main,
    /// An unreliable datagram; reserved, not produced by this layer.
    Unreliable,
    /// The dedicated reliable stream of one logical stream id.
    Reliable(Sid),
}

/// A tagged byte buffer: one unit of traffic on a QUIC connection.
#[derive(Debug, Clone, PartialEq, Eq)]
pub struct QuicDataFormat {
    pub stream: QuicDataFormatStream,
    pub data: Vec<u8>,
}

/// Mathematical shape of a `QuicDataFormat`.
pub ghost struct QuicFrameModel {
    pub stream: QuicDataFormatStream,
    pub data: Seq<u8>,
}

impl View for QuicDataFormat {
    type V = QuicFrameModel;

    open spec fn view(&self) -> QuicFrameModel {
        QuicFrameModel { stream: self.stream, data: self.data@ }
    }
}

} // verus!
