//! The TCP substrate's framing.
//!
//! TCP gives one ordered byte stream per direction, so the framing is the
//! plain byte framing: events are encoded into one outbound queue that a
//! socket writer drains under a byte budget, and whatever chunks the
//! socket reader produces are fed into one reassembly buffer.  The socket
//! reads and writes themselves live outside this layer; `recv_classify`
//! is the decision they delegate back: a read of zero bytes means the
//! peer closed the connection.

use vstd::prelude::*;
use vstd::slice::{slice_subrange, slice_to_vec};
use crate::types::{Bandwidth, ProtocolError, ProtocolEvent};
use crate::framing::{spec_drain_len, RecvBuf, SendBuf};
use crate::wire::{spec_encode, spec_parse, wf_event, ParseModel};

verus! {

/// Size of the reused read buffer of a TCP connection, in bytes.
pub const TCP_READ_BUFFER: usize = 1500;

/// The sending half of a TCP connection.
pub struct TcpSendProtocol {
    buf: SendBuf,
}

impl TcpSendProtocol {
    /// The bytes queued and not yet flushed.
    pub closed spec fn pending(self) -> Seq<u8> {
        self.buf@
    }

    /// A fresh connection: nothing queued.
    pub fn new() -> (p: TcpSendProtocol)
        ensures
            p.pending() == Seq::<u8>::empty(),
    {
        TcpSendProtocol { buf: SendBuf::new() }
    }

    /// Queues one event behind everything queued before it.
    pub fn send(&mut self, event: &ProtocolEvent) -> (r: Result<(), ProtocolError>)
        requires
            wf_event(event@),
        ensures
            r == Ok::<(), ProtocolError>(()),
            final(self).pending() == old(self).pending() + spec_encode(event@),
    {
        self.buf.push_event(event);
        Ok(())
    }

    /// Takes up to `bandwidth` queued bytes for the socket writer, oldest
    /// first; the rest stays queued.  The returned budget is what the
    /// bytes amount to.
    pub fn flush(&mut self, bandwidth: Bandwidth) -> (r: (Bandwidth, Vec<u8>))
        ensures
            r.1@ == old(self).pending().take(spec_drain_len(old(self).pending(), bandwidth)),
            r.0 == r.1@.len(),
            final(self).pending() == old(self).pending().skip(
                spec_drain_len(old(self).pending(), bandwidth),
            ),
    {
        let out = self.buf.drain(bandwidth);
        let n = out.len() as u64;
        (n, out)
    }
}

/// The receiving half of a TCP connection.
pub struct TcpRecvProtocol {
    buf: RecvBuf,
}

impl TcpRecvProtocol {
    /// The bytes received and not yet parsed away.
    pub closed spec fn pending(self) -> Seq<u8> {
        self.buf@
    }

    /// A fresh connection: nothing buffered.
    pub fn new() -> (p: TcpRecvProtocol)
        ensures
            p.pending() == Seq::<u8>::empty(),
    {
        TcpRecvProtocol { buf: RecvBuf::new() }
    }

    /// Feeds one chunk the socket reader produced, whatever its size.
    pub fn feed(&mut self, chunk: &[u8])
        ensures
            final(self).pending() == old(self).pending() + chunk@,
    {
        self.buf.feed(chunk);
    }

    /// Pops the next event once a whole frame has arrived; a malformed
    /// head is a violation by the peer.
    pub fn try_recv(&mut self) -> (r: Result<Option<ProtocolEvent>, ProtocolError>)
        ensures
            match spec_parse(old(self).pending()) {
                ParseModel::Incomplete => r == Ok::<Option<ProtocolEvent>, ProtocolError>(None)
                    && final(self).pending() == old(self).pending(),
                ParseModel::Malformed => r == Err::<Option<ProtocolEvent>, ProtocolError>(
                    ProtocolError::Violated,
                ) && final(self).pending() == old(self).pending(),
                ParseModel::Frame(e, n) => (r matches Ok(Some(ev)) && ev@ == e) && final(self).pending() == old(self).pending().skip(n),
            },
    {
        self.buf.try_recv()
    }
}

/// The decision behind one socket read into the reused buffer: zero
/// received bytes mean the peer closed, and otherwise exactly the bytes
/// received are sliced off for the framing.
pub fn tcp_recv_classify(buffer: &Vec<u8>, n: usize) -> (r: Result<Vec<u8>, ProtocolError>)
    requires
        n <= buffer@.len(),
    ensures
        n == 0 ==> r == Err::<Vec<u8>, ProtocolError>(ProtocolError::Closed),
        n > 0 ==> (r matches Ok(c) && c@ == buffer@.take(n as int)),
{
    if n == 0 {
        Err(ProtocolError::Closed)
    } else {
        Ok(slice_to_vec(slice_subrange(buffer.as_slice(), 0, n)))
    }
}

} // verus!
