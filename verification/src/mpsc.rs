//! The in-process substrate: adapters and framing over a channel pair.
//!
//! The substrate-native frame is a structured [`MpscMsg`], so no byte
//! framing is needed; events queue up in order and `flush` moves them into
//! the channel under a byte budget.  Channel disconnection is collapsed to
//! [`ProtocolError::Closed`].

use vstd::prelude::*;
use crate::types::{Bandwidth, EventModel, MpscMsg, ProtocolError, ProtocolEvent};
use crate::chan::{mpsc_try_recv, mpsc_try_send, ChannelPoll, TrySendOutcome};
use crate::framing::{events_view, lemma_encode_all_snoc, spec_encode_all, wf_events};
use crate::wire::{event_wire_len, wf_event};

verus! {

/// Sends one unreliable frame into the in-process channel.
pub struct MpscDrain {
    pub(crate) sender: tokio::sync::mpsc::Sender<MpscMsg>,
}

/// Result of a non-waiting push into the substrate.
pub enum DrainAttempt {
    /// The frame is on its way.
    Sent,
    /// The channel is at capacity; the frame comes back untouched.
    WouldBlock(MpscMsg),
    /// The receiving peer is gone; the frame comes back untouched.
    Closed(MpscMsg),
}

impl MpscDrain {
    /// Hands one frame to the channel without waiting.
    pub fn send(&mut self, msg: MpscMsg) -> (r: DrainAttempt)
        ensures
            *final(self) == *old(self),
            r matches DrainAttempt::WouldBlock(back) ==> back == msg,
            r matches DrainAttempt::Closed(back) ==> back == msg,
    {
        match mpsc_try_send(&self.sender, msg) {
            TrySendOutcome::Sent => DrainAttempt::Sent,
            TrySendOutcome::Full(back) => DrainAttempt::WouldBlock(back),
            TrySendOutcome::Closed(back) => DrainAttempt::Closed(back),
        }
    }
}

/// Receives one unreliable frame from the in-process channel.
pub struct MpscSink {
    pub(crate) receiver: tokio::sync::mpsc::Receiver<MpscMsg>,
}

impl MpscSink {
    /// One poll of the substrate: a queued frame, nothing yet, or the
    /// channel's end.  What comes back depends on the channel's state,
    /// not on any argument; `classify_poll` says what each outcome
    /// means.
    pub fn recv(&mut self) -> ChannelPoll<MpscMsg> {
        mpsc_try_recv(&mut self.receiver)
    }
}

/// What one poll of the in-process substrate means to the protocol.
pub open spec fn spec_classify_poll(p: ChannelPoll<MpscMsg>) -> Result<
    Option<ProtocolEvent>,
    ProtocolError,
> {
    match p {
        ChannelPoll::Item(MpscMsg::Event(e)) => Ok(Some(e)),
        ChannelPoll::Item(MpscMsg::Init(_)) => Err(ProtocolError::Violated),
        ChannelPoll::Empty => Ok(None),
        ChannelPoll::Disconnected => Err(ProtocolError::Closed),
    }
}

/// Interprets one poll of the in-process substrate: a queued event is
/// delivered as it is, a handshake frame after establishment breaks the
/// protocol, an empty channel is no event yet, and a disconnected
/// channel is the closed connection.
pub fn classify_poll(p: ChannelPoll<MpscMsg>) -> (r: Result<Option<ProtocolEvent>, ProtocolError>)
    ensures
        r == spec_classify_poll(p),
{
    match p {
        ChannelPoll::Item(MpscMsg::Event(e)) => Ok(Some(e)),
        ChannelPoll::Item(MpscMsg::Init(_)) => Err(ProtocolError::Violated),
        ChannelPoll::Empty => Ok(None),
        ChannelPoll::Disconnected => Err(ProtocolError::Closed),
    }
}

/// The sending half of an in-process connection: an ordered event queue in
/// front of a drain.
pub struct MpscSendProtocol {
    drain: MpscDrain,
    queue: Vec<ProtocolEvent>,
}

impl MpscSendProtocol {
    /// The events queued and not yet flushed, oldest first.
    pub closed spec fn pending(self) -> Seq<EventModel> {
        events_view(self.queue@)
    }

    /// Every queued event fits the wire format.
    pub closed spec fn wf(self) -> bool {
        wf_events(self.pending())
    }

    /// Wraps a drain; nothing is pending yet.
    pub fn new(drain: MpscDrain) -> (p: MpscSendProtocol)
        ensures
            p.wf(),
            p.pending() == Seq::<EventModel>::empty(),
    {
        let p = MpscSendProtocol { drain, queue: Vec::new() };
        proof {
            assert(p.pending() =~= Seq::<EventModel>::empty());
        }
        p
    }

    /// Queues one event behind everything queued before it.
    pub fn send(&mut self, event: ProtocolEvent) -> (r: Result<(), ProtocolError>)
        requires
            old(self).wf(),
            wf_event(event@),
        ensures
            final(self).wf(),
            r == Ok::<(), ProtocolError>(()),
            final(self).pending() == old(self).pending().push(event@),
    {
        let ghost q0 = self.queue@;
        self.queue.push(event);
        proof {
            assert(events_view(q0.push(event)) =~= events_view(q0).push(event@));
        }
        Ok(())
    }

    /// Moves queued events into the channel, oldest first, while the byte
    /// budget lasts and the channel accepts them.  Returns the bytes'
    /// worth of events actually moved; what was not moved stays queued, in
    /// order.  `Err` means the receiving peer is gone.
    pub fn flush(&mut self, bandwidth: Bandwidth) -> (r: Result<Bandwidth, ProtocolError>)
        requires
            old(self).wf(),
        ensures
            final(self).wf(),
            exists|k: int|
                0 <= k <= old(self).pending().len() && final(self).pending() == old(
                    self,
                ).pending().skip(k) && (match r {
                    Ok(bw) => bw == spec_encode_all(old(self).pending().take(k)).len(),
                    Err(e) => e == ProtocolError::Closed,
                }),
    {
        let ghost q0 = events_view(self.queue@);
        let mut consumed: u64 = 0;
        let ghost k: int = 0;
        loop
            invariant
                q0 == old(self).pending(),
                wf_events(old(self).pending()),
                0 <= k <= q0.len(),
                events_view(self.queue@) == q0.skip(k),
                wf_events(q0),
                wf_events(events_view(self.queue@)),
                consumed == spec_encode_all(q0.take(k)).len(),
                consumed <= bandwidth,
            decreases q0.len() - k,
        {
            if self.queue.len() == 0 {
                break;
            }
            proof {
                assert(events_view(self.queue@)[0] == self.queue@[0]@);
            }
            let size = event_wire_len(&self.queue[0]);
            if size > bandwidth - consumed {
                break;
            }
            let ev = self.queue.remove(0);
            let ghost qmid = events_view(self.queue@);
            proof {
                assert(qmid =~= q0.skip(k).skip(1));
                assert(qmid =~= q0.skip(k + 1));
            }
            match self.drain.send(MpscMsg::Event(ev)) {
                DrainAttempt::Sent => {
                    proof {
                        assert(q0.take(k + 1) =~= q0.take(k).push(q0[k]));
                        lemma_encode_all_snoc(q0.take(k), q0[k]);
                        assert(q0[k] == ev@);
                    }
                    consumed = consumed + size;
                    proof {
                        k = k + 1;
                    }
                },
                DrainAttempt::WouldBlock(back) => {
                    match back {
                        MpscMsg::Event(ev2) => {
                            self.queue.insert(0, ev2);
                            proof {
                                assert(events_view(self.queue@) =~= q0.skip(k));
                            }
                        },
                        MpscMsg::Init(_) => {
                            proof {
                                assert(false);
                            }
                        },
                    }
                    break;
                },
                DrainAttempt::Closed(_) => {
                    proof {
                        k = k + 1;
                        assert(self.pending() == old(self).pending().skip(k));
                        assert(0 <= k <= old(self).pending().len());
                    }
                    return Err(ProtocolError::Closed);
                },
            }
        }
        Ok(consumed)
    }
}

/// The receiving half of an in-process connection.
pub struct MpscRecvProtocol {
    sink: MpscSink,
}

impl MpscRecvProtocol {
    /// Wraps a sink.
    pub fn new(sink: MpscSink) -> MpscRecvProtocol {
        MpscRecvProtocol { sink }
    }

    /// Pulls the next event if one is queued.  The substrate decides
    /// what one poll yields; the result is exactly `classify_poll` of
    /// that outcome, so an in-process frame is delivered as the event it
    /// already is.
    pub fn recv(&mut self) -> (r: Result<Option<ProtocolEvent>, ProtocolError>)
        ensures
            exists|p: ChannelPoll<MpscMsg>| r == #[trigger] spec_classify_poll(p),
    {
        let p = self.sink.recv();
        let ghost polled = p;
        let r = classify_poll(p);
        proof {
            assert(r == spec_classify_poll(polled));
        }
        r
    }
}

/// Builds the two halves of an in-process connection from its channel
/// endpoints.
pub fn new_mpsc_pair(
    sender: tokio::sync::mpsc::Sender<MpscMsg>,
    receiver: tokio::sync::mpsc::Receiver<MpscMsg>,
) -> (r: (MpscSendProtocol, MpscRecvProtocol))
    ensures
        r.0.wf(),
        r.0.pending() == Seq::<EventModel>::empty(),
{
    let sp = MpscSendProtocol::new(MpscDrain { sender });
    let rp = MpscRecvProtocol::new(MpscSink { receiver });
    (sp, rp)
}

} // verus!
