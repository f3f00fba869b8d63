//! The unified protocol facade.
//!
//! A `Protocols` value owns one backend — TCP, in-process, or QUIC — and
//! splits into an independently owned send half and receive half.  Every
//! operation dispatches to the active backend and keeps its exact
//! contract; no backend logic lives here.

use vstd::prelude::*;
use crate::types::{
    Bandwidth, EventModel, MpscMsg, ProtocolError, ProtocolEvent, QuicDataFormat,
    QuicFrameModel, SID_MAIN_MARKER,
};
use crate::framing::spec_drain_len;
use crate::mpsc::{new_mpsc_pair, MpscRecvProtocol, MpscSendProtocol};
use crate::quic_framing::{event_sid, QuicRecvProtocol, QuicSendProtocol};
use crate::registry::MpscEndpoints;
use crate::tcp::{TcpRecvProtocol, TcpSendProtocol};
use crate::wire::{spec_encode, spec_parse, wf_event, ParseModel};

verus! {

/// One established connection, whichever substrate carries it.
pub enum Protocols {
    Tcp((TcpSendProtocol, TcpRecvProtocol)),
    Mpsc((MpscSendProtocol, MpscRecvProtocol)),
    Quic((QuicSendProtocol, QuicRecvProtocol)),
}

/// The sending half of a split connection.
pub enum SendProtocols {
    Tcp(TcpSendProtocol),
    Mpsc(MpscSendProtocol),
    Quic(QuicSendProtocol),
}

/// The receiving half of a split connection.
pub enum RecvProtocols {
    Tcp(TcpRecvProtocol),
    Mpsc(MpscRecvProtocol),
    Quic(QuicRecvProtocol),
}

/// What one flush hands to the substrate writer.
pub enum FlushOut {
    /// Bytes for the TCP socket writer.
    Tcp(Vec<u8>),
    /// Nothing to hand over: the in-process backend pushed its events
    /// into the channel itself.
    Mpsc,
    /// Tagged buffers for the QUIC drain.
    Quic(Vec<QuicDataFormat>),
}

/// Total bytes carried by a sequence of QUIC frames.
pub open spec fn spec_frames_len(fs: Seq<QuicFrameModel>) -> int
    decreases fs.len(),
{
    if fs.len() == 0 {
        0
    } else {
        fs[0].data.len() + spec_frames_len(fs.skip(1))
    }
}

/// One more frame adds its bytes to the total.
proof fn lemma_frames_len_take_snoc(fs: Seq<QuicFrameModel>, i: int)
    requires
        0 <= i < fs.len(),
    ensures
        spec_frames_len(fs.take(i + 1)) == spec_frames_len(fs.take(i)) + fs[i].data.len(),
    decreases i,
{
    if i == 0 {
        assert(fs.take(1)[0] == fs[0]);
        assert(fs.take(1).skip(1) =~= Seq::<QuicFrameModel>::empty());
        assert(fs.take(0) =~= Seq::<QuicFrameModel>::empty());
    } else {
        assert(fs.take(i + 1)[0] == fs[0]);
        assert(fs.take(i)[0] == fs[0]);
        assert(fs.take(i + 1).skip(1) =~= fs.skip(1).take(i));
        assert(fs.take(i).skip(1) =~= fs.skip(1).take(i - 1));
        assert(fs.skip(1)[i - 1] == fs[i]);
        lemma_frames_len_take_snoc(fs.skip(1), i - 1);
    }
}

/// Sums the bytes of the frames, saturating at the largest budget.
fn frames_total(v: &Vec<QuicDataFormat>) -> (r: Bandwidth)
    ensures
        r == (if spec_frames_len(v@.map_values(|f: QuicDataFormat| f@)) > u64::MAX {
            u64::MAX as int
        } else {
            spec_frames_len(v@.map_values(|f: QuicDataFormat| f@))
        }),
{
    let ghost fs = v@.map_values(|f: QuicDataFormat| f@);
    let mut total: u64 = 0;
    let mut i: usize = 0;
    proof {
        assert(fs.take(0) =~= Seq::<QuicFrameModel>::empty());
    }
    loop
        invariant
            fs == v@.map_values(|f: QuicDataFormat| f@),
            0 <= i <= v@.len(),
            fs.len() == v@.len(),
            total == (if spec_frames_len(fs.take(i as int)) > u64::MAX {
                u64::MAX as int
            } else {
                spec_frames_len(fs.take(i as int))
            }),
            spec_frames_len(fs.take(i as int)) >= 0,
        ensures
            i == v@.len(),
        decreases v@.len() - i,
    {
        if i == v.len() {
            break;
        }
        let n = v[i].data.len() as u64;
        proof {
            lemma_frames_len_take_snoc(fs, i as int);
            assert(fs[i as int] == v@[i as int]@);
        }
        if n > u64::MAX - total {
            total = u64::MAX;
        } else {
            total = total + n;
        }
        i = i + 1;
    }
    proof {
        assert(fs.take(v@.len() as int) =~= fs);
    }
    total
}

impl Protocols {
    /// Wraps a fresh TCP connection's framing; the socket halves stay
    /// with their reader and writer.
    pub fn new_tcp() -> (p: Protocols)
        ensures
            p matches Protocols::Tcp((s, r)) && s.pending() == Seq::<u8>::empty() && r.pending()
                == Seq::<u8>::empty(),
    {
        Protocols::Tcp((TcpSendProtocol::new(), TcpRecvProtocol::new()))
    }

    /// Wraps the endpoints of an in-process connection.
    pub fn new_mpsc(
        sender: tokio::sync::mpsc::Sender<MpscMsg>,
        receiver: tokio::sync::mpsc::Receiver<MpscMsg>,
    ) -> (p: Protocols)
        ensures
            p matches Protocols::Mpsc((s, r)) && s.wf() && s.pending()
                == Seq::<EventModel>::empty(),
    {
        let (sp, rp) = new_mpsc_pair(sender, receiver);
        Protocols::Mpsc((sp, rp))
    }

    /// Wraps the endpoints of an accepted or completed in-process
    /// connection.
    pub fn from_endpoints(e: MpscEndpoints) -> (p: Protocols)
        ensures
            p matches Protocols::Mpsc((s, r)) && s.wf() && s.pending()
                == Seq::<EventModel>::empty(),
    {
        let MpscEndpoints { sender, receiver } = e;
        Protocols::new_mpsc(sender, receiver)
    }

    /// Wraps a fresh QUIC connection's framing; the physical connection
    /// and its streams stay with the drain and sink that own them.
    pub fn new_quic() -> (p: Protocols)
        ensures
            p matches Protocols::Quic((s, r)) && s.wf() && r.wf() && s.main_bytes()
                == Seq::<u8>::empty() && s.rows() == Seq::<(u64, crate::quic_framing::StreamOut)>::empty()
                && r.main_bytes() == Seq::<u8>::empty() && r.rows() == Seq::<
                (u64, crate::framing::RecvBuf),
            >::empty(),
    {
        Protocols::Quic((QuicSendProtocol::new(), QuicRecvProtocol::new()))
    }

    /// Separates the connection into its two halves; each owns its
    /// direction's state and they share nothing.
    pub fn split(self) -> (r: (SendProtocols, RecvProtocols))
        ensures
            match self {
                Protocols::Tcp((s, rv)) => r == (
                    SendProtocols::Tcp(s),
                    RecvProtocols::Tcp(rv),
                ),
                Protocols::Mpsc((s, rv)) => r == (
                    SendProtocols::Mpsc(s),
                    RecvProtocols::Mpsc(rv),
                ),
                Protocols::Quic((s, rv)) => r == (
                    SendProtocols::Quic(s),
                    RecvProtocols::Quic(rv),
                ),
            },
    {
        match self {
            Protocols::Tcp((s, r)) => (SendProtocols::Tcp(s), RecvProtocols::Tcp(r)),
            Protocols::Mpsc((s, r)) => (SendProtocols::Mpsc(s), RecvProtocols::Mpsc(r)),
            Protocols::Quic((s, r)) => (SendProtocols::Quic(s), RecvProtocols::Quic(r)),
        }
    }
}

impl SendProtocols {
    /// The backend-specific well-formedness of this half.
    pub open spec fn wf(self) -> bool {
        match self {
            SendProtocols::Tcp(_) => true,
            SendProtocols::Mpsc(p) => p.wf(),
            SendProtocols::Quic(p) => p.wf(),
        }
    }

    /// Hands one event the receive half produced over to this half; only
    /// the QUIC backend acts on it, by preparing the outbound queue of a
    /// stream the peer opened.
    pub fn notify_from_recv(&mut self, event: &ProtocolEvent)
        requires
            old(self).wf(),
            event_sid(event@) matches Some(s) ==> s != SID_MAIN_MARKER,
        ensures
            final(self).wf(),
            (*old(self)) is Tcp ==> *final(self) == *old(self),
            (*old(self)) is Mpsc ==> *final(self) == *old(self),
            (*old(self)) matches SendProtocols::Quic(p) ==> ((*final(self)) matches SendProtocols::Quic(
                p2,
            ) && p2.main_bytes() == p.main_bytes() && (match event@ {
                EventModel::OpenStream { sid, .. } => {
                    &&& p2.stream_state(sid) is Some
                    &&& (p.stream_state(sid) is Some ==> p2 == p)
                    &&& (p.stream_state(sid) is None ==> p2.stream_state(sid) == Some(
                        (Seq::<u8>::empty(), false),
                    ))
                    &&& forall|q: u64| q != sid ==> p2.stream_state(q) == p.stream_state(q)
                },
                _ => p2 == p,
            })),
    {
        match self {
            SendProtocols::Tcp(_) => {},
            SendProtocols::Mpsc(_) => {},
            SendProtocols::Quic(p) => {
                match event {
                    ProtocolEvent::OpenStream { sid, .. } => {
                        p.ensure_stream(*sid);
                    },
                    _ => {},
                }
            },
        }
    }

    /// Queues one event on the active backend, exactly as that backend's
    /// own `send` does.
    pub fn send(&mut self, event: ProtocolEvent) -> (r: Result<(), ProtocolError>)
        requires
            old(self).wf(),
            wf_event(event@),
            event_sid(event@) matches Some(s) ==> s != SID_MAIN_MARKER,
        ensures
            final(self).wf(),
            r == Ok::<(), ProtocolError>(()),
            (*old(self)) matches SendProtocols::Tcp(p) ==> ((*final(self)) matches SendProtocols::Tcp(
                p2,
            ) && p2.pending() == p.pending() + spec_encode(event@)),
            (*old(self)) matches SendProtocols::Mpsc(p) ==> ((*final(self)) matches SendProtocols::Mpsc(
                p2,
            ) && p2.pending() == p.pending().push(event@)),
            (*old(self)) matches SendProtocols::Quic(p) ==> ((*final(self)) matches SendProtocols::Quic(
                p2,
            ) && (match event@ {
                EventModel::Message { sid, .. } => {
                    &&& p2.main_bytes() == p.main_bytes()
                    &&& (p2.stream_state(sid) matches Some((b, _)) && b == (match p.stream_state(
                        sid,
                    ) {
                        Some((b0, _)) => b0 + spec_encode(event@),
                        None => spec_encode(event@),
                    }))
                    &&& forall|q: u64| q != sid ==> p2.stream_state(q) == p.stream_state(q)
                },
                EventModel::OpenStream { sid, .. } => {
                    &&& p2.main_bytes() == p.main_bytes() + spec_encode(event@)
                    &&& p2.stream_state(sid) is Some
                    &&& forall|q: u64| q != sid ==> p2.stream_state(q) == p.stream_state(q)
                },
                _ => {
                    &&& p2.main_bytes() == p.main_bytes() + spec_encode(event@)
                    &&& p2.rows() == p.rows()
                },
            })),
    {
        match self {
            SendProtocols::Tcp(p) => p.send(&event),
            SendProtocols::Mpsc(p) => p.send(event),
            SendProtocols::Quic(p) => p.send(&event),
        }
    }

    /// Pushes queued traffic toward the substrate under the byte budget
    /// and reports the bytes' worth actually handed over, together with
    /// whatever the substrate writer must carry.  An elapsed-time hint
    /// would only serve a rate-limiting layer above; here the byte
    /// budget alone throttles, and the QUIC substrate paces itself.
    pub fn flush(&mut self, bandwidth: Bandwidth) -> (r: Result<(Bandwidth, FlushOut), ProtocolError>)
        requires
            old(self).wf(),
        ensures
            final(self).wf(),
            (*old(self)) matches SendProtocols::Tcp(p) ==> ((*final(self)) matches SendProtocols::Tcp(
                p2,
            ) && (r matches Ok((bw, FlushOut::Tcp(bytes))) && bytes@ == p.pending().take(
                spec_drain_len(p.pending(), bandwidth),
            ) && bw == bytes@.len() && p2.pending() == p.pending().skip(
                spec_drain_len(p.pending(), bandwidth),
            ))),
            (*old(self)) matches SendProtocols::Mpsc(p) ==> ((*final(self)) matches SendProtocols::Mpsc(
                p2,
            ) && exists|k: int|
                0 <= k <= p.pending().len() && p2.pending() == p.pending().skip(k) && (match r {
                    Ok((bw, out)) => out is Mpsc && bw == crate::framing::spec_encode_all(
                        p.pending().take(k),
                    ).len(),
                    Err(e) => e == ProtocolError::Closed,
                })),
            (*old(self)) matches SendProtocols::Quic(p) ==> ((*final(self)) matches SendProtocols::Quic(
                p2,
            ) && (r matches Ok((bw, FlushOut::Quic(frames))) && {
                let fs = frames@.map_values(|f: QuicDataFormat| f@);
                &&& fs == (if p.main_bytes().len() > 0 {
                    seq![
                        QuicFrameModel {
                            stream: crate::types::QuicDataFormatStream::Main,
                            data: p.main_bytes(),
                        },
                    ]
                } else {
                    Seq::<QuicFrameModel>::empty()
                }) + crate::quic_framing::spec_stream_frames(p.rows())
                &&& bw == (if spec_frames_len(fs) > u64::MAX {
                    u64::MAX as int
                } else {
                    spec_frames_len(fs)
                })
                &&& p2.main_bytes() == Seq::<u8>::empty()
                &&& p2.rows().len() == p.rows().len()
            })),
    {
        match self {
            SendProtocols::Tcp(p) => {
                let (bw, bytes) = p.flush(bandwidth);
                Ok((bw, FlushOut::Tcp(bytes)))
            },
            SendProtocols::Mpsc(p) => {
                match p.flush(bandwidth) {
                    Ok(bw) => Ok((bw, FlushOut::Mpsc)),
                    Err(e) => Err(e),
                }
            },
            SendProtocols::Quic(p) => {
                let frames = p.flush();
                let bw = frames_total(&frames);
                Ok((bw, FlushOut::Quic(frames)))
            },
        }
    }
}

impl RecvProtocols {
    /// The backend-specific well-formedness of this half.
    pub open spec fn wf(self) -> bool {
        match self {
            RecvProtocols::Tcp(_) => true,
            RecvProtocols::Mpsc(_) => true,
            RecvProtocols::Quic(p) => p.wf(),
        }
    }

    /// Feeds one chunk the TCP socket reader produced.
    pub fn feed_bytes(&mut self, chunk: &[u8])
        requires
            (*old(self)) is Tcp,
        ensures
            final(self).wf(),
            (*old(self)) matches RecvProtocols::Tcp(p) ==> ((*final(self)) matches RecvProtocols::Tcp(
                p2,
            ) && p2.pending() == p.pending() + chunk@),
    {
        match self {
            RecvProtocols::Tcp(p) => p.feed(chunk),
            _ => {
                proof {
                    assert(false);
                }
            },
        }
    }

    /// Feeds one tagged buffer the QUIC sink produced.
    pub fn feed_frame(&mut self, frame: &QuicDataFormat)
        requires
            (*old(self)) is Quic,
            old(self).wf(),
            !(frame.stream is Unreliable),
        ensures
            final(self).wf(),
            (*old(self)) matches RecvProtocols::Quic(p) ==> ((*final(self)) matches RecvProtocols::Quic(
                p2,
            ) && (match frame.stream {
                crate::types::QuicDataFormatStream::Main => p2.main_bytes() == p.main_bytes()
                    + frame.data@ && p2.rows() == p.rows(),
                crate::types::QuicDataFormatStream::Unreliable => false,
                crate::types::QuicDataFormatStream::Reliable(sid) => {
                    &&& p2.main_bytes() == p.main_bytes()
                    &&& (p2.stream_bytes(sid.spec_get()) matches Some(b) && b == (match
                    p.stream_bytes(sid.spec_get()) {
                        Some(b0) => b0 + frame.data@,
                        None => frame.data@,
                    }))
                    &&& forall|q: u64|
                        q != sid.spec_get() ==> p2.stream_bytes(q) == p.stream_bytes(q)
                },
            })),
    {
        match self {
            RecvProtocols::Quic(p) => p.feed(frame),
            _ => {
                proof {
                    assert(false);
                }
            },
        }
    }

    /// Pulls the next event from the active backend, exactly as that
    /// backend's own `recv` does.
    pub fn recv(&mut self) -> (r: Result<Option<ProtocolEvent>, ProtocolError>)
        requires
            old(self).wf(),
        ensures
            final(self).wf(),
            (*old(self)) matches RecvProtocols::Tcp(p) ==> ((*final(self)) matches RecvProtocols::Tcp(
                p2,
            ) && (match spec_parse(p.pending()) {
                ParseModel::Incomplete => r == Ok::<Option<ProtocolEvent>, ProtocolError>(None)
                    && p2.pending() == p.pending(),
                ParseModel::Malformed => r == Err::<Option<ProtocolEvent>, ProtocolError>(
                    ProtocolError::Violated,
                ) && p2.pending() == p.pending(),
                ParseModel::Frame(e, n) => (r matches Ok(Some(ev)) && ev@ == e) && p2.pending()
                    == p.pending().skip(n),
            })),
            (*old(self)) is Mpsc ==> ((*final(self)) is Mpsc && (exists|
                p: crate::chan::ChannelPoll<MpscMsg>,
            |
                r == #[trigger] crate::mpsc::spec_classify_poll(p))),
            (*old(self)) matches RecvProtocols::Quic(p) ==> ((*final(self)) matches RecvProtocols::Quic(
                p2,
            ) && (match p.scan() {
                crate::quic_framing::ScanModel::Idle => r == Ok::<
                    Option<ProtocolEvent>,
                    ProtocolError,
                >(None) && p2.main_bytes() == p.main_bytes() && p2.rows() == p.rows(),
                crate::quic_framing::ScanModel::MainReady => p2.rows() == p.rows() && (match
                spec_parse(p.main_bytes()) {
                    ParseModel::Frame(e, n) => (r matches Ok(Some(ev)) && ev@ == e)
                        && p2.main_bytes() == p.main_bytes().skip(n),
                    ParseModel::Malformed => r == Err::<Option<ProtocolEvent>, ProtocolError>(
                        ProtocolError::Violated,
                    ) && p2.main_bytes() == p.main_bytes(),
                    ParseModel::Incomplete => false,
                }),
                crate::quic_framing::ScanModel::StreamReady(j) => p2.main_bytes()
                    == p.main_bytes() && p2.rows().len() == p.rows().len() && p2.rows()[j].0
                    == p.rows()[j].0 && (forall|q: int|
                    0 <= q < p.rows().len() && q != j ==> #[trigger] p2.rows()[q] == p.rows()[q])
                    && (match spec_parse(p.rows()[j].1@) {
                    ParseModel::Frame(e, n) => (r matches Ok(Some(ev)) && ev@ == e)
                        && p2.rows()[j].1@ == p.rows()[j].1@.skip(n),
                    ParseModel::Malformed => r == Err::<Option<ProtocolEvent>, ProtocolError>(
                        ProtocolError::Violated,
                    ) && p2.rows()[j].1@ == p.rows()[j].1@,
                    ParseModel::Incomplete => false,
                }),
            })),
    {
        match self {
            RecvProtocols::Tcp(p) => p.try_recv(),
            RecvProtocols::Mpsc(p) => p.recv(),
            RecvProtocols::Quic(p) => p.try_recv(),
        }
    }
}

} // verus!
