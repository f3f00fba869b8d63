//! Event framing over a multiplexed QUIC connection.
//!
//! Control events travel on the main stream; each `Message` travels on
//! the dedicated reliable stream of its stream id.  The sending side
//! keeps one outbound byte queue per stream; a stream created since the
//! last flush is announced with an empty probe buffer, which is what lets
//! the drain open the physical stream (see the multiplexer).  The
//! receiving side keeps one reassembly buffer per stream and fans every
//! completed event into one `recv` call.

use vstd::prelude::*;
use crate::types::{
    EventModel, ProtocolError, ProtocolEvent, QuicDataFormat, QuicDataFormatStream, QuicFrameModel,
    Sid, SID_MAIN_MARKER,
};
use crate::assoc::{
    assoc_find, assoc_get, assoc_wf, lemma_assoc_get_at, lemma_assoc_get_none, lemma_assoc_push,
    lemma_assoc_update,
};
use crate::framing::{RecvBuf, SendBuf};
use crate::wire::{spec_encode, spec_parse, wf_event, ParseModel};

verus! {

/// The stream id an event belongs to, if it names one.
pub open spec fn event_sid(e: EventModel) -> Option<u64> {
    match e {
        EventModel::OpenStream { sid, .. } => Some(sid),
        EventModel::CloseStream { sid } => Some(sid),
        EventModel::Shutdown => None,
        EventModel::Message { sid, .. } => Some(sid),
    }
}

/// One outbound reliable stream: its byte queue, and whether the drain
/// has already been told about it.
pub struct StreamOut {
    pub buf: SendBuf,
    pub probed: bool,
}

/// The sending half of a QUIC connection's framing.
pub struct QuicSendProtocol {
    main: SendBuf,
    streams: Vec<(u64, StreamOut)>,
}

/// The frames one flush emits for one outbound stream: an empty probe
/// announces a stream never announced before, and its queued bytes, if
/// any, follow as their own buffer.  The probe is what entitles the
/// drain to open the physical stream.
pub open spec fn spec_entry_frames(e: (u64, StreamOut)) -> Seq<QuicFrameModel> {
    (if !e.1.probed {
        seq![
            QuicFrameModel {
                stream: QuicDataFormatStream::Reliable(Sid { id: e.0 }),
                data: Seq::empty(),
            },
        ]
    } else {
        Seq::<QuicFrameModel>::empty()
    }) + (if e.1.buf@.len() > 0 {
        seq![
            QuicFrameModel {
                stream: QuicDataFormatStream::Reliable(Sid { id: e.0 }),
                data: e.1.buf@,
            },
        ]
    } else {
        Seq::<QuicFrameModel>::empty()
    })
}

/// The frames one flush emits for the given outbound streams, in table
/// order.
pub open spec fn spec_stream_frames(s: Seq<(u64, StreamOut)>) -> Seq<QuicFrameModel>
    decreases s.len(),
{
    if s.len() == 0 {
        Seq::empty()
    } else {
        spec_entry_frames(s[0]) + spec_stream_frames(s.skip(1))
    }
}

impl QuicSendProtocol {
    /// Bytes queued for the main stream.
    pub closed spec fn main_bytes(self) -> Seq<u8> {
        self.main@
    }

    /// The outbound stream table: stream id, its queued bytes, and
    /// whether it has been announced to the drain.
    pub closed spec fn rows(self) -> Seq<(u64, StreamOut)> {
        self.streams@
    }

    /// The queued bytes and announced flag of one stream id.
    pub open spec fn stream_state(self, sid: u64) -> Option<(Seq<u8>, bool)> {
        match assoc_get(self.rows(), sid) {
            Some(e) => Some((e.buf@, e.probed)),
            None => None,
        }
    }

    /// Stream ids are distinct.
    pub closed spec fn wf(self) -> bool {
        assoc_wf(self.rows())
    }

    /// A fresh connection: nothing queued, no reliable stream yet.
    pub fn new() -> (p: QuicSendProtocol)
        ensures
            p.wf(),
            p.main_bytes() == Seq::<u8>::empty(),
            p.rows() == Seq::<(u64, StreamOut)>::empty(),
    {
        QuicSendProtocol { main: SendBuf::new(), streams: Vec::new() }
    }

    /// Makes sure the stream id has an outbound queue, without queueing
    /// anything: a stream the peer opened gets a local queue this way, so
    /// replies use its reliable stream.
    pub fn ensure_stream(&mut self, sid: Sid)
        requires
            old(self).wf(),
            sid.spec_get() != SID_MAIN_MARKER,
        ensures
            final(self).wf(),
            final(self).main_bytes() == old(self).main_bytes(),
            final(self).stream_state(sid.spec_get()) is Some,
            old(self).stream_state(sid.spec_get()) is Some ==> *final(self) == *old(self),
            old(self).stream_state(sid.spec_get()) is None ==> final(self).stream_state(
                sid.spec_get(),
            ) == Some((Seq::<u8>::empty(), false)),
            forall|q: u64|
                q != sid.spec_get() ==> final(self).stream_state(q) == old(self).stream_state(q),
    {
        let s = sid.get_u64();
        let ghost rows0 = self.streams@;
        match assoc_find(&self.streams, s) {
            Some(i) => {
                proof {
                    lemma_assoc_get_at(rows0, i as int);
                }
            },
            None => {
                proof {
                    lemma_assoc_get_none(rows0, s);
                }
                self.streams.push((s, StreamOut { buf: SendBuf::new(), probed: false }));
                proof {
                    assert forall|q: u64| #[trigger]
                        assoc_get(self.streams@, q) == (if q == s {
                            assoc_get(self.streams@, s)
                        } else {
                            assoc_get(rows0, q)
                        }) by {
                        lemma_assoc_push(rows0, s, self.streams@[rows0.len() as int].1, q);
                    }
                    lemma_assoc_push(rows0, s, self.streams@[rows0.len() as int].1, s);
                }
            },
        }
    }

    /// Queues one event.  A `Message` goes to its stream's queue, which
    /// is created on first use; everything else goes to the main stream.
    /// An `OpenStream` also creates the stream's queue, so the next flush
    /// announces it while it is still empty.
    pub fn send(&mut self, event: &ProtocolEvent) -> (r: Result<(), ProtocolError>)
        requires
            old(self).wf(),
            wf_event(event@),
            event_sid(event@) matches Some(s) ==> s != SID_MAIN_MARKER,
        ensures
            final(self).wf(),
            r == Ok::<(), ProtocolError>(()),
            match event@ {
                EventModel::Message { sid, .. } => {
                    &&& final(self).main_bytes() == old(self).main_bytes()
                    &&& final(self).stream_state(sid) matches Some((b, _)) && b == (match old(self).stream_state(sid) {
                        Some((b0, _)) => b0 + spec_encode(event@),
                        None => spec_encode(event@),
                    })
                    &&& forall|q: u64|
                        q != sid ==> final(self).stream_state(q) == old(self).stream_state(q)
                },
                EventModel::OpenStream { sid, .. } => {
                    &&& final(self).main_bytes() == old(self).main_bytes() + spec_encode(event@)
                    &&& final(self).stream_state(sid) is Some
                    &&& (old(self).stream_state(sid) is Some ==> final(self).stream_state(sid)
                        == old(self).stream_state(sid))
                    &&& (old(self).stream_state(sid) is None ==> final(self).stream_state(sid)
                        == Some((Seq::<u8>::empty(), false)))
                    &&& forall|q: u64|
                        q != sid ==> final(self).stream_state(q) == old(self).stream_state(q)
                },
                _ => {
                    &&& final(self).main_bytes() == old(self).main_bytes() + spec_encode(event@)
                    &&& final(self).rows() == old(self).rows()
                },
            },
    {
        match event {
            ProtocolEvent::Message { sid, .. } => {
                let s = sid.get_u64();
                let ghost rows0 = self.streams@;
                match assoc_find(&self.streams, s) {
                    Some(i) => {
                        proof {
                            lemma_assoc_get_at(rows0, i as int);
                        }
                        let (key, mut e) = self.streams.remove(i);
                        e.buf.push_event(event);
                        self.streams.insert(i, (key, e));
                        proof {
                            assert(self.streams@ =~= rows0.update(
                                i as int,
                                (rows0[i as int].0, self.streams@[i as int].1),
                            ));
                            assert forall|q: u64| #[trigger]
                                assoc_get(self.streams@, q) == (if q == s {
                                    assoc_get(self.streams@, s)
                                } else {
                                    assoc_get(rows0, q)
                                }) by {
                                lemma_assoc_update(rows0, i as int, self.streams@[i as int].1, q);
                            }
                            lemma_assoc_update(rows0, i as int, self.streams@[i as int].1, s);
                        }
                    },
                    None => {
                        proof {
                            lemma_assoc_get_none(rows0, s);
                        }
                        let mut b = SendBuf::new();
                        b.push_event(event);
                        self.streams.push((s, StreamOut { buf: b, probed: false }));
                        proof {
                            assert forall|q: u64| #[trigger]
                                assoc_get(self.streams@, q) == (if q == s {
                                    assoc_get(self.streams@, s)
                                } else {
                                    assoc_get(rows0, q)
                                }) by {
                                lemma_assoc_push(rows0, s, self.streams@[rows0.len() as int].1, q);
                            }
                            lemma_assoc_push(rows0, s, self.streams@[rows0.len() as int].1, s);
                        }
                    },
                }
                Ok(())
            },
            ProtocolEvent::OpenStream { sid, .. } => {
                let s = sid.get_u64();
                let ghost rows0 = self.streams@;
                self.main.push_event(event);
                match assoc_find(&self.streams, s) {
                    Some(i) => {
                        proof {
                            lemma_assoc_get_at(rows0, i as int);
                        }
                    },
                    None => {
                        proof {
                            lemma_assoc_get_none(rows0, s);
                        }
                        self.streams.push((s, StreamOut { buf: SendBuf::new(), probed: false }));
                        proof {
                            assert forall|q: u64| #[trigger]
                                assoc_get(self.streams@, q) == (if q == s {
                                    assoc_get(self.streams@, s)
                                } else {
                                    assoc_get(rows0, q)
                                }) by {
                                lemma_assoc_push(rows0, s, self.streams@[rows0.len() as int].1, q);
                            }
                            lemma_assoc_push(rows0, s, self.streams@[rows0.len() as int].1, s);
                        }
                    },
                }
                Ok(())
            },
            _ => {
                self.main.push_event(event);
                Ok(())
            },
        }
    }

    /// Empties every queue into tagged buffers for the drain: first the
    /// main stream if it has bytes, then each reliable stream in table
    /// order — with an empty probe for any stream not yet announced.
    pub fn flush(&mut self) -> (out: Vec<QuicDataFormat>)
        requires
            old(self).wf(),
        ensures
            final(self).wf(),
            out@.map_values(|f: QuicDataFormat| f@) == (if old(self).main_bytes().len() > 0 {
                seq![QuicFrameModel { stream: QuicDataFormatStream::Main, data: old(self).main_bytes() }]
            } else {
                Seq::<QuicFrameModel>::empty()
            }) + spec_stream_frames(old(self).rows()),
            final(self).main_bytes() == Seq::<u8>::empty(),
            final(self).rows().len() == old(self).rows().len(),
            forall|j: int|
                0 <= j < old(self).rows().len() ==> {
                    &&& (#[trigger] final(self).rows()[j]).0 == old(self).rows()[j].0
                    &&& final(self).rows()[j].1.buf@ == Seq::<u8>::empty()
                    &&& final(self).rows()[j].1.probed
                },
    {
        let ghost rows0 = self.streams@;
        let ghost mainpart: Seq<QuicFrameModel> = if self.main@.len() > 0 {
            seq![QuicFrameModel { stream: QuicDataFormatStream::Main, data: self.main@ }]
        } else {
            Seq::empty()
        };
        let mut out: Vec<QuicDataFormat> = Vec::new();
        if self.main.buffered_len() > 0 {
            let n = self.main.buffered_len();
            let data = self.main.drain(n as u64);
            proof {
                assert(data@ =~= old(self).main_bytes());
                assert(self.main@ =~= Seq::<u8>::empty());
            }
            out.push(QuicDataFormat { stream: QuicDataFormatStream::Main, data });
        }
        proof {
            assert(self.main@ =~= Seq::<u8>::empty());
            assert(out@.map_values(|f: QuicDataFormat| f@) =~= mainpart);
            assert(rows0.take(0) =~= Seq::<(u64, StreamOut)>::empty());
            assert(mainpart + spec_stream_frames(rows0.take(0)) =~= mainpart);
        }
        let mut done: Vec<(u64, StreamOut)> = Vec::new();
        let ghost i: int = 0;
        proof {
            assert(rows0.skip(0) =~= rows0);
        }
        loop
            invariant
                0 <= i <= rows0.len(),
                self.streams@ == rows0.skip(i),
                self.main@ == Seq::<u8>::empty(),
                done@.len() == i,
                forall|j: int|
                    0 <= j < i ==> (#[trigger] done@[j]).0 == rows0[j].0 && done@[j].1.buf@
                        == Seq::<u8>::empty() && done@[j].1.probed,
                out@.map_values(|f: QuicDataFormat| f@) == mainpart + spec_stream_frames(
                    rows0.take(i),
                ),
            ensures
                self.main@ == Seq::<u8>::empty(),
                done@.len() == rows0.len(),
                forall|j: int|
                    0 <= j < rows0.len() ==> (#[trigger] done@[j]).0 == rows0[j].0 && done@[j].1.buf@
                        == Seq::<u8>::empty() && done@[j].1.probed,
                out@.map_values(|f: QuicDataFormat| f@) == mainpart + spec_stream_frames(rows0),
            decreases rows0.len() - i,
        {
            if self.streams.len() == 0 {
                proof {
                    assert(rows0.take(i) =~= rows0);
                }
                break;
            }
            proof {
                assert(rows0.skip(i)[0] == rows0[i]);
            }
            let (key, mut e) = self.streams.remove(0);
            let ghost out0 = out@;
            let ghost head: Seq<QuicFrameModel> = spec_entry_frames(rows0[i]);
            if !e.probed {
                e.probed = true;
                out.push(
                    QuicDataFormat {
                        stream: QuicDataFormatStream::Reliable(Sid::new(key)),
                        data: Vec::new(),
                    },
                );
            }
            if e.buf.buffered_len() > 0 {
                let n = e.buf.buffered_len();
                let data = e.buf.drain(n as u64);
                proof {
                    assert(data@ =~= rows0[i].1.buf@);
                    assert(e.buf@ =~= Seq::<u8>::empty());
                }
                out.push(
                    QuicDataFormat { stream: QuicDataFormatStream::Reliable(Sid::new(key)), data },
                );
            } else {
                proof {
                    assert(e.buf@ =~= Seq::<u8>::empty());
                }
            }
            proof {
                assert(out@.map_values(|f: QuicDataFormat| f@) =~= out0.map_values(
                    |f: QuicDataFormat| f@,
                ) + head);
            }
            done.push((key, e));
            proof {
                assert(self.streams@ =~= rows0.skip(i).skip(1));
                assert(self.streams@ =~= rows0.skip(i + 1));
                lemma_stream_frames_take_snoc(rows0, i);
                assert(spec_stream_frames(rows0.take(i + 1)) == spec_stream_frames(rows0.take(i))
                    + head);
                assert(out@.map_values(|f: QuicDataFormat| f@) =~= mainpart + spec_stream_frames(
                    rows0.take(i + 1),
                ));
                i = i + 1;
            }
        }
        proof {
            assert forall|a: int, c: int|
                0 <= a < c < done@.len() implies (#[trigger] done@[a]).0 != (
            #[trigger] done@[c]).0 by {
                assert(done@[a].0 == rows0[a].0);
                assert(done@[c].0 == rows0[c].0);
            }
        }
        self.streams = done;
        out
    }
}

/// One more table entry adds its frames to the flush output.
proof fn lemma_stream_frames_take_snoc(s: Seq<(u64, StreamOut)>, i: int)
    requires
        0 <= i < s.len(),
    ensures
        spec_stream_frames(s.take(i + 1)) == spec_stream_frames(s.take(i)) + spec_entry_frames(
            s[i],
        ),
    decreases i,
{
    if i == 0 {
        assert(s.take(1)[0] == s[0]);
        assert(s.take(1).skip(1) =~= Seq::<(u64, StreamOut)>::empty());
        assert(s.take(0) =~= Seq::<(u64, StreamOut)>::empty());
        assert(spec_stream_frames(s.take(1)) =~= spec_stream_frames(s.take(0))
            + spec_entry_frames(s[0]));
    } else {
        assert(s.take(i + 1)[0] == s[0]);
        assert(s.take(i)[0] == s[0]);
        assert(s.take(i + 1).skip(1) =~= s.skip(1).take(i));
        assert(s.take(i).skip(1) =~= s.skip(1).take(i - 1));
        assert(s.skip(1)[i - 1] == s[i]);
        lemma_stream_frames_take_snoc(s.skip(1), i - 1);
        assert(spec_stream_frames(s.take(i + 1)) =~= spec_stream_frames(s.take(i))
            + spec_entry_frames(s[i]));
    }
}

/// Which buffer of the receiving half holds a ready head.
pub ghost enum ScanModel {
    /// Every buffer is waiting for more bytes.
    Idle,
    /// The main stream's buffer has a ready head.
    MainReady,
    /// The buffer of the stream at this table index has a ready head,
    /// and every stream before it is waiting.
    StreamReady(int),
}

/// The first inbound stream whose buffer holds a complete or malformed
/// head.
pub open spec fn spec_first_ready(s: Seq<(u64, RecvBuf)>) -> Option<int>
    decreases s.len(),
{
    if s.len() == 0 {
        None
    } else if !(spec_parse(s[0].1@) is Incomplete) {
        Some(0)
    } else {
        match spec_first_ready(s.skip(1)) {
            Some(i) => Some(i + 1),
            None => None,
        }
    }
}

/// The receiving half of a QUIC connection's framing: one reassembly
/// buffer per stream, drained through one `recv` call.
pub struct QuicRecvProtocol {
    main: RecvBuf,
    streams: Vec<(u64, RecvBuf)>,
}

impl QuicRecvProtocol {
    /// Bytes waiting on the main stream.
    pub closed spec fn main_bytes(self) -> Seq<u8> {
        self.main@
    }

    /// The inbound stream table.
    pub closed spec fn rows(self) -> Seq<(u64, RecvBuf)> {
        self.streams@
    }

    /// The bytes waiting on one stream id, if it has arrived at all.
    pub open spec fn stream_bytes(self, sid: u64) -> Option<Seq<u8>> {
        match assoc_get(self.rows(), sid) {
            Some(b) => Some(b@),
            None => None,
        }
    }

    /// Stream ids are distinct.
    pub closed spec fn wf(self) -> bool {
        assoc_wf(self.rows())
    }

    /// Which buffer `recv` will look at: the main stream first, then the
    /// streams in arrival order.
    pub open spec fn scan(self) -> ScanModel {
        if !(spec_parse(self.main_bytes()) is Incomplete) {
            ScanModel::MainReady
        } else {
            match spec_first_ready(self.rows()) {
                Some(i) => ScanModel::StreamReady(i),
                None => ScanModel::Idle,
            }
        }
    }

    /// A fresh connection: nothing buffered.
    pub fn new() -> (p: QuicRecvProtocol)
        ensures
            p.wf(),
            p.main_bytes() == Seq::<u8>::empty(),
            p.rows() == Seq::<(u64, RecvBuf)>::empty(),
    {
        QuicRecvProtocol { main: RecvBuf::new(), streams: Vec::new() }
    }

    /// Feeds one tagged buffer from the sink into the right reassembly
    /// buffer; a stream id seen for the first time gets a fresh buffer.
    pub fn feed(&mut self, frame: &QuicDataFormat)
        requires
            old(self).wf(),
            !(frame.stream is Unreliable),
        ensures
            final(self).wf(),
            match frame.stream {
                QuicDataFormatStream::Main => final(self).main_bytes() == old(self).main_bytes()
                    + frame.data@ && final(self).rows() == old(self).rows(),
                QuicDataFormatStream::Unreliable => false,
                QuicDataFormatStream::Reliable(sid) => {
                    let s = sid.spec_get();
                    &&& final(self).main_bytes() == old(self).main_bytes()
                    &&& final(self).stream_bytes(s) matches Some(b) && b == (match old(self).stream_bytes(s) {
                        Some(b0) => b0 + frame.data@,
                        None => frame.data@,
                    })
                    &&& forall|q: u64|
                        q != s ==> final(self).stream_bytes(q) == old(self).stream_bytes(q)
                },
            },
    {
        match &frame.stream {
            QuicDataFormatStream::Main => {
                self.main.feed(frame.data.as_slice());
            },
            QuicDataFormatStream::Unreliable => {
                proof {
                    assert(false);
                }
            },
            QuicDataFormatStream::Reliable(sid) => {
                let s = sid.get_u64();
                let ghost rows0 = self.streams@;
                match assoc_find(&self.streams, s) {
                    Some(i) => {
                        proof {
                            lemma_assoc_get_at(rows0, i as int);
                        }
                        let (key, mut b) = self.streams.remove(i);
                        b.feed(frame.data.as_slice());
                        self.streams.insert(i, (key, b));
                        proof {
                            assert(self.streams@ =~= rows0.update(
                                i as int,
                                (rows0[i as int].0, self.streams@[i as int].1),
                            ));
                            assert forall|q: u64| #[trigger]
                                assoc_get(self.streams@, q) == (if q == s {
                                    assoc_get(self.streams@, s)
                                } else {
                                    assoc_get(rows0, q)
                                }) by {
                                lemma_assoc_update(rows0, i as int, self.streams@[i as int].1, q);
                            }
                            lemma_assoc_update(rows0, i as int, self.streams@[i as int].1, s);
                        }
                    },
                    None => {
                        proof {
                            lemma_assoc_get_none(rows0, s);
                        }
                        let mut b = RecvBuf::new();
                        b.feed(frame.data.as_slice());
                        self.streams.push((s, b));
                        proof {
                            assert forall|q: u64| #[trigger]
                                assoc_get(self.streams@, q) == (if q == s {
                                    assoc_get(self.streams@, s)
                                } else {
                                    assoc_get(rows0, q)
                                }) by {
                                lemma_assoc_push(rows0, s, self.streams@[rows0.len() as int].1, q);
                            }
                            lemma_assoc_push(rows0, s, self.streams@[rows0.len() as int].1, s);
                        }
                    },
                }
            },
        }
    }

    /// Pops the next completed event from whichever stream has one,
    /// looking at the main stream first and then at the streams in
    /// arrival order.  One call serves every stream of the connection; a
    /// malformed head on any stream is a violation.
    pub fn try_recv(&mut self) -> (r: Result<Option<ProtocolEvent>, ProtocolError>)
        requires
            old(self).wf(),
        ensures
            final(self).wf(),
            match old(self).scan() {
                ScanModel::Idle => r == Ok::<Option<ProtocolEvent>, ProtocolError>(None)
                    && final(self).main_bytes() == old(self).main_bytes() && final(self).rows()
                    == old(self).rows(),
                ScanModel::MainReady => {
                    &&& final(self).rows() == old(self).rows()
                    &&& match spec_parse(old(self).main_bytes()) {
                        ParseModel::Frame(e, n) => (r matches Ok(Some(ev)) && ev@ == e) && final(self).main_bytes() == old(self).main_bytes().skip(n),
                        ParseModel::Malformed => r == Err::<
                            Option<ProtocolEvent>,
                            ProtocolError,
                        >(ProtocolError::Violated) && final(self).main_bytes() == old(self).main_bytes(),
                        ParseModel::Incomplete => false,
                    }
                },
                ScanModel::StreamReady(j) => {
                    &&& final(self).main_bytes() == old(self).main_bytes()
                    &&& final(self).rows().len() == old(self).rows().len()
                    &&& forall|q: int|
                        0 <= q < old(self).rows().len() && q != j ==> #[trigger] final(self).rows()[q] == old(self).rows()[q]
                    &&& final(self).rows()[j].0 == old(self).rows()[j].0
                    &&& match spec_parse(old(self).rows()[j].1@) {
                        ParseModel::Frame(e, n) => (r matches Ok(Some(ev)) && ev@ == e) && final(self).rows()[j].1@ == old(self).rows()[j].1@.skip(n),
                        ParseModel::Malformed => r == Err::<
                            Option<ProtocolEvent>,
                            ProtocolError,
                        >(ProtocolError::Violated) && final(self).rows()[j].1@ == old(self).rows()[j].1@,
                        ParseModel::Incomplete => false,
                    }
                },
            },
    {
        match self.main.try_recv() {
            Ok(Some(e)) => {
                return Ok(Some(e));
            },
            Err(err) => {
                return Err(err);
            },
            Ok(None) => {},
        }
        let ghost rows0 = self.streams@;
        let mut i: usize = 0;
        loop
            invariant
                rows0 == old(self).rows(),
                self.streams@ == rows0,
                self.main@ == old(self).main_bytes(),
                spec_parse(old(self).main_bytes()) is Incomplete,
                assoc_wf(rows0),
                0 <= i <= rows0.len(),
                forall|j: int| 0 <= j < i ==> spec_parse((#[trigger] rows0[j]).1@) is Incomplete,
            decreases rows0.len() - i,
        {
            if i == self.streams.len() {
                proof {
                    lemma_first_ready_none(rows0);
                }
                return Ok(None);
            }
            let ready = self.streams[i].1.head_ready();
            if ready {
                proof {
                    lemma_first_ready_at(rows0, i as int);
                }
                let (key, mut b) = self.streams.remove(i);
                let r = b.try_recv();
                self.streams.insert(i, (key, b));
                proof {
                    assert(self.streams@ =~= rows0.update(
                        i as int,
                        (rows0[i as int].0, self.streams@[i as int].1),
                    ));
                    assert forall|q: int|
                        0 <= q < rows0.len() && q != i implies #[trigger] self.streams@[q]
                        == rows0[q] by {}
                    assert(assoc_wf(self.streams@)) by {
                        assert forall|a: int, c: int|
                            0 <= a < c < self.streams@.len() implies (
                        #[trigger] self.streams@[a]).0 != (#[trigger] self.streams@[c]).0 by {
                            assert(self.streams@[a].0 == rows0[a].0);
                            assert(self.streams@[c].0 == rows0[c].0);
                        }
                    }
                }
                return r;
            }
            i = i + 1;
        }
    }
}

/// If every stream's head is incomplete, none is ready.
proof fn lemma_first_ready_none(s: Seq<(u64, RecvBuf)>)
    requires
        forall|j: int| 0 <= j < s.len() ==> spec_parse((#[trigger] s[j]).1@) is Incomplete,
    ensures
        spec_first_ready(s) is None,
    decreases s.len(),
{
    if s.len() > 0 {
        assert forall|j: int|
            0 <= j < s.skip(1).len() implies spec_parse(
            (#[trigger] s.skip(1)[j]).1@,
        ) is Incomplete by {
            assert(s.skip(1)[j] == s[j + 1]);
        }
        lemma_first_ready_none(s.skip(1));
    }
}

/// A ready stream after only waiting ones is the first ready one.
proof fn lemma_first_ready_at(s: Seq<(u64, RecvBuf)>, i: int)
    requires
        0 <= i < s.len(),
        forall|j: int| 0 <= j < i ==> spec_parse((#[trigger] s[j]).1@) is Incomplete,
        !(spec_parse(s[i].1@) is Incomplete),
    ensures
        spec_first_ready(s) == Some(i),
    decreases i,
{
    if i == 0 {
    } else {
        assert forall|j: int|
            0 <= j < i - 1 implies spec_parse((#[trigger] s.skip(1)[j]).1@) is Incomplete by {
            assert(s.skip(1)[j] == s[j + 1]);
        }
        assert(s.skip(1)[i - 1] == s[i]);
        lemma_first_ready_at(s.skip(1), i - 1);
    }
}

} // verus!
