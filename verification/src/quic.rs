//! The QUIC stream multiplexer.
//!
//! One physical QUIC connection carries a designated main bidirectional
//! stream plus one dedicated reliable stream per logical stream id.  The
//! state here decides, for each outbound buffer, who may open a physical
//! stream: a side with an empty payload probe opens one itself and writes
//! the stream id as an 8-byte header; a side that already holds payload
//! must adopt a stream offered by the peer instead of racing it.  The
//! stream table never binds two stream ids to one physical stream.

use vstd::prelude::*;
use crate::types::{ProtocolError, QuicDataFormat, QuicDataFormatStream, Sid, SID_MAIN_MARKER};

verus! {

/// The per-connection table from logical stream id to the handle of its
/// physical send stream.
pub struct QuicStreamTable {
    entries: Vec<(u64, u64)>,
}

/// The handle bound to `sid`, if any: the first (and only) entry wins.
pub open spec fn spec_handle_of(s: Seq<(u64, u64)>, sid: u64) -> Option<u64>
    decreases s.len(),
{
    if s.len() == 0 {
        None
    } else if s[0].0 == sid {
        Some(s[0].1)
    } else {
        spec_handle_of(s.skip(1), sid)
    }
}

/// A bound handle belongs to some table entry.
proof fn lemma_handle_of_is_entry(s: Seq<(u64, u64)>, sid: u64)
    ensures
        spec_handle_of(s, sid) matches Some(h) ==> exists|i: int|
            0 <= i < s.len() && s[i] == (sid, h),
    decreases s.len(),
{
    if s.len() > 0 && s[0].0 != sid {
        lemma_handle_of_is_entry(s.skip(1), sid);
        if spec_handle_of(s, sid) is Some {
            let h = spec_handle_of(s, sid)->Some_0;
            let i = choose|i: int| 0 <= i < s.skip(1).len() && s.skip(1)[i] == (sid, h);
            assert(s[i + 1] == (sid, h));
        }
    }
}

impl QuicStreamTable {
    /// The table's entries: stream id and stream handle pairs.
    pub closed spec fn rows(self) -> Seq<(u64, u64)> {
        self.entries@
    }

    /// The handle bound to `sid`, if any.
    pub open spec fn handle_of(self, sid: u64) -> Option<u64> {
        spec_handle_of(self.rows(), sid)
    }

    /// No stream id and no handle appears twice.
    pub open spec fn wf(self) -> bool {
        forall|i: int, j: int|
            0 <= i < j < self.rows().len() ==> (#[trigger] self.rows()[i]).0 != (
            #[trigger] self.rows()[j]).0 && self.rows()[i].1 != self.rows()[j].1
    }

    /// An empty table.
    pub fn new() -> (t: QuicStreamTable)
        ensures
            t.wf(),
            t.rows() == Seq::<(u64, u64)>::empty(),
    {
        QuicStreamTable { entries: Vec::new() }
    }

    /// Looks the stream id up.
    pub fn lookup(&self, sid: u64) -> (r: Option<u64>)
        ensures
            r == self.handle_of(sid),
    {
        let mut i: usize = 0;
        proof {
            assert(self.entries@.skip(0) =~= self.entries@);
        }
        loop
            invariant
                0 <= i <= self.entries@.len(),
                spec_handle_of(self.entries@, sid) == spec_handle_of(self.entries@.skip(i as int), sid),
            decreases self.entries@.len() - i,
        {
            if i == self.entries.len() {
                proof {
                    assert(self.entries@.skip(i as int).len() == 0);
                }
                return None;
            }
            let (s, h) = self.entries[i];
            proof {
                assert(self.entries@.skip(i as int)[0] == self.entries@[i as int]);
                assert(self.entries@.skip(i as int).skip(1) =~= self.entries@.skip(i as int + 1));
            }
            if s == sid {
                return Some(h);
            }
            i = i + 1;
        }
    }

    /// Binds a fresh stream id to a fresh handle.
    pub fn register(&mut self, sid: u64, handle: u64)
        requires
            old(self).wf(),
            old(self).handle_of(sid) is None,
            forall|i: int| 0 <= i < old(self).rows().len() ==> (#[trigger] old(self).rows()[i]).1
                != handle,
        ensures
            final(self).wf(),
            final(self).rows() == old(self).rows().push((sid, handle)),
            final(self).handle_of(sid) == Some(handle),
            forall|s: u64| s != sid ==> final(self).handle_of(s) == old(self).handle_of(s),
    {
        proof {
            lemma_handle_none_no_entry(self.entries@, sid);
        }
        let ghost rows0 = self.entries@;
        self.entries.push((sid, handle));
        proof {
            assert forall|s: u64| #[trigger]
                spec_handle_of(rows0.push((sid, handle)), s) == (if s == sid {
                    Some(handle)
                } else {
                    spec_handle_of(rows0, s)
                }) by {
                lemma_handle_of_push(rows0, sid, handle, s);
            }
        }
    }
}

/// A table with no entry for `sid` has no row carrying it.
proof fn lemma_handle_none_no_entry(s: Seq<(u64, u64)>, sid: u64)
    ensures
        spec_handle_of(s, sid) is None ==> forall|i: int|
            0 <= i < s.len() ==> (#[trigger] s[i]).0 != sid,
    decreases s.len(),
{
    if s.len() > 0 {
        lemma_handle_none_no_entry(s.skip(1), sid);
        if spec_handle_of(s, sid) is None {
            assert forall|i: int| 0 <= i < s.len() implies (#[trigger] s[i]).0 != sid by {
                if i > 0 {
                    assert(s.skip(1)[i - 1] == s[i]);
                }
            }
        }
    }
}

/// Pushing a row changes only its own stream id's binding, when that id
/// was free.
proof fn lemma_handle_of_push(s: Seq<(u64, u64)>, sid: u64, handle: u64, q: u64)
    requires
        spec_handle_of(s, sid) is None,
    ensures
        spec_handle_of(s.push((sid, handle)), q) == (if q == sid {
            Some(handle)
        } else {
            spec_handle_of(s, q)
        }),
    decreases s.len(),
{
    if s.len() == 0 {
        assert(s.push((sid, handle))[0] == (sid, handle));
        if q != sid {
            assert(s.push((sid, handle)).skip(1) =~= Seq::<(u64, u64)>::empty());
            assert(spec_handle_of(s.push((sid, handle)), q) is None);
        }
    } else {
        assert(s.push((sid, handle))[0] == s[0]);
        assert(s[0].0 != sid);
        assert(s.push((sid, handle)).skip(1) =~= s.skip(1).push((sid, handle)));
        lemma_handle_of_push(s.skip(1), sid, handle, q);
        if s[0].0 == q {
            assert(spec_handle_of(s.push((sid, handle)), q) == Some(s[0].1));
            assert(spec_handle_of(s, q) == Some(s[0].1));
        }
    }
}

/// Two distinct stream ids opened on one connection are never bound to
/// the same physical stream: the table keeps them apart.
pub proof fn lemma_distinct_sids_distinct_streams(t: QuicStreamTable, s1: u64, s2: u64)
    requires
        t.wf(),
        s1 != s2,
        t.handle_of(s1) is Some,
        t.handle_of(s2) is Some,
    ensures
        t.handle_of(s1) != t.handle_of(s2),
{
    lemma_handle_of_is_entry(t.rows(), s1);
    lemma_handle_of_is_entry(t.rows(), s2);
    let h1 = t.handle_of(s1)->Some_0;
    let h2 = t.handle_of(s2)->Some_0;
    let i = choose|i: int| 0 <= i < t.rows().len() && t.rows()[i] == (s1, h1);
    let j = choose|j: int| 0 <= j < t.rows().len() && t.rows()[j] == (s2, h2);
    assert(i != j);
    assert(t.rows()[i].1 != t.rows()[j].1);
}

/// What the drain must do with one outbound buffer.
#[derive(Debug, Clone, Copy, PartialEq, Eq, Structural)]
pub enum QuicSendAction {
    /// Write the bytes to the main stream.
    WriteMain,
    /// Write the bytes to the already-bound physical stream `handle`.
    WriteStream(u64),
    /// Open a new physical stream, register it as `handle`, write the
    /// stream id header first and then the bytes.
    OpenAndWrite(u64),
    /// Payload is already queued, so opening would race the peer: wait
    /// until the peer offers a stream, then route again.
    Blocked,
}

/// Decision state of one connection's outbound side: the stream table,
/// the queue of peer-offered streams not yet bound, and the source of
/// fresh handles.
pub struct QuicDrainState {
    table: QuicStreamTable,
    offered: Vec<u64>,
    next_handle: u64,
}

impl QuicDrainState {
    pub closed spec fn table(self) -> QuicStreamTable {
        self.table
    }

    /// Handles of peer-offered physical streams awaiting adoption, oldest
    /// first.
    pub closed spec fn offered(self) -> Seq<u64> {
        self.offered@
    }

    pub closed spec fn spec_next_handle(self) -> u64 {
        self.next_handle
    }

    /// Every handle the state has issued is below `next_handle`, and no
    /// handle is bound or offered twice.
    pub closed spec fn wf(self) -> bool {
        &&& self.table.wf()
        &&& forall|i: int|
            0 <= i < self.table.rows().len() ==> (#[trigger] self.table.rows()[i]).1
                < self.next_handle
        &&& forall|i: int| 0 <= i < self.offered@.len() ==> #[trigger] self.offered@[i]
            < self.next_handle
        &&& forall|i: int, j: int|
            0 <= i < j < self.offered@.len() ==> #[trigger] self.offered@[i]
                != #[trigger] self.offered@[j]
        &&& forall|i: int, j: int|
            0 <= i < self.table.rows().len() && 0 <= j < self.offered@.len() ==> (
            #[trigger] self.table.rows()[i]).1 != #[trigger] self.offered@[j]
    }

    /// A fresh connection: no reliable stream is bound or offered yet.
    pub fn new() -> (d: QuicDrainState)
        ensures
            d.wf(),
            d.table().rows() == Seq::<(u64, u64)>::empty(),
            d.offered() == Seq::<u64>::empty(),
            d.spec_next_handle() == 0,
    {
        QuicDrainState { table: QuicStreamTable::new(), offered: Vec::new(), next_handle: 0 }
    }

    /// Whether fresh handles remain; when the largest handle is reached,
    /// the state is exhausted.
    pub fn handles_left(&self) -> (r: bool)
        ensures
            r == (self.spec_next_handle() < u64::MAX),
    {
        self.next_handle < u64::MAX
    }

    /// Records one physical stream the peer opened: the library names it
    /// with a fresh handle, to be adopted by the first sender that needs
    /// a stream.
    pub fn notify_offered(&mut self) -> (h: u64)
        requires
            old(self).wf(),
            old(self).spec_next_handle() < u64::MAX,
        ensures
            final(self).wf(),
            h == old(self).spec_next_handle(),
            final(self).spec_next_handle() == old(self).spec_next_handle() + 1,
            final(self).offered() == old(self).offered().push(h),
            final(self).table() == old(self).table(),
    {
        let h = self.next_handle;
        self.next_handle = self.next_handle + 1;
        self.offered.push(h);
        h
    }

    /// Decides where one outbound buffer goes, and updates the table when
    /// a stream is opened or adopted.  This resolves who may open a
    /// physical stream: an empty payload probe opens one directly, a
    /// non-empty payload must adopt a peer-offered stream.
    pub fn route(&mut self, frame: &QuicDataFormat) -> (r: QuicSendAction)
        requires
            old(self).wf(),
            !(frame.stream is Unreliable),
            frame.stream matches QuicDataFormatStream::Reliable(sid) ==> sid.spec_get()
                != SID_MAIN_MARKER,
            old(self).spec_next_handle() < u64::MAX,
        ensures
            final(self).wf(),
            match frame.stream {
                QuicDataFormatStream::Main => r == QuicSendAction::WriteMain && *final(self)
                    == *old(self),
                QuicDataFormatStream::Unreliable => false,
                QuicDataFormatStream::Reliable(sid) => {
                    let s = sid.spec_get();
                    match old(self).table().handle_of(s) {
                        Some(h) => r == QuicSendAction::WriteStream(h) && *final(self) == *old(
                            self,
                        ),
                        None => {
                            if frame.data@.len() == 0 {
                                // We opened the stream ourselves.
                                &&& r == QuicSendAction::OpenAndWrite(old(self).spec_next_handle())
                                &&& final(self).table().handle_of(s) == Some(
                                    old(self).spec_next_handle(),
                                )
                                &&& final(self).spec_next_handle() == old(self).spec_next_handle()
                                    + 1
                                &&& final(self).offered() == old(self).offered()
                            } else if old(self).offered().len() == 0 {
                                r == QuicSendAction::Blocked && *final(self) == *old(self)
                            } else {
                                // We adopted the oldest peer-offered stream.
                                &&& r == QuicSendAction::WriteStream(old(self).offered()[0])
                                &&& final(self).table().handle_of(s) == Some(
                                    old(self).offered()[0],
                                )
                                &&& final(self).spec_next_handle() == old(self).spec_next_handle()
                                &&& final(self).offered() == old(self).offered().skip(1)
                            }
                        },
                    }
                },
            },
            // Every other stream id's binding — present or absent — is
            // untouched.
            forall|s: u64|
                (match frame.stream {
                    QuicDataFormatStream::Reliable(sid) => s != sid.spec_get(),
                    _ => true,
                }) ==> #[trigger] final(self).table().handle_of(s) == old(self).table().handle_of(
                    s,
                ),
    {
        match &frame.stream {
            QuicDataFormatStream::Main => QuicSendAction::WriteMain,
            QuicDataFormatStream::Unreliable => {
                proof {
                    assert(false);
                }
                QuicSendAction::Blocked
            },
            QuicDataFormatStream::Reliable(sid) => {
                let s = sid.get_u64();
                match self.table.lookup(s) {
                    Some(h) => QuicSendAction::WriteStream(h),
                    None => {
                        if frame.data.len() == 0 {
                            let h = self.next_handle;
                            self.next_handle = self.next_handle + 1;
                            self.table.register(s, h);
                            QuicSendAction::OpenAndWrite(h)
                        } else if self.offered.len() == 0 {
                            QuicSendAction::Blocked
                        } else {
                            let h = self.offered.remove(0);
                            self.table.register(s, h);
                            QuicSendAction::WriteStream(h)
                        }
                    },
                }
            },
        }
    }
}

/// Interprets the first read of a newly accepted physical stream: an
/// 8-byte header names the logical stream, the all-ones marker names the
/// main/unreliable stream, and a failed read is a protocol violation.
pub fn classify_stream_header(read_ok: bool, value: u64) -> (r: Result<Option<Sid>, ProtocolError>)
    ensures
        !read_ok ==> r == Err::<Option<Sid>, ProtocolError>(ProtocolError::Violated),
        read_ok && value == SID_MAIN_MARKER ==> r == Ok::<Option<Sid>, ProtocolError>(None),
        read_ok && value != SID_MAIN_MARKER ==> r == Ok::<Option<Sid>, ProtocolError>(
            Some(Sid::new(value)),
        ),
{
    if !read_ok {
        Err(ProtocolError::Violated)
    } else if value == SID_MAIN_MARKER {
        Ok(None)
    } else {
        Ok(Some(Sid::new(value)))
    }
}

/// What one read on a physical stream produced.
pub enum StreamRead {
    /// `n` bytes arrived at the front of the buffer.
    Data(usize),
    /// The stream finished.
    Finished,
    /// The stream failed.
    Error,
}

/// Turns one physical-stream read into a tagged buffer for the
/// multiplexer, or reports the end of that stream.  A zero-length read, a
/// finished stream and a failed stream all collapse to `Closed`, scoped
/// to this read.
pub fn sink_chunk(read: StreamRead, sid: Option<Sid>, buffer: Vec<u8>) -> (r: Result<
    QuicDataFormat,
    ProtocolError,
>)
    requires
        read matches StreamRead::Data(n) ==> n <= buffer@.len(),
    ensures
        match read {
            StreamRead::Data(n) => {
                if n == 0 {
                    r == Err::<QuicDataFormat, ProtocolError>(ProtocolError::Closed)
                } else {
                    r matches Ok(f) && f.data@ == buffer@.take(n as int) && f.stream == (match sid {
                        Some(s) => QuicDataFormatStream::Reliable(s),
                        None => QuicDataFormatStream::Main,
                    })
                }
            },
            _ => r == Err::<QuicDataFormat, ProtocolError>(ProtocolError::Closed),
        },
{
    match read {
        StreamRead::Data(n) => {
            if n == 0 {
                Err(ProtocolError::Closed)
            } else {
                let data = vstd::slice::slice_to_vec(
                    vstd::slice::slice_subrange(buffer.as_slice(), 0, n),
                );
                let stream = match sid {
                    Some(s) => QuicDataFormatStream::Reliable(s),
                    None => QuicDataFormatStream::Main,
                };
                Ok(QuicDataFormat { stream, data })
            }
        },
        StreamRead::Finished => Err(ProtocolError::Closed),
        StreamRead::Error => Err(ProtocolError::Closed),
    }
}

} // verus!
