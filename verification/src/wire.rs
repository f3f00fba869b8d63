//! Wire format of the byte-stream substrates.
//!
//! Every `ProtocolEvent` is framed as a tag byte followed by fixed-width
//! little-endian fields; a `Message` frame carries its payload length and
//! then the payload.  Byte-stream substrates deliver these frames in
//! arbitrary chunks, so the receiving side reassembles them incrementally.

use vstd::prelude::*;
use vstd::bytes::{
    lemma_auto_spec_u64_to_from_le_bytes, spec_u64_from_le_bytes, spec_u64_to_le_bytes,
    u64_from_le_bytes, u64_to_le_bytes,
};
use vstd::slice::{slice_subrange, slice_to_vec};
use crate::types::{EventModel, ProtocolEvent, Sid};

verus! {

/// Frame tag of an `OpenStream` event.
pub const TAG_OPEN_STREAM: u8 = 0;

/// Frame tag of a `CloseStream` event.
pub const TAG_CLOSE_STREAM: u8 = 1;

/// Frame tag of a `Shutdown` event.
pub const TAG_SHUTDOWN: u8 = 2;

/// Frame tag of a `Message` event.
pub const TAG_MESSAGE: u8 = 3;

/// Largest payload one `Message` frame may carry.  The cap is what lets
/// a receiver tell a corrupt length field from a frame still in flight —
/// a declared length beyond it can never complete honestly and is
/// reported as a violation at once — and it bounds what one frame can
/// make a receiver buffer.  The framing layer above splits larger
/// application messages over several frames.
pub const MAX_PAYLOAD: u64 = 0x0FFF_FFFF;

/// An event that the wire format can carry: its payload, if any, fits in
/// one frame.
pub open spec fn wf_event(e: EventModel) -> bool {
    match e {
        EventModel::Message { sid: _, data } => data.len() <= MAX_PAYLOAD,
        _ => true,
    }
}

/// The exact byte encoding of one event.
pub open spec fn spec_encode(e: EventModel) -> Seq<u8> {
    match e {
        EventModel::OpenStream { sid, prio, promises, guaranteed_bandwidth } => {
            seq![TAG_OPEN_STREAM] + spec_u64_to_le_bytes(sid) + seq![prio] + seq![promises]
                + spec_u64_to_le_bytes(guaranteed_bandwidth)
        },
        EventModel::CloseStream { sid } => seq![TAG_CLOSE_STREAM] + spec_u64_to_le_bytes(sid),
        EventModel::Shutdown => seq![TAG_SHUTDOWN],
        EventModel::Message { sid, data } => {
            seq![TAG_MESSAGE] + spec_u64_to_le_bytes(sid) + spec_u64_to_le_bytes(
                data.len() as u64,
            ) + data
        },
    }
}

/// What the head of a byte buffer holds.
pub ghost enum ParseModel {
    /// No complete frame yet; more bytes are needed.
    Incomplete,
    /// The head can never be a frame: the peer violated the format.
    Malformed,
    /// One complete frame: the event and how many bytes it took.
    Frame(EventModel, int),
}

/// Parses the head of a byte buffer.
pub open spec fn spec_parse(b: Seq<u8>) -> ParseModel {
    if b.len() == 0 {
        ParseModel::Incomplete
    } else if b[0] == TAG_OPEN_STREAM {
        if b.len() < 19 {
            ParseModel::Incomplete
        } else {
            ParseModel::Frame(
                EventModel::OpenStream {
                    sid: spec_u64_from_le_bytes(b.subrange(1, 9)),
                    prio: b[9],
                    promises: b[10],
                    guaranteed_bandwidth: spec_u64_from_le_bytes(b.subrange(11, 19)),
                },
                19,
            )
        }
    } else if b[0] == TAG_CLOSE_STREAM {
        if b.len() < 9 {
            ParseModel::Incomplete
        } else {
            ParseModel::Frame(
                EventModel::CloseStream { sid: spec_u64_from_le_bytes(b.subrange(1, 9)) },
                9,
            )
        }
    } else if b[0] == TAG_SHUTDOWN {
        ParseModel::Frame(EventModel::Shutdown, 1)
    } else if b[0] == TAG_MESSAGE {
        if b.len() < 17 {
            ParseModel::Incomplete
        } else {
            let n = spec_u64_from_le_bytes(b.subrange(9, 17));
            if n > MAX_PAYLOAD {
                ParseModel::Malformed
            } else if b.len() < 17 + n {
                ParseModel::Incomplete
            } else {
                ParseModel::Frame(
                    EventModel::Message {
                        sid: spec_u64_from_le_bytes(b.subrange(1, 9)),
                        data: b.subrange(17, 17 + n as int),
                    },
                    17 + n as int,
                )
            }
        }
    } else {
        ParseModel::Malformed
    }
}

/// A complete frame takes at least one byte and no more than the buffer
/// holds, and a parsed event is one the wire format can carry.
pub proof fn lemma_parse_bounds(b: Seq<u8>)
    ensures
        spec_parse(b) matches ParseModel::Frame(e, n) ==> 1 <= n <= b.len() && wf_event(e),
{
}

/// Parsing after an encoding finds exactly the encoded event and consumes
/// exactly its bytes, whatever follows.
pub proof fn lemma_parse_encode(e: EventModel, rest: Seq<u8>)
    requires
        wf_event(e),
    ensures
        spec_parse(spec_encode(e) + rest) == ParseModel::Frame(e, spec_encode(e).len() as int),
{
    lemma_auto_spec_u64_to_from_le_bytes();
    let b = spec_encode(e) + rest;
    match e {
        EventModel::OpenStream { sid, prio, promises, guaranteed_bandwidth } => {
            assert(b.subrange(1, 9) =~= spec_u64_to_le_bytes(sid));
            assert(b.subrange(11, 19) =~= spec_u64_to_le_bytes(guaranteed_bandwidth));
            assert(b[9] == prio);
            assert(b[10] == promises);
        },
        EventModel::CloseStream { sid } => {
            assert(b.subrange(1, 9) =~= spec_u64_to_le_bytes(sid));
        },
        EventModel::Shutdown => {},
        EventModel::Message { sid, data } => {
            assert(b.subrange(1, 9) =~= spec_u64_to_le_bytes(sid));
            assert(b.subrange(9, 17) =~= spec_u64_to_le_bytes(data.len() as u64));
            assert(b.subrange(17, 17 + data.len() as int) =~= data);
        },
    }
}

/// Appends the encoding of `e` to `out`.
pub fn encode_event(e: &ProtocolEvent, out: &mut Vec<u8>)
    requires
        wf_event(e@),
    ensures
        final(out)@ == old(out)@ + spec_encode(e@),
{
    match e {
        ProtocolEvent::OpenStream { sid, prio, promises, guaranteed_bandwidth } => {
            out.push(TAG_OPEN_STREAM);
            let mut w = u64_to_le_bytes(sid.get_u64());
            out.append(&mut w);
            out.push(*prio);
            out.push(*promises);
            let mut w = u64_to_le_bytes(*guaranteed_bandwidth);
            out.append(&mut w);
            assert(out@ =~= old(out)@ + spec_encode(e@));
        },
        ProtocolEvent::CloseStream { sid } => {
            out.push(TAG_CLOSE_STREAM);
            let mut w = u64_to_le_bytes(sid.get_u64());
            out.append(&mut w);
            assert(out@ =~= old(out)@ + spec_encode(e@));
        },
        ProtocolEvent::Shutdown => {
            out.push(TAG_SHUTDOWN);
            assert(out@ =~= old(out)@ + spec_encode(e@));
        },
        ProtocolEvent::Message { sid, data } => {
            out.push(TAG_MESSAGE);
            let mut w = u64_to_le_bytes(sid.get_u64());
            out.append(&mut w);
            let mut w = u64_to_le_bytes(data.len() as u64);
            out.append(&mut w);
            out.extend_from_slice(data.as_slice());
            assert(out@ =~= old(out)@ + spec_encode(e@));
        },
    }
}

/// How many bytes the encoding of `e` takes.
pub fn event_wire_len(e: &ProtocolEvent) -> (n: u64)
    requires
        wf_event(e@),
    ensures
        n == spec_encode(e@).len(),
{
    proof {
        lemma_auto_spec_u64_to_from_le_bytes();
    }
    match e {
        ProtocolEvent::OpenStream { .. } => 19,
        ProtocolEvent::CloseStream { .. } => 9,
        ProtocolEvent::Shutdown => 1,
        ProtocolEvent::Message { sid: _, data } => 17 + data.len() as u64,
    }
}

/// Executable mirror of `ParseModel`.
pub enum ParseOutcome {
    Incomplete,
    Malformed,
    Frame(ProtocolEvent, usize),
}

/// Parses the head of `buf` without consuming it.
pub fn try_parse(buf: &Vec<u8>) -> (r: ParseOutcome)
    ensures
        match r {
            ParseOutcome::Incomplete => spec_parse(buf@) is Incomplete,
            ParseOutcome::Malformed => spec_parse(buf@) is Malformed,
            ParseOutcome::Frame(e, n) => spec_parse(buf@) == ParseModel::Frame(e@, n as int)
                && wf_event(e@),
        },
{
    if buf.len() == 0 {
        return ParseOutcome::Incomplete;
    }
    let tag = buf[0];
    if tag == TAG_OPEN_STREAM {
        if buf.len() < 19 {
            ParseOutcome::Incomplete
        } else {
            let sid = u64_from_le_bytes(slice_subrange(buf.as_slice(), 1, 9));
            let prio = buf[9];
            let promises = buf[10];
            let guaranteed_bandwidth = u64_from_le_bytes(slice_subrange(buf.as_slice(), 11, 19));
            ParseOutcome::Frame(
                ProtocolEvent::OpenStream {
                    sid: Sid::new(sid),
                    prio,
                    promises,
                    guaranteed_bandwidth,
                },
                19,
            )
        }
    } else if tag == TAG_CLOSE_STREAM {
        if buf.len() < 9 {
            ParseOutcome::Incomplete
        } else {
            let sid = u64_from_le_bytes(slice_subrange(buf.as_slice(), 1, 9));
            ParseOutcome::Frame(ProtocolEvent::CloseStream { sid: Sid::new(sid) }, 9)
        }
    } else if tag == TAG_SHUTDOWN {
        ParseOutcome::Frame(ProtocolEvent::Shutdown, 1)
    } else if tag == TAG_MESSAGE {
        if buf.len() < 17 {
            ParseOutcome::Incomplete
        } else {
            let sid = u64_from_le_bytes(slice_subrange(buf.as_slice(), 1, 9));
            let n = u64_from_le_bytes(slice_subrange(buf.as_slice(), 9, 17));
            if n > MAX_PAYLOAD {
                ParseOutcome::Malformed
            } else if (buf.len() as u64) < 17 + n {
                ParseOutcome::Incomplete
            } else {
                let end = 17 + (n as usize);
                let data = slice_to_vec(slice_subrange(buf.as_slice(), 17, end));
                ParseOutcome::Frame(ProtocolEvent::Message { sid: Sid::new(sid), data }, end)
            }
        }
    } else {
        ParseOutcome::Malformed
    }
}

} // verus!
