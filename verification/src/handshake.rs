//! The handshake spoken once on a fresh connection, before any event.
//!
//! Each end sends one hello frame carrying magic bytes, the wire version,
//! its participant id and a session secret, and reads the peer's.  A
//! wrong magic or version fails the handshake; the initializing end is
//! assigned the first stream id offset and its peer the second, so the
//! two ends never mint the same stream id.

use vstd::prelude::*;
use vstd::bytes::{
    lemma_auto_spec_u128_to_from_le_bytes, spec_u128_from_le_bytes, spec_u128_to_le_bytes,
    u128_from_le_bytes, u128_to_le_bytes,
};
use vstd::slice::slice_subrange;
use crate::types::{InitProtocolError, Pid, Sid};

verus! {

/// The version of this wire format.
pub const WIRE_VERSION: u8 = 1;

/// Stream id offset of the end that called with `initializer` set.
pub const STREAM_ID_OFFSET1: u64 = 1;

/// Stream id offset of the answering end.
pub const STREAM_ID_OFFSET2: u64 = 2;

/// The four magic bytes opening every hello frame.
pub open spec fn spec_magic() -> Seq<u8> {
    seq![77u8, 85u8, 88u8, 0u8]
}

/// The exact bytes of a hello frame.
pub open spec fn spec_encode_init(pid: u128, secret: u128) -> Seq<u8> {
    spec_magic() + seq![WIRE_VERSION] + spec_u128_to_le_bytes(pid) + spec_u128_to_le_bytes(secret)
}

/// Builds the hello frame of the local end.
pub fn encode_init(local_pid: Pid, secret: u128) -> (out: Vec<u8>)
    ensures
        out@ == spec_encode_init(local_pid.spec_get(), secret),
{
    let mut out: Vec<u8> = Vec::new();
    out.push(77);
    out.push(85);
    out.push(88);
    out.push(0);
    out.push(WIRE_VERSION);
    let mut w = u128_to_le_bytes(local_pid.get_u128());
    out.append(&mut w);
    let mut w = u128_to_le_bytes(secret);
    out.append(&mut w);
    proof {
        assert(out@ =~= spec_encode_init(local_pid.spec_get(), secret));
    }
    out
}

/// What the head of a buffer holds during the handshake.
pub ghost enum InitParseModel {
    /// The whole 37-byte hello has not arrived yet.
    Incomplete,
    /// The first bytes are not the magic bytes.
    BadMagic,
    /// The peer speaks another version.
    BadVersion,
    /// The peer's hello: its participant id and session secret.
    Hello(u128, u128),
}

/// Parses the head of a buffer as a hello frame.
pub open spec fn spec_parse_init(b: Seq<u8>) -> InitParseModel {
    if b.len() < 37 {
        InitParseModel::Incomplete
    } else if b.subrange(0, 4) != spec_magic() {
        InitParseModel::BadMagic
    } else if b[4] != WIRE_VERSION {
        InitParseModel::BadVersion
    } else {
        InitParseModel::Hello(
            spec_u128_from_le_bytes(b.subrange(5, 21)),
            spec_u128_from_le_bytes(b.subrange(21, 37)),
        )
    }
}

/// A hello frame parses back to what was encoded, whatever follows it.
pub proof fn lemma_init_round_trip(pid: u128, secret: u128, rest: Seq<u8>)
    ensures
        spec_parse_init(spec_encode_init(pid, secret) + rest) == InitParseModel::Hello(
            pid,
            secret,
        ),
{
    lemma_auto_spec_u128_to_from_le_bytes();
    let b = spec_encode_init(pid, secret) + rest;
    assert(b.subrange(0, 4) =~= spec_magic());
    assert(b[4] == WIRE_VERSION);
    assert(b.subrange(5, 21) =~= spec_u128_to_le_bytes(pid));
    assert(b.subrange(21, 37) =~= spec_u128_to_le_bytes(secret));
}

/// Executable mirror of `InitParseModel`.
pub enum InitParseOutcome {
    Incomplete,
    Rejected(InitProtocolError),
    Hello(Pid, u128),
}

/// Parses the peer's hello from the head of `buf`.  A wrong magic or
/// version is the matching handshake error; the hello takes 37 bytes.
pub fn parse_init(buf: &Vec<u8>) -> (r: InitParseOutcome)
    ensures
        match r {
            InitParseOutcome::Incomplete => spec_parse_init(buf@) is Incomplete,
            InitParseOutcome::Rejected(e) => (spec_parse_init(buf@) is BadMagic && e
                == InitProtocolError::WrongMagicNumber) || (spec_parse_init(buf@) is BadVersion
                && e == InitProtocolError::WrongVersion),
            InitParseOutcome::Hello(pid, secret) => spec_parse_init(buf@)
                == InitParseModel::Hello(pid.spec_get(), secret),
        },
{
    if buf.len() < 37 {
        return InitParseOutcome::Incomplete;
    }
    if !(buf[0] == 77 && buf[1] == 85 && buf[2] == 88 && buf[3] == 0) {
        proof {
            assert(buf@.subrange(0, 4) != spec_magic());
        }
        return InitParseOutcome::Rejected(InitProtocolError::WrongMagicNumber);
    }
    proof {
        assert(buf@.subrange(0, 4) =~= spec_magic());
    }
    if buf[4] != WIRE_VERSION {
        return InitParseOutcome::Rejected(InitProtocolError::WrongVersion);
    }
    let pid = u128_from_le_bytes(slice_subrange(buf.as_slice(), 5, 21));
    let secret = u128_from_le_bytes(slice_subrange(buf.as_slice(), 21, 37));
    InitParseOutcome::Hello(Pid::new(pid), secret)
}

/// Settles the handshake once the peer's hello is in hand: the peer's
/// id and secret are adopted, and the initializing end takes the first
/// stream id offset while the answering end takes the second.
pub fn complete_handshake(initializer: bool, remote_pid: Pid, remote_secret: u128) -> (r: (
    Pid,
    Sid,
    u128,
))
    ensures
        r.0 == remote_pid,
        r.1.spec_get() == (if initializer {
            STREAM_ID_OFFSET1
        } else {
            STREAM_ID_OFFSET2
        }),
        r.2 == remote_secret,
{
    let sid = if initializer {
        Sid::new(STREAM_ID_OFFSET1)
    } else {
        Sid::new(STREAM_ID_OFFSET2)
    };
    (remote_pid, sid, remote_secret)
}

} // verus!
