//! The hello exchange spoken before any event.

use netmux::handshake::{
    complete_handshake, encode_init, parse_init, InitParseOutcome, STREAM_ID_OFFSET1,
    STREAM_ID_OFFSET2, WIRE_VERSION,
};
use netmux::types::{InitProtocolError, Pid, Sid};

#[test]
fn hello_round_trips() {
    let frame = encode_init(Pid::new(77_000), 12_345_678_901_234_567_890u128);
    assert_eq!(frame.len(), 37);
    match parse_init(&frame) {
        InitParseOutcome::Hello(pid, secret) => {
            assert_eq!(pid, Pid::new(77_000));
            assert_eq!(secret, 12_345_678_901_234_567_890u128);
        },
        _ => panic!("a well-formed hello must parse"),
    }
}

#[test]
fn hello_needs_all_its_bytes() {
    let frame = encode_init(Pid::new(1), 2);
    let partial = frame[..36].to_vec();
    assert!(matches!(parse_init(&partial), InitParseOutcome::Incomplete));
}

#[test]
fn wrong_magic_is_rejected() {
    let mut frame = encode_init(Pid::new(1), 2);
    frame[0] = frame[0].wrapping_add(1);
    match parse_init(&frame) {
        InitParseOutcome::Rejected(e) => assert_eq!(e, InitProtocolError::WrongMagicNumber),
        _ => panic!("a wrong magic must be rejected"),
    }
}

#[test]
fn wrong_version_is_rejected() {
    let mut frame = encode_init(Pid::new(1), 2);
    frame[4] = WIRE_VERSION + 1;
    match parse_init(&frame) {
        InitParseOutcome::Rejected(e) => assert_eq!(e, InitProtocolError::WrongVersion),
        _ => panic!("a wrong version must be rejected"),
    }
}

#[test]
fn the_two_ends_get_distinct_stream_offsets() {
    let (pid_a, sid_a, secret_a) = complete_handshake(true, Pid::new(9), 5);
    let (pid_b, sid_b, secret_b) = complete_handshake(false, Pid::new(9), 5);
    assert_eq!(pid_a, Pid::new(9));
    assert_eq!(pid_b, Pid::new(9));
    assert_eq!(secret_a, 5);
    assert_eq!(secret_b, 5);
    assert_eq!(sid_a, Sid::new(STREAM_ID_OFFSET1));
    assert_eq!(sid_b, Sid::new(STREAM_ID_OFFSET2));
    assert_ne!(sid_a, sid_b);
}
