//! The QUIC multiplexer: stream-open arbitration, the stream table, and
//! the per-stream framing.

use netmux::facade::{FlushOut, Protocols, RecvProtocols, SendProtocols};
use netmux::quic::{
    classify_stream_header, sink_chunk, QuicDrainState, QuicSendAction, StreamRead,
};
use netmux::types::{
    ProtocolError, ProtocolEvent, QuicDataFormat, QuicDataFormatStream, Sid, SID_MAIN_MARKER,
    GUARANTEED_DELIVERY,
};

fn reliable(sid: u64, data: Vec<u8>) -> QuicDataFormat {
    QuicDataFormat { stream: QuicDataFormatStream::Reliable(Sid::new(sid)), data }
}

#[test]
fn quic_drain_opens_only_on_an_empty_probe() {
    let mut d = QuicDrainState::new();
    // Main traffic never touches the table.
    let main = QuicDataFormat { stream: QuicDataFormatStream::Main, data: vec![1, 2] };
    assert!(matches!(d.route(&main), QuicSendAction::WriteMain));
    // An empty probe entitles this side to open the physical stream.
    let h1 = match d.route(&reliable(10, vec![])) {
        QuicSendAction::OpenAndWrite(h) => h,
        a => panic!("probe should open a stream, got {:?}", a),
    };
    // The stream is now bound: payload goes to it directly.
    match d.route(&reliable(10, vec![5, 5])) {
        QuicSendAction::WriteStream(h) => assert_eq!(h, h1),
        a => panic!("bound stream expected, got {:?}", a),
    }
    // Payload for an unbound stream must not race the peer: it waits.
    assert!(matches!(d.route(&reliable(11, vec![7])), QuicSendAction::Blocked));
    // Once the peer offers a stream, the waiting sender adopts it.
    let offered = d.notify_offered();
    let h2 = match d.route(&reliable(11, vec![7])) {
        QuicSendAction::WriteStream(h) => h,
        a => panic!("adoption expected, got {:?}", a),
    };
    assert_eq!(h2, offered);
    // Two logical streams never share a physical stream.
    assert_ne!(h1, h2);
}

#[test]
fn quic_header_classification_follows_the_sentinel() {
    assert_eq!(classify_stream_header(false, 0).unwrap_err(), ProtocolError::Violated);
    assert_eq!(classify_stream_header(true, SID_MAIN_MARKER).unwrap(), None);
    assert_eq!(classify_stream_header(true, 5).unwrap(), Some(Sid::new(5)));
}

#[test]
fn quic_sink_chunk_scopes_closure_to_one_read() {
    let buf = vec![9u8, 8, 7, 0, 0];
    let f = sink_chunk(StreamRead::Data(3), Some(Sid::new(4)), buf).unwrap();
    assert_eq!(f.stream, QuicDataFormatStream::Reliable(Sid::new(4)));
    assert_eq!(f.data, vec![9u8, 8, 7]);
    assert_eq!(
        sink_chunk(StreamRead::Data(0), None, vec![0u8; 4]).unwrap_err(),
        ProtocolError::Closed,
    );
    assert_eq!(
        sink_chunk(StreamRead::Finished, None, Vec::new()).unwrap_err(),
        ProtocolError::Closed,
    );
    assert_eq!(
        sink_chunk(StreamRead::Error, Some(Sid::new(1)), Vec::new()).unwrap_err(),
        ProtocolError::Closed,
    );
}

#[test]
fn quic_two_sids_do_not_cross_deliver() {
    let (mut s, _) = Protocols::new_quic().split();
    let (_, mut r) = Protocols::new_quic().split();
    s.send(ProtocolEvent::OpenStream {
        sid: Sid::new(1),
        prio: 4u8,
        promises: GUARANTEED_DELIVERY,
        guaranteed_bandwidth: 1_000,
    })
    .unwrap();
    s.send(ProtocolEvent::Message { sid: Sid::new(1), data: vec![1u8; 4] }).unwrap();
    s.send(ProtocolEvent::OpenStream {
        sid: Sid::new(2),
        prio: 4u8,
        promises: GUARANTEED_DELIVERY,
        guaranteed_bandwidth: 1_000,
    })
    .unwrap();
    s.send(ProtocolEvent::Message { sid: Sid::new(2), data: vec![2u8; 4] }).unwrap();
    let frames = match s.flush(1_000_000).unwrap() {
        (_, FlushOut::Quic(frames)) => frames,
        _ => panic!("the QUIC backend emits tagged buffers"),
    };
    // One buffer for the main stream, and for each fresh stream an empty
    // probe and its payload.
    assert_eq!(frames.len(), 5);
    let mut drain = QuicDrainState::new();
    for f in frames.iter() {
        // The drain must never block here: every stream was announced by
        // its own probe before its payload.
        assert!(!matches!(drain.route(f), QuicSendAction::Blocked));
    }
    for f in frames.iter() {
        r.feed_frame(f);
    }
    let mut opens = Vec::new();
    let mut msgs = Vec::new();
    loop {
        match r.recv().unwrap() {
            Some(ProtocolEvent::OpenStream { sid, .. }) => opens.push(sid),
            Some(ProtocolEvent::Message { sid, data }) => msgs.push((sid, data)),
            Some(e) => panic!("unexpected event {:?}", e),
            None => break,
        }
    }
    assert_eq!(opens, vec![Sid::new(1), Sid::new(2)]);
    assert_eq!(msgs.len(), 2);
    // Each payload stays with its own stream id.
    for (sid, data) in msgs {
        if sid == Sid::new(1) {
            assert_eq!(data, vec![1u8; 4]);
        } else {
            assert_eq!(sid, Sid::new(2));
            assert_eq!(data, vec![2u8; 4]);
        }
    }
}

#[test]
fn quic_malformed_stream_data_is_a_violation() {
    let (_, mut r) = Protocols::new_quic().split();
    r.feed_frame(&reliable(3, vec![200u8, 0, 0]));
    assert_eq!(r.recv().unwrap_err(), ProtocolError::Violated);
}

#[test]
fn quic_reply_uses_the_peers_stream() {
    // The receive half learns of a peer-opened stream and notifies the
    // send half, which then queues replies on that same logical stream.
    let (mut s, _) = Protocols::new_quic().split();
    let open = ProtocolEvent::OpenStream {
        sid: Sid::new(6),
        prio: 1u8,
        promises: 0u8,
        guaranteed_bandwidth: 0,
    };
    s.notify_from_recv(&open);
    s.send(ProtocolEvent::Message { sid: Sid::new(6), data: vec![42u8] }).unwrap();
    let frames = match s.flush(1_000_000).unwrap() {
        (_, FlushOut::Quic(frames)) => frames,
        _ => panic!("the QUIC backend emits tagged buffers"),
    };
    // No main traffic: only the probe and the reply on stream 6.
    assert_eq!(frames.len(), 2);
    assert_eq!(frames[0].stream, QuicDataFormatStream::Reliable(Sid::new(6)));
    assert!(frames[0].data.is_empty());
    assert_eq!(frames[1].stream, QuicDataFormatStream::Reliable(Sid::new(6)));
}
