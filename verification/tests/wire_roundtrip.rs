//! The byte framing over an ordered byte stream, as TCP delivers it.

use netmux::tcp::{tcp_recv_classify, TcpRecvProtocol, TcpSendProtocol};
use netmux::types::{ProtocolError, ProtocolEvent, Sid, GUARANTEED_DELIVERY};

fn open_stream() -> ProtocolEvent {
    ProtocolEvent::OpenStream {
        sid: Sid::new(1),
        prio: 4u8,
        promises: GUARANTEED_DELIVERY,
        guaranteed_bandwidth: 1_000,
    }
}

fn message(payload: Vec<u8>) -> ProtocolEvent {
    ProtocolEvent::Message { sid: Sid::new(1), data: payload }
}

#[test]
fn tcp_framing_replays_events_in_order() {
    let mut s = TcpSendProtocol::new();
    let mut r = TcpRecvProtocol::new();
    s.send(&open_stream()).unwrap();
    s.send(&message(vec![8u8; 8])).unwrap();
    let (bw, bytes) = s.flush(1_000_000);
    assert_eq!(bw as usize, bytes.len());
    assert_eq!(bytes.len(), 19 + 17 + 8);
    r.feed(&bytes);
    match r.try_recv().unwrap().unwrap() {
        ProtocolEvent::OpenStream { sid, prio, promises, guaranteed_bandwidth } => {
            assert_eq!(sid, Sid::new(1));
            assert_eq!(prio, 4u8);
            assert_eq!(promises, GUARANTEED_DELIVERY);
            assert_eq!(guaranteed_bandwidth, 1_000);
        },
        e => panic!("wrong event {:?}", e),
    }
    match r.try_recv().unwrap().unwrap() {
        ProtocolEvent::Message { sid, data } => {
            assert_eq!(sid, Sid::new(1));
            assert_eq!(data, vec![8u8; 8]);
        },
        e => panic!("wrong event {:?}", e),
    }
    assert!(r.try_recv().unwrap().is_none());
}

#[test]
fn tcp_framing_reassembles_arbitrary_chunks() {
    let mut s = TcpSendProtocol::new();
    let mut r = TcpRecvProtocol::new();
    s.send(&open_stream()).unwrap();
    s.send(&message(vec![1, 2, 3, 4, 5])).unwrap();
    s.send(&ProtocolEvent::Shutdown).unwrap();
    let (_, bytes) = s.flush(1_000_000);
    // Feed one byte at a time: mid-frame arrivals must never yield an
    // event early or lose one.
    let mut got = Vec::new();
    for b in bytes.iter() {
        r.feed(std::slice::from_ref(b));
        while let Some(e) = r.try_recv().unwrap() {
            got.push(e);
        }
    }
    assert_eq!(got.len(), 3);
    assert_eq!(got[0], open_stream());
    assert_eq!(got[1], message(vec![1, 2, 3, 4, 5]));
    assert_eq!(got[2], ProtocolEvent::Shutdown);
}

#[test]
fn tcp_flush_respects_the_byte_budget() {
    let mut s = TcpSendProtocol::new();
    s.send(&message(vec![7u8; 10])).unwrap();
    let (bw1, part1) = s.flush(5);
    assert_eq!(bw1, 5);
    assert_eq!(part1.len(), 5);
    let (bw2, part2) = s.flush(1_000);
    assert_eq!(bw2 as usize, part2.len());
    assert_eq!(part1.len() + part2.len(), 17 + 10);
    let mut r = TcpRecvProtocol::new();
    r.feed(&part1);
    assert!(r.try_recv().unwrap().is_none());
    r.feed(&part2);
    assert_eq!(r.try_recv().unwrap().unwrap(), message(vec![7u8; 10]));
}

#[test]
fn tcp_framing_rejects_an_unknown_tag() {
    let mut r = TcpRecvProtocol::new();
    r.feed(&[250u8, 0, 0]);
    assert_eq!(r.try_recv().unwrap_err(), ProtocolError::Violated);
}

#[test]
fn tcp_read_of_zero_bytes_means_closed() {
    let buffer = vec![0u8; 1500];
    assert_eq!(tcp_recv_classify(&buffer, 0).unwrap_err(), ProtocolError::Closed);
    let mut buffer = vec![0u8; 1500];
    buffer[0] = 9;
    buffer[1] = 8;
    let chunk = tcp_recv_classify(&buffer, 2).unwrap();
    assert_eq!(chunk, vec![9u8, 8u8]);
}
