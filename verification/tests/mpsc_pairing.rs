//! The in-process substrate: rendezvous, pairing, and channel traffic.

use netmux::chan::ChannelPoll;
use netmux::facade::{FlushOut, Protocols, RecvProtocols, SendProtocols};
use netmux::mpsc::classify_poll;
use netmux::registry::{accept_step, poll_listener, CidAllocator, ConnectProgress, MpscRegistry};
use netmux::types::{
    MpscMsg, NetworkConnectError, ProtocolError, ProtocolEvent, Sid, GUARANTEED_DELIVERY,
};

fn open_stream() -> ProtocolEvent {
    ProtocolEvent::OpenStream {
        sid: Sid::new(1),
        prio: 4u8,
        promises: GUARANTEED_DELIVERY,
        guaranteed_bandwidth: 1_000,
    }
}

fn message(payload: Vec<u8>) -> ProtocolEvent {
    ProtocolEvent::Message { sid: Sid::new(1), data: payload }
}

fn mpsc_pair(addr: u64) -> (Protocols, Protocols) {
    let mut reg = MpscRegistry::new();
    let mut cids = CidAllocator::new();
    let mut incoming = reg.listen(addr);
    let pending = reg.connect_request(addr).unwrap();
    let req = match poll_listener(&mut incoming) {
        ChannelPoll::Item(r) => r,
        _ => panic!("the listener saw no connect request"),
    };
    let (server_ends, cid) = accept_step(req, &mut cids);
    assert_eq!(cid, 0);
    let server = Protocols::from_endpoints(server_ends);
    let client = match pending.poll() {
        ConnectProgress::Ready(ends) => Protocols::from_endpoints(ends),
        _ => panic!("the listener's reply did not arrive"),
    };
    (client, server)
}

#[test]
fn each_poll_outcome_means_one_thing() {
    // A queued event is delivered as it is.
    match classify_poll(ChannelPoll::Item(MpscMsg::Event(open_stream()))) {
        Ok(Some(e)) => assert_eq!(e, open_stream()),
        r => panic!("a queued event must come out, got {:?}", r),
    }
    // A handshake frame after establishment breaks the protocol.
    assert_eq!(
        classify_poll(ChannelPoll::Item(MpscMsg::Init(vec![0u8; 37]))).unwrap_err(),
        ProtocolError::Violated,
    );
    // An empty channel is no event yet; a disconnected one is the end.
    assert!(classify_poll(ChannelPoll::Empty).unwrap().is_none());
    assert_eq!(classify_poll(ChannelPoll::Disconnected).unwrap_err(), ProtocolError::Closed);
}

#[test]
fn mpsc_connect_without_listener_fails_immediately() {
    let reg = MpscRegistry::new();
    match reg.connect_request(42) {
        Err(NetworkConnectError::NotConnected) => {},
        _ => panic!("a connect to an unbound address must fail as not connected"),
    }
}

#[test]
fn mpsc_connect_to_a_dead_listener_breaks_the_pipe() {
    let mut reg = MpscRegistry::new();
    let incoming = reg.listen(3);
    drop(incoming);
    match reg.connect_request(3) {
        Err(NetworkConnectError::BrokenPipe) => {},
        _ => panic!("a connect to a dropped listener loop must break the pipe"),
    }
}

#[test]
fn mpsc_connect_waits_until_the_listener_answers() {
    let mut reg = MpscRegistry::new();
    let mut incoming = reg.listen(4);
    let pending = reg.connect_request(4).unwrap();
    // The listener has not answered yet.
    let pending = match pending.poll() {
        ConnectProgress::Waiting(p) => p,
        _ => panic!("no answer can be ready before the listener acts"),
    };
    let mut cids = CidAllocator::new();
    let req = match poll_listener(&mut incoming) {
        ChannelPoll::Item(r) => r,
        _ => panic!("the listener saw no connect request"),
    };
    let _server = accept_step(req, &mut cids);
    match pending.poll() {
        ConnectProgress::Ready(_) => {},
        _ => panic!("the answered connect must be ready"),
    }
}

#[test]
fn mpsc_events_arrive_in_sending_order() {
    let (client, server) = mpsc_pair(7);
    let (mut s, _keep) = client.split();
    let (_, mut r) = server.split();
    s.send(open_stream()).unwrap();
    s.send(message(vec![8u8; 8])).unwrap();
    match s.flush(1_000_000).unwrap() {
        (_, FlushOut::Mpsc) => {},
        _ => panic!("the in-process backend hands nothing to a writer"),
    }
    assert_eq!(r.recv().unwrap().unwrap(), open_stream());
    assert_eq!(r.recv().unwrap().unwrap(), message(vec![8u8; 8]));
    assert!(r.recv().unwrap().is_none());
}

#[test]
fn mpsc_buffered_events_survive_a_dropped_sender() {
    let (client, server) = mpsc_pair(8);
    let (mut s, _keep) = client.split();
    let (_, mut r) = server.split();
    s.send(open_stream()).unwrap();
    s.send(message(vec![3u8, 1, 4])).unwrap();
    s.flush(1_000_000).unwrap();
    drop(s);
    // Both transmitted events must still come out before the end shows.
    assert_eq!(r.recv().unwrap().unwrap(), open_stream());
    assert_eq!(r.recv().unwrap().unwrap(), message(vec![3u8, 1, 4]));
    assert_eq!(r.recv().unwrap_err(), ProtocolError::Closed);
}

#[test]
fn mpsc_recv_resolves_to_closed_after_the_sender_goes() {
    let (client, server) = mpsc_pair(9);
    let (s, _keep) = client.split();
    let (_, mut r) = server.split();
    drop(s);
    assert_eq!(r.recv().unwrap_err(), ProtocolError::Closed);
}

#[test]
fn mpsc_addresses_pair_independent_connections() {
    let mut reg = MpscRegistry::new();
    let mut cids = CidAllocator::new();
    let mut in_a = reg.listen(1);
    let mut in_b = reg.listen(2);
    let pend_a = reg.connect_request(1).unwrap();
    let pend_b = reg.connect_request(2).unwrap();
    let req_a = match poll_listener(&mut in_a) {
        ChannelPoll::Item(r) => r,
        _ => panic!("no request on the first address"),
    };
    let req_b = match poll_listener(&mut in_b) {
        ChannelPoll::Item(r) => r,
        _ => panic!("no request on the second address"),
    };
    let (ends_a, cid_a) = accept_step(req_a, &mut cids);
    let (ends_b, cid_b) = accept_step(req_b, &mut cids);
    assert_eq!(cid_a, 0);
    assert_eq!(cid_b, 1);
    let (mut sa, _) = Protocols::from_endpoints(ends_a).split();
    let (mut sb, _) = Protocols::from_endpoints(ends_b).split();
    let (_, mut ra) = match pend_a.poll() {
        ConnectProgress::Ready(e) => Protocols::from_endpoints(e).split(),
        _ => panic!("first connect did not finish"),
    };
    let (_, mut rb) = match pend_b.poll() {
        ConnectProgress::Ready(e) => Protocols::from_endpoints(e).split(),
        _ => panic!("second connect did not finish"),
    };
    sa.send(message(vec![1u8])).unwrap();
    sb.send(message(vec![2u8])).unwrap();
    sa.flush(1_000_000).unwrap();
    sb.flush(1_000_000).unwrap();
    assert_eq!(ra.recv().unwrap().unwrap(), message(vec![1u8]));
    assert_eq!(rb.recv().unwrap().unwrap(), message(vec![2u8]));
}
