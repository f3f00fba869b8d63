//! The whole TCP path over a live byte stream: frame, write
//! asynchronously, read in chunks, reassemble.
//!
//! The stream is an in-memory duplex with a small buffer, so the reader
//! sees the same arbitrary chunking a socket would produce.  (This
//! sandbox offers no loopback networking to bind a real listener on.)

use netmux::facade::{FlushOut, Protocols};
use netmux::tcp::tcp_recv_classify;
use netmux::types::{ProtocolError, ProtocolEvent, Sid, GUARANTEED_DELIVERY};
use tokio::io::{AsyncReadExt, AsyncWriteExt};

#[test]
fn tcp_byte_stream_delivers_open_stream_then_message() {
    let rt = tokio::runtime::Builder::new_current_thread()
        .enable_io()
        .enable_time()
        .build()
        .unwrap();
    rt.block_on(async {
        // A tiny transfer buffer forces many partial reads, as TCP may.
        let (mut client, mut server) = tokio::io::duplex(16);

        let (mut s, _) = Protocols::new_tcp().split();
        let (_, mut r) = Protocols::new_tcp().split();

        s.send(ProtocolEvent::OpenStream {
            sid: Sid::new(1),
            prio: 4u8,
            promises: GUARANTEED_DELIVERY,
            guaranteed_bandwidth: 1_000,
        })
        .unwrap();
        s.send(ProtocolEvent::Message { sid: Sid::new(1), data: vec![8u8; 8] }).unwrap();
        let (_, out) = s.flush(1_000_000).unwrap();
        let bytes = match out {
            FlushOut::Tcp(b) => b,
            _ => panic!("the TCP backend hands bytes to the socket writer"),
        };
        let writer = tokio::spawn(async move {
            client.write_all(&bytes).await.unwrap();
            // The send half is gone; what was transmitted must still
            // arrive at the receive half.
        });
        drop(s);

        let mut buffer = vec![0u8; 1500];
        loop {
            let n = server.read(&mut buffer).await.unwrap();
            match tcp_recv_classify(&buffer, n) {
                Ok(chunk) => r.feed_bytes(&chunk),
                Err(e) => {
                    assert_eq!(e, ProtocolError::Closed);
                    break;
                },
            }
        }
        writer.await.unwrap();

        match r.recv().unwrap().unwrap() {
            ProtocolEvent::OpenStream { sid, prio, promises, .. } => {
                assert_eq!(sid, Sid::new(1));
                assert_eq!(prio, 4u8);
                assert_eq!(promises, GUARANTEED_DELIVERY);
            },
            e => panic!("wrong event {:?}", e),
        }
        match r.recv().unwrap().unwrap() {
            ProtocolEvent::Message { sid, data } => {
                assert_eq!(sid, Sid::new(1));
                assert_eq!(data, vec![8u8; 8]);
            },
            e => panic!("wrong event {:?}", e),
        }
        assert!(r.recv().unwrap().is_none());
    });
}
