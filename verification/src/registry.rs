//! Connection establishment for the in-process substrate, and connection
//! id assignment.
//!
//! An in-process listener registers a rendezvous channel under a plain
//! `u64` address in a pairing service.  A connector looks the address up:
//! an absent address fails at once with a not-connected error, a present
//! one receives a connect request carrying the channel endpoints of the
//! new connection.  The pairing service is an owned value handed to
//! listen and connect calls, so independent services can coexist.

use vstd::prelude::*;
use std::collections::HashMap;
use crate::types::{Cid, MpscMsg, NetworkConnectError};
use crate::chan::{
    mpsc_channel, oneshot_channel, oneshot_send, oneshot_try_recv, unbounded_channel,
    unbounded_send, unbounded_try_recv, ChannelPoll, ConnectRequest,
};

verus! {

/// Bound of every in-process data channel, in messages.
pub const MPSC_CHANNEL_BOUND: usize = 1000;

/// The channel bound sits well below the substrate's permit cap.
proof fn lemma_channel_bound_ok()
    ensures
        1 <= MPSC_CHANNEL_BOUND <= usize::MAX >> 3,
{
    vstd::bits::lemma_usize_shr_is_div(usize::MAX, 3);
    vstd::arithmetic::power2::lemma2_to64();
    assert(usize::MAX >> 3 == usize::MAX as nat / 8);
}

/// Hands out connection ids: each id is given once, in increasing order.
pub struct CidAllocator {
    next: u64,
}

impl CidAllocator {
    /// The id the next allocation will return.
    pub closed spec fn spec_next(self) -> u64 {
        self.next
    }

    /// Starts at the first id.
    pub fn new() -> (a: CidAllocator)
        ensures
            a.spec_next() == 0,
    {
        CidAllocator { next: 0 }
    }

    /// The id the next allocation will return; when it reaches the
    /// largest id, the allocator is exhausted.
    pub fn peek(&self) -> (c: u64)
        ensures
            c == self.spec_next(),
    {
        self.next
    }

    /// Returns a fresh id.  Ids strictly increase, so no id is ever
    /// returned twice.
    pub fn next_cid(&mut self) -> (c: Cid)
        requires
            old(self).spec_next() < u64::MAX,
        ensures
            c == old(self).spec_next(),
            final(self).spec_next() == old(self).spec_next() + 1,
    {
        let c = self.next;
        self.next = self.next + 1;
        c
    }
}

/// The pairing service: maps each listening address to the rendezvous
/// channel of its listener.
pub struct MpscRegistry {
    map: HashMap<u64, tokio::sync::mpsc::UnboundedSender<ConnectRequest>>,
}

/// What a connector holds while it waits for the listener's reply.
pub struct PendingConnect {
    /// Receives remote-to-local traffic once the connection is up.
    pub inbound: tokio::sync::mpsc::Receiver<MpscMsg>,
    /// Will yield the sender for local-to-remote traffic.
    pub reply: tokio::sync::oneshot::Receiver<tokio::sync::mpsc::Sender<MpscMsg>>,
}

/// Endpoints of one accepted or completed in-process connection.
pub struct MpscEndpoints {
    pub sender: tokio::sync::mpsc::Sender<MpscMsg>,
    pub receiver: tokio::sync::mpsc::Receiver<MpscMsg>,
}

/// How far a pending connect has come.
pub enum ConnectProgress {
    /// The listener replied; the connection's endpoints are ready.
    Ready(MpscEndpoints),
    /// No reply yet; ask again later.
    Waiting(PendingConnect),
    /// The listener vanished before replying.
    Failed(NetworkConnectError),
}

impl MpscRegistry {
    /// The addresses with an active listener.
    pub closed spec fn addrs(self) -> Set<u64> {
        self.map@.dom()
    }

    /// A service with no listeners.
    pub fn new() -> (r: MpscRegistry)
        ensures
            r.addrs() == Set::<u64>::empty(),
    {
        let r = MpscRegistry { map: HashMap::new() };
        proof {
            assert(r.addrs() =~= Set::<u64>::empty());
        }
        r
    }

    /// Binds a listener to `addr` and returns the rendezvous receiver its
    /// accept loop drains.  A previous listener on the same address is
    /// replaced, so an address keeps at most one active listener.
    pub fn listen(&mut self, addr: u64) -> (r: tokio::sync::mpsc::UnboundedReceiver<
        ConnectRequest,
    >)
        ensures
            final(self).addrs() == old(self).addrs().insert(addr),
    {
        let (s, r) = unbounded_channel();
        self.map.insert(addr, s);
        proof {
            assert(self.addrs() =~= old(self).addrs().insert(addr));
        }
        r
    }

    /// Starts a connect to `addr`.  An address with no listener fails at
    /// once with a not-connected error; otherwise the request is handed to
    /// the listener and the caller keeps the pending half, unless the
    /// listener's loop is gone, which is a broken pipe.
    pub fn connect_request(&self, addr: u64) -> (r: Result<PendingConnect, NetworkConnectError>)
        ensures
            !self.addrs().contains(addr) <==> r == Err::<PendingConnect, NetworkConnectError>(
                NetworkConnectError::NotConnected,
            ),
            r matches Err(e) ==> (e == NetworkConnectError::NotConnected || e
                == NetworkConnectError::BrokenPipe),
    {
        match self.map.get(&addr) {
            None => Err(NetworkConnectError::NotConnected),
            Some(s) => {
                proof {
                    lemma_channel_bound_ok();
                }
                let (to_connector, inbound) = mpsc_channel(MPSC_CHANNEL_BOUND);
                let (reply_s, reply_r) = oneshot_channel();
                match unbounded_send(s, ConnectRequest { to_connector, reply: reply_s }) {
                    Ok(()) => Ok(PendingConnect { inbound, reply: reply_r }),
                    Err(_) => Err(NetworkConnectError::BrokenPipe),
                }
            },
        }
    }
}

impl PendingConnect {
    /// Asks whether the listener has replied yet.
    pub fn poll(self) -> (r: ConnectProgress)
        ensures
            r matches ConnectProgress::Failed(e) ==> e == NetworkConnectError::BrokenPipe,
    {
        let PendingConnect { inbound, mut reply } = self;
        match oneshot_try_recv(&mut reply) {
            ChannelPoll::Item(sender) => ConnectProgress::Ready(
                MpscEndpoints { sender, receiver: inbound },
            ),
            ChannelPoll::Empty => ConnectProgress::Waiting(PendingConnect { inbound, reply }),
            ChannelPoll::Disconnected => ConnectProgress::Failed(NetworkConnectError::BrokenPipe),
        }
    }
}

/// One step of an in-process accept loop: answers one connect request and
/// yields the endpoints of the accepted connection with its fresh id.
pub fn accept_step(req: ConnectRequest, cids: &mut CidAllocator) -> (r: (MpscEndpoints, Cid))
    requires
        old(cids).spec_next() < u64::MAX,
    ensures
        r.1 == old(cids).spec_next(),
        final(cids).spec_next() == old(cids).spec_next() + 1,
{
    proof {
        lemma_channel_bound_ok();
    }
    let (to_listener, from_connector) = mpsc_channel(MPSC_CHANNEL_BOUND);
    // The connector may already be gone; the connection is still set up and
    // its closed channel will surface as `Closed` on first use, as a lost
    // peer does on any substrate.
    let _ = oneshot_send(req.reply, to_listener);
    let cid = cids.next_cid();
    (MpscEndpoints { sender: req.to_connector, receiver: from_connector }, cid)
}

/// Polls a listener's rendezvous receiver for one connect request.
pub fn poll_listener(r: &mut tokio::sync::mpsc::UnboundedReceiver<ConnectRequest>) -> ChannelPoll<
    ConnectRequest,
> {
    unbounded_try_recv(r)
}

} // verus!
