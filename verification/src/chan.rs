//! Trusted declarations of the channel primitives of the in-process
//! substrate.
//!
//! The in-process backend moves its traffic through tokio's mpsc and
//! oneshot channels.  Each wrapper below holds exactly one call into
//! tokio; everything around the calls is verified.  Delivery, FIFO order
//! and close-on-drop are the substrate's own behaviour, outside these
//! contracts, just as a TCP socket's behaviour is outside this layer.

use vstd::prelude::*;
use crate::types::MpscMsg;

verus! {

#[verifier::external_type_specification]
#[verifier::external_body]
#[verifier::reject_recursive_types(T)]
pub struct ExMpscSender<T>(tokio::sync::mpsc::Sender<T>);

#[verifier::external_type_specification]
#[verifier::external_body]
#[verifier::reject_recursive_types(T)]
pub struct ExMpscReceiver<T>(tokio::sync::mpsc::Receiver<T>);

#[verifier::external_type_specification]
#[verifier::external_body]
#[verifier::reject_recursive_types(T)]
pub struct ExUnboundedSender<T>(tokio::sync::mpsc::UnboundedSender<T>);

#[verifier::external_type_specification]
#[verifier::external_body]
#[verifier::reject_recursive_types(T)]
pub struct ExUnboundedReceiver<T>(tokio::sync::mpsc::UnboundedReceiver<T>);

#[verifier::external_type_specification]
#[verifier::external_body]
#[verifier::reject_recursive_types(T)]
pub struct ExOneshotSender<T>(tokio::sync::oneshot::Sender<T>);

#[verifier::external_type_specification]
#[verifier::external_body]
#[verifier::reject_recursive_types(T)]
pub struct ExOneshotReceiver<T>(tokio::sync::oneshot::Receiver<T>);

// The receiver's `Future` impl mentions this error type, so declaring
// the receiver requires declaring it too.
#[verifier::external_type_specification]
#[verifier::external_body]
pub struct ExOneshotRecvError(tokio::sync::oneshot::error::RecvError);

/// What a rendezvous listener receives for each connect attempt: the
/// connector's inbound sender, and a reply slot for the sender the
/// connector will use outbound.
pub struct ConnectRequest {
    /// Sends remote-to-local traffic; handed over by the connector.
    pub to_connector: tokio::sync::mpsc::Sender<MpscMsg>,
    /// One-shot slot through which the listener returns the opposite
    /// direction's sender.
    pub reply: tokio::sync::oneshot::Sender<tokio::sync::mpsc::Sender<MpscMsg>>,
}

/// Result of a non-blocking push into a bounded channel.
pub enum TrySendOutcome {
    /// The message was queued.
    Sent,
    /// The channel is full; the message comes back untouched.
    Full(MpscMsg),
    /// The receiving half is gone; the message comes back untouched.
    Closed(MpscMsg),
}

/// Result of a non-blocking pull from a channel.
pub enum ChannelPoll<T> {
    /// One queued item.
    Item(T),
    /// Nothing queued right now, but senders still exist.
    Empty,
    /// Nothing queued and every sender is gone.
    Disconnected,
}

/// Relies on tokio::sync::mpsc::channel: makes a connected bounded pair.
/// tokio panics on a zero bound, and again when the bound exceeds its
/// semaphore's permit cap of the top three bits of `usize`; both are
/// excluded here.
#[verifier::external_body]
pub(crate) fn mpsc_channel(bound: usize) -> (tokio::sync::mpsc::Sender<MpscMsg>, tokio::sync::mpsc::Receiver<MpscMsg>)
    requires
        1 <= bound <= usize::MAX >> 3,
{
    tokio::sync::mpsc::channel(bound)
}

/// Relies on tokio Sender::try_send: queues without waiting; on `Full` or
/// `Closed` the error carries the message back unchanged.
#[verifier::external_body]
pub(crate) fn mpsc_try_send(s: &tokio::sync::mpsc::Sender<MpscMsg>, m: MpscMsg) -> (r: TrySendOutcome)
    ensures
        r matches TrySendOutcome::Full(back) ==> back == m,
        r matches TrySendOutcome::Closed(back) ==> back == m,
{
    match s.try_send(m) {
        Ok(()) => TrySendOutcome::Sent,
        Err(tokio::sync::mpsc::error::TrySendError::Full(back)) => TrySendOutcome::Full(back),
        Err(tokio::sync::mpsc::error::TrySendError::Closed(back)) => TrySendOutcome::Closed(back),
    }
}

/// Relies on tokio Receiver::try_recv: pulls one queued message without
/// waiting; `Disconnected` comes only once the queue is drained and every
/// sender is dropped.
#[verifier::external_body]
pub(crate) fn mpsc_try_recv(r: &mut tokio::sync::mpsc::Receiver<MpscMsg>) -> ChannelPoll<MpscMsg> {
    match r.try_recv() {
        Ok(m) => ChannelPoll::Item(m),
        Err(tokio::sync::mpsc::error::TryRecvError::Empty) => ChannelPoll::Empty,
        Err(tokio::sync::mpsc::error::TryRecvError::Disconnected) => ChannelPoll::Disconnected,
    }
}

/// Relies on tokio::sync::mpsc::unbounded_channel: makes a connected
/// unbounded pair.
#[verifier::external_body]
pub(crate) fn unbounded_channel() -> (tokio::sync::mpsc::UnboundedSender<ConnectRequest>, tokio::sync::mpsc::UnboundedReceiver<ConnectRequest>) {
    tokio::sync::mpsc::unbounded_channel()
}

/// Relies on tokio UnboundedSender::send: queues unless the receiving half
/// is gone, in which case the message comes back unchanged.
#[verifier::external_body]
pub(crate) fn unbounded_send(
    s: &tokio::sync::mpsc::UnboundedSender<ConnectRequest>,
    m: ConnectRequest,
) -> (r: Result<(), ConnectRequest>)
    ensures
        r matches Err(back) ==> back == m,
{
    s.send(m).map_err(|e| e.0)
}

/// Relies on tokio UnboundedReceiver::try_recv, as `mpsc_try_recv` does.
#[verifier::external_body]
pub(crate) fn unbounded_try_recv(
    r: &mut tokio::sync::mpsc::UnboundedReceiver<ConnectRequest>,
) -> ChannelPoll<ConnectRequest> {
    match r.try_recv() {
        Ok(m) => ChannelPoll::Item(m),
        Err(tokio::sync::mpsc::error::TryRecvError::Empty) => ChannelPoll::Empty,
        Err(tokio::sync::mpsc::error::TryRecvError::Disconnected) => ChannelPoll::Disconnected,
    }
}

/// Relies on tokio::sync::oneshot::channel: makes a connected one-shot
/// pair.
#[verifier::external_body]
pub(crate) fn oneshot_channel() -> (tokio::sync::oneshot::Sender<tokio::sync::mpsc::Sender<MpscMsg>>, tokio::sync::oneshot::Receiver<tokio::sync::mpsc::Sender<MpscMsg>>) {
    tokio::sync::oneshot::channel()
}

/// Relies on tokio oneshot Sender::send: delivers the value unless the
/// receiving half is gone, in which case the value comes back unchanged.
#[verifier::external_body]
pub(crate) fn oneshot_send(
    s: tokio::sync::oneshot::Sender<tokio::sync::mpsc::Sender<MpscMsg>>,
    v: tokio::sync::mpsc::Sender<MpscMsg>,
) -> (r: Result<(), tokio::sync::mpsc::Sender<MpscMsg>>)
    ensures
        r matches Err(back) ==> back == v,
{
    s.send(v)
}

/// Relies on tokio oneshot Receiver::try_recv: pulls the value if it has
/// been sent; `Disconnected` means the sending half is gone for good.
#[verifier::external_body]
pub(crate) fn oneshot_try_recv(
    r: &mut tokio::sync::oneshot::Receiver<tokio::sync::mpsc::Sender<MpscMsg>>,
) -> ChannelPoll<tokio::sync::mpsc::Sender<MpscMsg>> {
    match r.try_recv() {
        Ok(v) => ChannelPoll::Item(v),
        Err(tokio::sync::oneshot::error::TryRecvError::Empty) => ChannelPoll::Empty,
        Err(tokio::sync::oneshot::error::TryRecvError::Closed) => ChannelPoll::Disconnected,
    }
}

} // verus!
