//! Trusted declarations of crossbeam channel halves, with wrappers for the
//! operations the services use.  A channel is shared with other threads, so
//! no wrapper states what a poll returns — only the shape of the outcome.

use vstd::prelude::*;

verus! {

#[verifier::external_type_specification]
#[verifier::external_body]
#[verifier::reject_recursive_types(T)]
pub struct ExSender<T>(crossbeam_channel::Sender<T>);

#[verifier::external_type_specification]
#[verifier::external_body]
#[verifier::reject_recursive_types(T)]
pub struct ExReceiver<T>(crossbeam_channel::Receiver<T>);

/// One non-blocking poll of a byte-vector channel.
pub enum BytesPoll {
    /// A chunk was waiting.
    Got(Vec<u8>),
    /// Nothing waiting; senders still live.
    Empty,
    /// Nothing waiting and every sender is gone.
    Closed,
}

/// One non-blocking poll of a signal channel.
pub enum SignalPoll {
    Got,
    Empty,
    Closed,
}

/// Relies on crossbeam_channel::Sender::send: delivers the value unless
/// every receiver is gone; whether that holds depends on other threads.
#[verifier::external_body]
pub(crate) fn send_bytes(tx: &crossbeam_channel::Sender<Vec<u8>>, v: Vec<u8>) -> (ok: bool) {
    tx.send(v).is_ok()
}

/// Relies on crossbeam_channel::Sender::send, as `send_bytes`.
#[verifier::external_body]
pub(crate) fn send_signal(tx: &crossbeam_channel::Sender<()>) -> (ok: bool) {
    tx.send(()).is_ok()
}

/// Relies on crossbeam_channel::Receiver::try_recv: takes a waiting value
/// without blocking, or reports the channel empty or disconnected.
#[verifier::external_body]
pub(crate) fn try_recv_bytes(rx: &crossbeam_channel::Receiver<Vec<u8>>) -> (r: BytesPoll) {
    match rx.try_recv() {
        Ok(v) => BytesPoll::Got(v),
        Err(crossbeam_channel::TryRecvError::Empty) => BytesPoll::Empty,
        Err(crossbeam_channel::TryRecvError::Disconnected) => BytesPoll::Closed,
    }
}

/// Relies on crossbeam_channel::Receiver::try_recv, as `try_recv_bytes`.
#[verifier::external_body]
pub(crate) fn try_recv_signal(rx: &crossbeam_channel::Receiver<()>) -> (r: SignalPoll) {
    match rx.try_recv() {
        Ok(()) => SignalPoll::Got,
        Err(crossbeam_channel::TryRecvError::Empty) => SignalPoll::Empty,
        Err(crossbeam_channel::TryRecvError::Disconnected) => SignalPoll::Closed,
    }
}

} // verus!
