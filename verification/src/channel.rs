//! Trusted declarations of the channel primitives.
//!
//! Every queue of the pool is a flume channel: the bounded compressor queue,
//! the per-sink ordered queues of reply receivers, the write-ready queue and
//! the single-use reply channels.  The channel types are declared opaque and
//! each operation the pool logic performs goes through one wrapper here.  A
//! channel is shared mutable state, so no wrapper can say what a queue
//! holds; each states only what holds of every outcome, and the pool's
//! guarantees are proved over what its own code hands to these wrappers.

use vstd::prelude::*;

use crate::PoolError;

verus! {

#[verifier::external_type_specification]
#[verifier::external_body]
#[verifier::reject_recursive_types(T)]
pub struct ExSender<T>(flume::Sender<T>);

#[verifier::external_type_specification]
#[verifier::external_body]
#[verifier::reject_recursive_types(T)]
pub struct ExReceiver<T>(flume::Receiver<T>);

/// Relies on flume::bounded: a channel whose queue blocks senders once it
/// holds `cap` messages.
#[verifier::external_body]
pub fn channel_bounded<T>(cap: usize) -> (flume::Sender<T>, flume::Receiver<T>) {
    flume::bounded(cap)
}

/// Relies on flume::unbounded: a channel whose queue never blocks senders.
#[verifier::external_body]
pub fn channel_unbounded<T>() -> (flume::Sender<T>, flume::Receiver<T>) {
    flume::unbounded()
}

/// Relies on flume::Sender::clone: another send end of the same channel.
#[verifier::external_body]
pub fn clone_sender<T>(tx: &flume::Sender<T>) -> flume::Sender<T> {
    tx.clone()
}

/// Relies on flume::Sender::send: queues the message, blocking while a
/// bounded queue is full; it fails only when every receiver is gone, and
/// the message is then lost.
#[verifier::external_body]
pub fn channel_send<T>(tx: &flume::Sender<T>, msg: T) -> (r: Result<(), PoolError>)
    ensures
        r matches Err(e) ==> e is ChannelSend,
{
    match tx.send(msg) {
        Ok(()) => Ok(()),
        Err(flume::SendError(_)) => Err(PoolError::ChannelSend),
    }
}

/// Relies on flume::Receiver::recv: takes the oldest queued message,
/// blocking while the queue is empty; it fails only when the queue is empty
/// and every sender is gone.
#[verifier::external_body]
pub fn channel_recv<T>(rx: &flume::Receiver<T>) -> (r: Result<T, PoolError>)
    ensures
        r matches Err(e) ==> e is ChannelReceive,
{
    match rx.recv() {
        Ok(v) => Ok(v),
        Err(flume::RecvError::Disconnected) => Err(PoolError::ChannelReceive),
    }
}

/// Relies on flume::Receiver::try_recv: the oldest queued message, or
/// `None` without blocking when the queue is empty or every sender is gone.
#[verifier::external_body]
pub fn channel_try_recv<T>(rx: &flume::Receiver<T>) -> Option<T> {
    match rx.try_recv() {
        Ok(v) => Some(v),
        Err(flume::TryRecvError::Empty) => None,
        Err(flume::TryRecvError::Disconnected) => None,
    }
}

/// Relies on flume::Receiver::is_empty: whether the queue held no message
/// at the moment of the call.
#[verifier::external_body]
pub fn channel_is_empty<T>(rx: &flume::Receiver<T>) -> bool {
    rx.is_empty()
}

} // verus!
