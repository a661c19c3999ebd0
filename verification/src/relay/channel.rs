//! The queues and the disconnect signal of a pairing, which are tokio
//! channels. Nothing here is proved: each item states what tokio documents.

use tokio::sync::{broadcast, mpsc};
use vstd::prelude::*;

verus! {

/// The sending end of a bounded tokio queue.
#[verifier::external_type_specification]
#[verifier::external_body]
#[verifier::reject_recursive_types(T)]
pub struct ExQueueSender<T>(mpsc::Sender<T>);

/// The receiving end of a bounded tokio queue.
#[verifier::external_type_specification]
#[verifier::external_body]
#[verifier::reject_recursive_types(T)]
pub struct ExQueueReceiver<T>(mpsc::Receiver<T>);

/// The sending end of a tokio broadcast channel.
#[verifier::external_type_specification]
#[verifier::external_body]
#[verifier::reject_recursive_types(T)]
pub struct ExSignalSender<T>(broadcast::Sender<T>);

/// A subscription to a tokio broadcast channel.
#[verifier::external_type_specification]
#[verifier::external_body]
#[verifier::reject_recursive_types(T)]
pub struct ExSignalReceiver<T>(broadcast::Receiver<T>);

/// What `mpsc::Sender::max_capacity` reports of a sending end: the number of
/// messages that its queue was made to hold.
pub uninterp spec fn queue_bound(tx: mpsc::Sender<String>) -> nat;

/// Calls `mpsc::Sender::max_capacity`, which reports the capacity that the
/// queue was made with and stays the same whatever is sent and received.
#[verifier::external_body]
pub(crate) fn max_capacity(tx: &mpsc::Sender<String>) -> (capacity: usize)
    ensures
        capacity == queue_bound(*tx),
{
    tx.max_capacity()
}

/// Calls `tokio::sync::mpsc::channel`, which makes an empty queue that holds
/// up to `capacity` messages and hands out its two ends. The call panics on a
/// capacity of zero and on one above `usize::MAX >> 3`. The capacity given
/// here is the one that `Sender::max_capacity` reports of the sending end.
#[verifier::external_body]
pub(crate) fn new_queue(capacity: usize) -> (ends: (mpsc::Sender<String>, mpsc::Receiver<String>))
    requires
        0 < capacity <= usize::MAX / 8,
    ensures
        queue_bound(ends.0) == capacity,
{
    mpsc::channel(capacity)
}

/// Calls `tokio::sync::broadcast::channel` and keeps the sending end. The
/// call panics on a capacity of zero and on one above `usize::MAX / 2`.
#[verifier::external_body]
pub(crate) fn new_signal(capacity: usize) -> (tx: broadcast::Sender<()>)
    requires
        0 < capacity <= usize::MAX / 2,
{
    broadcast::channel(capacity).0
}

/// Calls `broadcast::Sender::subscribe`, which hands out a receiver for what
/// is sent from now on. tokio refuses a receiver only to a channel that
/// already has `usize::MAX >> 2` of them, more than memory can hold.
#[verifier::external_body]
pub(crate) fn subscribe(tx: &broadcast::Sender<()>) -> (rx: broadcast::Receiver<()>)
{
    tx.subscribe()
}

/// Calls `broadcast::Sender::send` with the unit value, which wakes every
/// receiver subscribed at this moment. With no receiver left the call
/// reports an error and does nothing, which is passed over here.
#[verifier::external_body]
pub(crate) fn publish(tx: &broadcast::Sender<()>)
{
    let _ = tx.send(());
}

} // verus!
