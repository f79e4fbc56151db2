//! Event broadcaster: a fan-out publish/subscribe primitive with two
//! independent channels, one for transaction events and one for file events.
//!
//! Each subscriber owns an independent receiver and gets every message
//! published after its subscription. Delivery is best-effort: a slow
//! receiver's oldest buffered message is dropped rather than blocking the
//! publisher, and a failed send (no receivers) is swallowed. The channels
//! come from an outside crate and stand behind trusted declarations; what
//! they deliver at run time is not modelled here.

use vstd::prelude::*;

use crate::model::FileStatusEvent;
use crate::model::Transaction;

verus! {

/// Trusted declaration of the broadcast sender type of the outside crate.
#[verifier::external_type_specification]
#[verifier::external_body]
#[verifier::reject_recursive_types(T)]
pub struct ExSender<T>(tokio::sync::broadcast::Sender<T>);

/// Trusted declaration of the broadcast receiver type of the outside crate.
#[verifier::external_type_specification]
#[verifier::external_body]
#[verifier::reject_recursive_types(T)]
pub struct ExReceiver<T>(tokio::sync::broadcast::Receiver<T>);

/// Trusted declaration of the error a failed broadcast send returns.
#[verifier::external_type_specification]
#[verifier::external_body]
#[verifier::reject_recursive_types(T)]
pub struct ExSendError<T>(tokio::sync::broadcast::error::SendError<T>);

/// Relies on tokio::sync::broadcast::channel, which panics when the capacity
/// is zero or above half of the usize range.
pub assume_specification<T: Clone>[ tokio::sync::broadcast::channel::<T> ](
    capacity: usize,
) -> (r: (tokio::sync::broadcast::Sender<T>, tokio::sync::broadcast::Receiver<T>))
    requires
        1 <= capacity <= usize::MAX / 2,
;

/// Relies on tokio::sync::broadcast::Sender::send: queues the value for every
/// current receiver; whether any receiver gets it depends on run-time state.
pub assume_specification<T>[ tokio::sync::broadcast::Sender::<T>::send ](
    sender: &tokio::sync::broadcast::Sender<T>,
    value: T,
) -> Result<usize, tokio::sync::broadcast::error::SendError<T>>;

/// Relies on tokio's Clone for broadcast::Sender: a second handle publishing
/// to the same channel.
pub assume_specification<T>[ <tokio::sync::broadcast::Sender<T> as core::clone::Clone>::clone ](
    sender: &tokio::sync::broadcast::Sender<T>,
) -> tokio::sync::broadcast::Sender<T>;

/// Relies on tokio::sync::broadcast::Sender::subscribe: a new independent
/// receiver that sees every message sent after this call.
pub assume_specification<T>[ tokio::sync::broadcast::Sender::<T>::subscribe ](
    sender: &tokio::sync::broadcast::Sender<T>,
) -> tokio::sync::broadcast::Receiver<T>;

/// How many events a slow subscriber may have buffered before its oldest
/// buffered event is dropped.
pub fn channel_capacity() -> (r: usize)
    ensures
        r == 100,
{
    100
}

/// The fan-out broadcaster: one sender per event channel. A clone publishes
/// to the same subscribers.
#[derive(Clone)]
pub struct Broadcaster {
    pub tx_sender: tokio::sync::broadcast::Sender<Transaction>,
    pub file_sender: tokio::sync::broadcast::Sender<FileStatusEvent>,
}

impl Broadcaster {
    /// A broadcaster with no subscribers yet, buffering up to `capacity`
    /// events per subscriber.
    pub fn new(capacity: usize) -> Broadcaster
        requires
            1 <= capacity <= usize::MAX / 2,
    {
        let (tx_sender, _tx_receiver) = tokio::sync::broadcast::channel(capacity);
        let (file_sender, _file_receiver) = tokio::sync::broadcast::channel(capacity);
        Broadcaster { tx_sender, file_sender }
    }

    /// Publishes a transaction snapshot to every current subscriber;
    /// delivery failures are swallowed.
    pub fn publish_transaction(&self, t: Transaction) {
        let _ = self.tx_sender.send(t);
    }

    /// Publishes a file-level status change to every current subscriber;
    /// delivery failures are swallowed.
    pub fn publish_file_event(&self, e: FileStatusEvent) {
        let _ = self.file_sender.send(e);
    }

    /// A new independent receiver of transaction events.
    pub fn subscribe(&self) -> tokio::sync::broadcast::Receiver<Transaction> {
        self.tx_sender.subscribe()
    }

    /// A new independent receiver of file events.
    pub fn subscribe_to_file_events(&self) -> tokio::sync::broadcast::Receiver<FileStatusEvent> {
        self.file_sender.subscribe()
    }
}

} // verus!
