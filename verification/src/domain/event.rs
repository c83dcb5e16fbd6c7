use vstd::prelude::*;
use tokio::sync::broadcast::Receiver;

use crate::domain::channel::{broadcast_send, broadcast_sender, broadcast_subscribe, BoundedSender};

verus! {

/// A domain event only needs to be clonable and sendable between tasks: the
/// bus does not know what happened, it only carries it.
pub trait DomainEvent: Clone + Send + Sync + 'static {
}

/// Best effort, not reliable: `publish` drops the outcome of the send on
/// purpose. Without subscribers, or with a slow one, the event is lost
/// silently. An effect that must not be lost belongs in an outbox written in
/// the aggregate's own transaction.
#[verifier::reject_recursive_types(E)]
pub struct EventBus<E: DomainEvent> {
    sender: BoundedSender<E>,
}

impl<E: DomainEvent> EventBus<E> {
    /// The capacity the bus's channel was made with: how many events it holds
    /// for a subscriber that has not read them yet (tokio rounds it up to a
    /// power of two) before that subscriber lags.
    pub closed spec fn capacity(&self) -> nat {
        self.sender.capacity()
    }

    /// A bus whose channel is made with the given capacity.
    pub fn new(capacity: usize) -> (bus: Self)
        requires
            0 < capacity <= usize::MAX / 2,
        ensures
            bus.capacity() == capacity,
    {
        EventBus { sender: broadcast_sender(capacity) }
    }

    pub fn publish(&self, event: E) {
        broadcast_send(&self.sender, event);
    }

    pub fn subscribe(&self) -> Receiver<E> {
        broadcast_subscribe(&self.sender)
    }
}

} // verus!
