use vstd::prelude::*;
use tokio::sync::broadcast::{Receiver, Sender};

use crate::domain::event::DomainEvent;

verus! {

/// Declares tokio's broadcast sender to Verus; values of it are opaque.
#[verifier::external_type_specification]
#[verifier::external_body]
#[verifier::reject_recursive_types(T)]
pub struct ExBroadcastSender<T>(Sender<T>);

/// Declares tokio's broadcast receiver to Verus; values of it are opaque.
#[verifier::external_type_specification]
#[verifier::external_body]
#[verifier::reject_recursive_types(T)]
pub struct ExBroadcastReceiver<T>(Receiver<T>);

/// The sending half of a broadcast channel together with the capacity the
/// channel was made with. Its fields are private to this module and only
/// `broadcast_sender` makes one, so the capacity it records is always the one
/// the channel was created with.
#[verifier::reject_recursive_types(E)]
pub struct BoundedSender<E: DomainEvent> {
    sender: Sender<E>,
    capacity: usize,
}

impl<E: DomainEvent> BoundedSender<E> {
    /// The capacity the channel was made with (tokio rounds it up to a power
    /// of two): how many events it holds for a subscriber that has not read
    /// them yet before that subscriber lags.
    pub closed spec fn capacity(&self) -> nat {
        self.capacity as nat
    }
}

/// Calls `tokio::sync::broadcast::channel(capacity)` and keeps the sending
/// half, recorded with the capacity given to `channel`. The function panics
/// when `capacity` is 0 or above `usize::MAX / 2`, which the `requires`
/// leaves out; of the sender itself nothing is claimed.
#[verifier::external_body]
pub(crate) fn broadcast_sender<E: DomainEvent>(capacity: usize) -> (made: BoundedSender<E>)
    requires
        0 < capacity <= usize::MAX / 2,
    ensures
        made.capacity() == capacity,
{
    let (sender, _) = tokio::sync::broadcast::channel(capacity);
    BoundedSender { sender, capacity }
}

/// Calls `Sender::send` and drops its result: without subscribers (or with
/// a lagging one) the event is lost, which the bus accepts by design.
#[verifier::external_body]
pub(crate) fn broadcast_send<E: DomainEvent>(sender: &BoundedSender<E>, event: E) {
    let _ = sender.sender.send(event);
}

/// Calls `Sender::subscribe`; nothing is claimed of the receiver.
#[verifier::external_body]
pub(crate) fn broadcast_subscribe<E: DomainEvent>(sender: &BoundedSender<E>) -> Receiver<E> {
    sender.sender.subscribe()
}

} // verus!
