//! Membership notifications and the broadcast channel that fans them out.
use crate::server::Server;
use std::sync::Arc;
use tokio::sync::broadcast;
use vstd::prelude::*;

verus! {

/// A change in the membership, carrying the full server record.
#[derive(Debug, Clone)]
pub enum Notification {
    ServerAdded(Arc<Server>),
    ServerRemoved(Arc<Server>),
}

impl Notification {
    /// The id of the server that the notification is about.
    pub open spec fn server_id(self) -> Seq<char> {
        match self {
            Notification::ServerAdded(s) => s.id.0@,
            Notification::ServerRemoved(s) => s.id.0@,
        }
    }

    pub open spec fn is_added(self) -> bool {
        self is ServerAdded
    }
}

#[verifier::external_type_specification]
#[verifier::external_body]
#[verifier::reject_recursive_types(T)]
pub struct ExSender<T>(broadcast::Sender<T>);

#[verifier::external_type_specification]
#[verifier::external_body]
#[verifier::reject_recursive_types(T)]
pub struct ExReceiver<T>(broadcast::Receiver<T>);

/// The capacity that a notification channel was made with.
pub uninterp spec fn bound_of(tx: broadcast::Sender<Notification>) -> nat;

/// A receiver of the notifications sent on a channel from the moment it
/// joined; `joined_at` is how many notifications had been sent before then.
pub struct Subscription {
    pub rx: broadcast::Receiver<Notification>,
    pub joined_at: Ghost<nat>,
}

/// Relies on `tokio::sync::broadcast::channel`, which panics on a capacity
/// of zero or above `usize::MAX / 2`; the receiving half is dropped. The
/// channel is made with `capacity` (it buffers the next power of two).
#[verifier::external_body]
pub(crate) fn new_sender(capacity: usize) -> (r: broadcast::Sender<Notification>)
    requires
        0 < capacity <= usize::MAX / 2,
    ensures
        bound_of(r) == capacity,
{
    broadcast::channel(capacity).0
}

/// Relies on `tokio::sync::broadcast::Sender::send`: it never blocks; with no
/// receiver the value is discarded. Returns how many receivers were subscribed.
#[verifier::external_body]
pub(crate) fn send_notification(tx: &broadcast::Sender<Notification>, n: Notification) -> (r: usize) {
    tx.send(n).unwrap_or(0)
}

/// Relies on `tokio::sync::broadcast::Sender::subscribe`: a receiver of what
/// is sent after this call. It panics only past `usize::MAX >> 2` live
/// receivers, which no bound here can rule out.
#[verifier::external_body]
pub(crate) fn new_receiver(tx: &broadcast::Sender<Notification>) -> (r: broadcast::Receiver<Notification>) {
    tx.subscribe()
}

} // verus!
