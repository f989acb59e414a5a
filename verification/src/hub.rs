//! Trusted boundary around the broadcast channel: the only place where the
//! update stream leaves verified code. Each item relies on the documented
//! behaviour of the channel of tokio.

use vstd::prelude::*;

use crate::workspace::WorkspaceUpdate;

verus! {

#[verifier::external_type_specification]
#[verifier::external_body]
#[verifier::reject_recursive_types(T)]
pub struct ExSender<T>(tokio::sync::broadcast::Sender<T>);

#[verifier::external_type_specification]
#[verifier::external_body]
#[verifier::reject_recursive_types(T)]
pub struct ExReceiver<T>(tokio::sync::broadcast::Receiver<T>);

/// Relies on tokio::sync::broadcast::channel: creates the fan-out channel
/// whose sender delivers each value to every receiver subscribed at send
/// time. The function panics on a zero capacity and on one above half of
/// usize::MAX, so those are excluded here.
#[verifier::external_body]
pub(crate) fn new_channel(capacity: usize) -> (r: (
    tokio::sync::broadcast::Sender<WorkspaceUpdate>,
    tokio::sync::broadcast::Receiver<WorkspaceUpdate>,
))
    requires
        0 < capacity <= usize::MAX / 2,
{
    tokio::sync::broadcast::channel(capacity)
}

/// Relies on tokio::sync::broadcast::Sender::send: the update is delivered to
/// every currently subscribed receiver (a slow receiver that overruns the
/// channel capacity loses its oldest buffered values, others are unaffected).
/// The error returned when no receiver exists is discarded: the update then
/// simply has no audience.
#[verifier::external_body]
pub(crate) fn send_update(
    tx: &tokio::sync::broadcast::Sender<WorkspaceUpdate>,
    update: WorkspaceUpdate,
) {
    let _ = tx.send(update);
}

/// Relies on tokio::sync::broadcast::Sender::subscribe: registers a new
/// receiver that observes every value sent after this call.
#[verifier::external_body]
pub(crate) fn subscribe_receiver(
    tx: &tokio::sync::broadcast::Sender<WorkspaceUpdate>,
) -> tokio::sync::broadcast::Receiver<WorkspaceUpdate> {
    tx.subscribe()
}

} // verus!
