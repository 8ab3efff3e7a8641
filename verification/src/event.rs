//! The wait handle of a room: a signal that fires once and wakes every reader
//! that waits on it.

use std::convert::Infallible;
use std::sync::Arc;
use futures_intrusive::channel::OneshotBroadcastChannel;
use vstd::prelude::*;

verus! {

/// A single-shot broadcast signal, shared between a room and the readers that
/// wait for the room's next write.
///
/// The signal is a `futures_intrusive` one-shot broadcast channel on which no
/// value is ever sent: closing it is what fires it. Readers await
/// `channel.receive()`. Whether the signal has fired lies behind shared
/// references, so contracts treat a handle as an opaque value: they can say
/// which handle a room has, not what state the handle is in.
#[verifier::external_body]
pub struct WaitHandle {
    pub channel: Arc<OneshotBroadcastChannel<Infallible>>,
}

/// A fresh handle whose signal has not fired.
///
/// Calls `GenericOneshotBroadcastChannel::new`, which returns a channel that
/// is neither fulfilled nor closed and has no waiters. Nothing of this is
/// visible in contracts, so none is claimed.
#[verifier::external_body]
pub(crate) fn new_event() -> (event: WaitHandle) {
    WaitHandle { channel: Arc::new(OneshotBroadcastChannel::new()) }
}

/// Fires the signal, waking every reader that waits on it.
///
/// Calls `GenericOneshotBroadcastChannel::close`, which marks the channel as
/// fulfilled and wakes all of its waiters; on a channel that was closed
/// before, it changes nothing. It never blocks on a waiter and cannot fail.
#[verifier::external_body]
pub(crate) fn fire(event: &WaitHandle) {
    event.channel.close();
}

/// Another handle on the same signal.
///
/// Calls `Arc::clone`: the result points to the very channel that `event`
/// points to.
#[verifier::external_body]
pub(crate) fn share(event: &WaitHandle) -> (shared: WaitHandle)
    ensures
        shared == *event,
{
    WaitHandle { channel: Arc::clone(&event.channel) }
}

} // verus!
