//! Telling the listeners of a service.

use vstd::prelude::*;

verus! {

/// The number of events that a channel to the listeners holds.
pub const CHANNEL_CAPACITY: usize = 16;

/// Whether an event is sent at all: it is where someone listens. An event
/// that nobody listens to is dropped, and that is no failure.
pub fn broadcast(receiver_count: usize) -> (send: bool)
    ensures
        send == (receiver_count > 0),
{
    receiver_count > 0
}

} // verus!
