//! How the daemon's connection listener reacts to incoming connections.
use vstd::prelude::*;

verus! {

/// Consecutive failures to accept a connection after which the listener stops.
pub const MAX_SUBSEQUENT_STREAM_ERRORS: u32 = 100;

/// Counts an incoming connection: an accepted one resets the count of
/// consecutive failures, a failure adds to it. Answers whether the listener
/// stops, which it does at the hundredth consecutive failure.
pub fn on_incoming_stream(subsequent_stream_err: &mut u32, accepted: bool) -> (stop: bool)
    requires
        *old(subsequent_stream_err) < MAX_SUBSEQUENT_STREAM_ERRORS,
    ensures
        accepted ==> *final(subsequent_stream_err) == 0 && !stop,
        !accepted ==> *final(subsequent_stream_err) == *old(subsequent_stream_err) + 1 && stop == (
        *final(subsequent_stream_err) == MAX_SUBSEQUENT_STREAM_ERRORS),
        *final(subsequent_stream_err) <= MAX_SUBSEQUENT_STREAM_ERRORS,
{
    if accepted {
        *subsequent_stream_err = 0;
        false
    } else {
        *subsequent_stream_err += 1;
        *subsequent_stream_err == MAX_SUBSEQUENT_STREAM_ERRORS
    }
}

} // verus!
