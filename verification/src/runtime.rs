//! The Tokio-backed runtime selector and the receive poll loop's policy.
//!
//! The asynchronous plumbing — timers, task spawning, socket readiness —
//! consumes this crate through the encoder and the decoding iterator and is
//! driven outside the verified core; here stand the marker that selects it
//! and the one decision its receive loop takes.

use vstd::prelude::*;

verus! {

/// Selects the Tokio runtime: its timers, its task spawner, and its UDP
/// socket wrapper.  The driver loop that implements those operations lives
/// with the rest of the I/O plumbing, outside the verified core.
#[derive(Debug)]
pub struct TokioRuntime;

/// The decision the receive poll loop takes after a failed receive attempt:
/// every failure is retried once the socket signals readiness again, except
/// a not-connected failure, which is permanent and is returned to the
/// caller.
pub fn should_retry_recv(not_connected: bool) -> (r: bool)
    ensures
        r == !not_connected,
{
    !not_connected
}

} // verus!
