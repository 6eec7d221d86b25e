//! The session clock: nanoseconds since the clock was started.

use vstd::prelude::*;
use wasm_timer::Instant;

verus! {

/// `wasm_timer::Instant`: a moment on a monotonic clock, carried through as it is.
#[verifier::external_type_specification]
#[verifier::external_body]
pub struct ExInstant(wasm_timer::Instant);

/// `Instant::now`: the present moment. Nothing is claimed of it. A wasm32 build reads the
/// browser's performance clock and panics where there is none.
#[verifier::external_body]
fn instant_now() -> (moment: Instant) {
    Instant::now()
}

/// `Instant::elapsed`, as whole nanoseconds (`Duration::as_nanos`): the time that has
/// passed since `origin`. Nothing is claimed of it.
#[verifier::external_body]
fn nanos_since(origin: &Instant) -> (nanos: u128) {
    origin.elapsed().as_nanos()
}

/// A clock that counts from the moment it was started.
pub struct Clock {
    origin: Instant,
}

impl Clock {
    /// A clock started now. Which moment that is, the contract cannot say.
    pub fn start() -> (clock: Clock) {
        Clock { origin: instant_now() }
    }

    /// The nanoseconds that have passed since the clock was started. The clock is read at
    /// each call; what it shows, the contract cannot say.
    pub fn now(&self) -> (now: u128) {
        nanos_since(&self.origin)
    }
}

} // verus!
