//! Why a simulation step can refuse to run.

use vstd::prelude::*;

verus! {

/// Why a tick has no result. A stage that fails leaves the disc
/// untouched.
#[derive(Clone, Copy, Debug, PartialEq, Eq, Structural)]
pub enum StepError {
    /// A result would not fit the range of simulation state.
    OutOfRange,
    /// The time since the disc crossed the floor is negative or
    /// undefined where the solver needs it: the rewind-and-replay
    /// sequence does not apply to this state. The stages that resolve
    /// collisions must not be called on such a state; each has a test
    /// that tells.
    NegativeCollisionTime,
}

} // verus!
