//! Multi-Party Computation (MPC) roles for passkeys.

use vstd::prelude::*;

verus! {

/// A trait for parties involved in an MPC ceremony.
///
/// This represents a single node or participant in the computation.
pub trait MpcParticipant {
    /// Returns the unique identifier for this participant.
    fn id(&self) -> &[u8];
}

} // verus!
