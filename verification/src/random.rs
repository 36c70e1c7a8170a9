//! Random bytes.

use rand::RngCore;
use vstd::prelude::*;

verus! {

/// `rand::thread_rng().fill_bytes` on `count` bytes. Which bytes come is
/// chance, so only their number is stated. The bound keeps the vector within
/// what can be allocated.
#[verifier::external_body]
pub(crate) fn random_bytes(count: usize) -> (bytes: Vec<u8>)
    requires
        count <= 1024,
    ensures
        bytes@.len() == count,
{
    let mut bytes = vec![0u8; count];
    rand::thread_rng().fill_bytes(&mut bytes);
    bytes
}

} // verus!
