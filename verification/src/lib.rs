//! A FIDO2 authenticator: the CTAP HID transport, the CTAP2 commands, and the
//! signing backends that hold the credential keys.

use vstd::prelude::*;

pub mod authenticator;
pub mod backend;
pub mod bytes;
pub mod cbor;
pub mod ctap_hid;
pub mod linux_uhid;
pub mod mpc;
pub mod random;
pub mod sha256;
pub mod text;

verus! {

/// Adds two numbers whose sum is representable.
pub fn add(left: u64, right: u64) -> (sum: u64)
    requires
        left + right <= u64::MAX,
    ensures
        sum == left + right,
{
    left + right
}

} // verus!
