//! CTAP2 command bytes.

use vstd::prelude::*;

verus! {

pub const MAKE_CREDENTIAL: u8 = 0x01;

pub const GET_ASSERTION: u8 = 0x02;

pub const GET_INFO: u8 = 0x04;

pub const CLIENT_PIN: u8 = 0x06;

pub const SELECTION: u8 = 0x0b;

} // verus!
