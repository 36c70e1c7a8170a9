//! CTAP HID command identifiers.

use vstd::prelude::*;

verus! {

pub const MSG: u8 = 0x83;

pub const CBOR: u8 = 0x90;

pub const INIT: u8 = 0x86;

/// Echo request. Shares its code with [`WINK`].
pub const PING: u8 = 0x81;

pub const WINK: u8 = 0x81;

pub const LOCK: u8 = 0x84;

pub const CANCEL: u8 = 0x91;

pub const KEEPALIVE: u8 = 0xbb;

pub const ERROR: u8 = 0xbf;

} // verus!
