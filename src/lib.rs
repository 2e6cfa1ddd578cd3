//! Virtual sensors of an Aquacomputer Octo fan controller.
//!
//! The library holds the part of the control path that decides and computes:
//! which attached USB device is the controller, and the 51-byte command frame
//! that carries sixteen virtual sensor readings with a trailing CRC-16/USB.
//! Enumerating devices and the bulk transfer itself are left to the caller.
use vstd::prelude::*;

pub mod checksum;
pub mod discovery;
pub mod frame;

verus! {

/// The bulk OUT endpoint that takes the frame.
pub const BULK_OUT_ENDPOINT: u8 = 2;

/// How long one bulk transfer may take, in seconds.
pub const SEND_TIMEOUT_SECS: u64 = 1;

} // verus!
