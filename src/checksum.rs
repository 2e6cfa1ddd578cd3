//! The frame's integrity checksum.
use vstd::prelude::*;

verus! {

/// CRC-16/USB (poly 0x8005 reflected, init 0xFFFF, final xor 0xFFFF) of a
/// byte sequence, as the `crc` crate computes it.
pub uninterp spec fn crc16_usb(data: Seq<u8>) -> u16;

/// Relies on `crc::Crc::<u16>::checksum` with the `crc::CRC_16_USB`
/// algorithm: the result is a function of the bytes alone.
#[verifier::external_body]
pub(crate) fn crc16_usb_of(data: &[u8]) -> (r: u16)
    ensures
        r == crc16_usb(data@),
{
    crc::Crc::<u16>::new(&crc::CRC_16_USB).checksum(data)
}

} // verus!
