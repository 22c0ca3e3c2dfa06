//! The chunk checksum: CRC-16/USB, computed by the `crc` crate.
//!
//! CRC-16/USB is the CRC with polynomial 0x8005, processed bit-reflected
//! (so with the reflected polynomial 0xA001, least significant bit first),
//! initial register 0xFFFF and final xor 0xFFFF.
use vstd::prelude::*;

verus! {

/// One bit step of the reflected CRC register.
pub open spec fn crc16_usb_bit(crc: u16) -> u16 {
    if crc & 1 == 1 {
        (crc >> 1u16) ^ 0xA001u16
    } else {
        crc >> 1u16
    }
}

/// `n` bit steps of the register.
pub open spec fn crc16_usb_bits(crc: u16, n: nat) -> u16
    decreases n,
{
    if n == 0 {
        crc
    } else {
        crc16_usb_bits(crc16_usb_bit(crc), (n - 1) as nat)
    }
}

/// The register after one more byte.
pub open spec fn crc16_usb_byte(crc: u16, byte: u8) -> u16 {
    crc16_usb_bits(crc ^ (byte as u16), 8)
}

/// The register after the given bytes, front first.
pub open spec fn crc16_usb_update(crc: u16, bytes: Seq<u8>) -> u16
    decreases bytes.len(),
{
    if bytes.len() == 0 {
        crc
    } else {
        crc16_usb_update(crc16_usb_byte(crc, bytes[0]), bytes.drop_first())
    }
}

/// The CRC-16/USB checksum of a byte sequence.
pub open spec fn crc16_usb(bytes: Seq<u8>) -> u16 {
    crc16_usb_update(0xFFFFu16, bytes) ^ 0xFFFFu16
}

/// Calls `crc::Crc::<u16>::checksum` on a `Crc` built from
/// `crc::CRC_16_USB`, whose catalogue entry gives the parameters above.
/// The contract claims that the result is the CRC-16/USB checksum of
/// exactly the bytes handed in.
#[verifier::external_body]
pub(crate) fn checksum(bytes: &[u8]) -> (c: u16)
    ensures
        c == crc16_usb(bytes@),
{
    crc::Crc::<u16>::new(&crc::CRC_16_USB).checksum(bytes)
}

} // verus!
