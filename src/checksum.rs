//! The two checksums the system relies on: the 1-Wire CRC-8 that guards a
//! device's scratchpad, and the CRC-32 that turns a device address into the
//! fingerprint used on the wire.

use vstd::prelude::*;

verus! {

/// The 1-Wire CRC-8 (polynomial x^8 + x^5 + x^4 + 1) of a byte sequence.
pub uninterp spec fn crc8_of(bytes: Seq<u8>) -> u8;

/// The CRC-32 (IEEE) of a byte sequence.
pub uninterp spec fn crc32_of(bytes: Seq<u8>) -> u32;

/// Relies on `embedded_onewire::OneWireCrc::validate`: it runs the 1-Wire
/// CRC-8 over the whole block and accepts when the remainder is zero, which
/// for this CRC happens exactly when the last byte is the CRC-8 of the bytes
/// before it.
#[verifier::external_body]
fn onewire_crc_validate(block: &[u8]) -> (r: bool)
    requires
        block@.len() >= 1,
    ensures
        r == (block@.last() == crc8_of(block@.drop_last())),
{
    embedded_onewire::OneWireCrc::validate(block)
}

/// Relies on `crc32fast::hash`: the CRC-32 of the bytes.
#[verifier::external_body]
fn crc32fast_hash(bytes: &[u8]) -> (r: u32)
    ensures
        r == crc32_of(bytes@),
{
    crc32fast::hash(bytes)
}

/// Whether a block ends with the 1-Wire CRC-8 of the bytes before it.
pub open spec fn crc8_trailer_ok(block: Seq<u8>) -> bool {
    block.len() >= 1 && block.last() == crc8_of(block.drop_last())
}

/// Checks that the last byte of `block` is the 1-Wire CRC-8 of the others.
/// An empty block has no trailer and is refused.
pub fn crc8_check(block: &[u8]) -> (r: bool)
    ensures
        r == crc8_trailer_ok(block@),
{
    if block.len() == 0 {
        false
    } else {
        onewire_crc_validate(block)
    }
}

/// The CRC-32 of `bytes`.
pub fn crc32(bytes: &[u8]) -> (r: u32)
    ensures
        r == crc32_of(bytes@),
{
    crc32fast_hash(bytes)
}

} // verus!
