//! The checksum that guards the binary signature format.

use vstd::prelude::*;

verus! {

/// The standard CRC-32 of a byte sequence. It is a pure function of the
/// bytes; the codec never needs its numeric value, only that encoder and
/// decoder compute the same one.
pub uninterp spec fn crc32_of(data: Seq<u8>) -> u32;

/// Relies on crc32fast::hash: the standard CRC-32 (IEEE polynomial) of
/// the given bytes, a pure function of its input.
#[verifier::external_body]
pub(crate) fn crc32_from(data: &[u8], start: usize) -> (r: u32)
    requires
        start <= data@.len(),
    ensures
        r == crc32_of(data@.skip(start as int)),
{
    crc32fast::hash(&data[start..])
}

} // verus!
