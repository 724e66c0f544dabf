//! The checksum of a frame.

use vstd::prelude::*;

verus! {

/// The CRC-16 of `data` in the Modbus variant, as the `crc16` crate computes
/// it: a function of the bytes alone.
pub uninterp spec fn modbus_crc(data: Seq<u8>) -> u16;

/// Calls `crc16::State::<crc16::MODBUS>::calculate`. Trusted: the result is
/// the checksum that `modbus_crc` names, which depends on nothing but the
/// bytes handed in.
#[verifier::external_body]
pub(crate) fn crc16_modbus(data: &[u8]) -> (crc: u16)
    ensures
        crc == modbus_crc(data@),
{
    crc16::State::<crc16::MODBUS>::calculate(data)
}

/// A frame is intact when the checksum over all of it, its two trailing
/// checksum bytes included, is zero.
pub open spec fn crc_intact(frame: Seq<u8>) -> bool {
    modbus_crc(frame) == 0
}

/// Returns true if the CRC matches the data.
///
/// Expects the last two bytes of the data to be the CRC.
pub fn crc_valid(data: &[u8]) -> (valid: bool)
    ensures
        valid == crc_intact(data@),
{
    crc16_modbus(data) == 0
}

} // verus!
