//! Errors of the decoder.

use vstd::prelude::*;

verus! {

/// What can go wrong between the serial line and a decoded request.
#[derive(Debug, Clone, Copy, PartialEq, Eq, Structural)]
pub enum Error {
    /// A frame was received in full and its checksum does not match.
    Crc,
    /// The function code is none of those the decoder understands, so the
    /// length of the frame cannot be known.
    UnknownFunction(u8),
    /// The ring had no room for a received chunk; the chunk was dropped.
    Overflow,
}

} // verus!
