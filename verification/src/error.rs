//! The reasons for which a frame is refused.

use vstd::prelude::*;

verus! {

/// Why no checksum was computed.
#[derive(Clone, Copy, Debug, PartialEq, Eq, Structural)]
pub enum ChecksumError {
    /// The text is not an even number of hexadecimal digits.
    MalformedHex,
    /// The length byte of the data field is below the number of trailing
    /// bytes that the algorithm leaves out of the sum.
    PayloadTooShort,
}

} // verus!
