//! Integrity checksums for the frames of a controller-area-network bus, as the
//! steering controllers of driver-assistance systems compute them.
//!
//! A frame carries a 16-bit identifier and a data field whose last bytes hold
//! the checksum itself. Two algorithms are covered. The narrow one adds the two
//! identifier bytes, the length byte and the payload modulo 256 and leaves one
//! trailing byte out. The wide one adds the same terms without wrapping and
//! leaves four trailing bytes out.
//!
//! Every executable function states its result as a spec function of its
//! arguments, so equal arguments always give equal results.

pub mod checksum;
pub mod error;
pub mod frame;
pub mod hex_input;
pub mod sum;

pub use checksum::{ioactive_checksum, ioactive_checksum_unwrapped};
pub use error::ChecksumError;
pub use frame::{comma_input, nelson_input, Variant};
pub use hex_input::{copy_paste_input, copy_paste_nelson_input, hex_payload};
