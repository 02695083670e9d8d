//! The two raw checksum primitives: explicit header bytes and a payload in,
//! one checksum value out.

use crate::sum::{byte_sum, lemma_byte_sum_prefix, lemma_byte_sum_step};
use vstd::prelude::*;

verus! {

/// The wide checksum: header bytes, length byte and payload, added as
/// mathematical integers.
pub open spec fn wide_checksum(idh: u8, idl: u8, len: u8, data: Seq<u8>) -> nat {
    idh as nat + idl as nat + len as nat + byte_sum(data)
}

/// The narrow checksum: the same terms, added modulo 256.
pub open spec fn narrow_checksum(idh: u8, idl: u8, len: u8, data: Seq<u8>) -> u8 {
    ((idh + idl + len + byte_sum(data)) % 256) as u8
}

/// The narrow checksum is the low byte of the wide one.
pub proof fn lemma_narrow_is_low_byte_of_wide(idh: u8, idl: u8, len: u8, data: Seq<u8>)
    ensures
        narrow_checksum(idh, idl, len, data) == wide_checksum(idh, idl, len, data) % 256,
{
}

/// Computes the narrow checksum of a payload under the given header bytes.
///
/// `len` is the length byte that the frame declares. It is added as given and
/// is not compared with the length of `data`.
pub fn ioactive_checksum(idh: u8, idl: u8, len: u8, data: &[u8]) -> (checksum: u8)
    ensures
        checksum == narrow_checksum(idh, idl, len, data@),
        checksum == (idh + idl + len + byte_sum(data@)) % 256,
{
    let mut data_sum: u8 = 0;
    let mut i: usize = 0;
    while i < data.len()
        invariant
            i <= data.len(),
            data_sum == byte_sum(data@.take(i as int)) % 256,
        decreases data.len() - i,
    {
        proof {
            lemma_byte_sum_step(data@, i as int);
        }
        data_sum = data_sum.wrapping_add(data[i]);
        i += 1;
    }
    assert(data@.take(data.len() as int) =~= data@);
    idh.wrapping_add(idl).wrapping_add(len).wrapping_add(data_sum)
}

/// Computes the wide checksum of a payload under the given header bytes.
///
/// Nothing wraps: the result is the true sum, which therefore has to fit in
/// 64 bits. Any payload of fewer than 2^56 bytes meets that.
pub fn ioactive_checksum_unwrapped(idh: u8, idl: u8, len: u8, data: &[u8]) -> (checksum: u64)
    requires
        wide_checksum(idh, idl, len, data@) <= u64::MAX,
    ensures
        checksum == wide_checksum(idh, idl, len, data@),
        checksum == idh + idl + len + byte_sum(data@),
{
    let mut data_sum: u64 = 0;
    let mut i: usize = 0;
    while i < data.len()
        invariant
            i <= data.len(),
            data_sum == byte_sum(data@.take(i as int)),
            byte_sum(data@) <= u64::MAX,
        decreases data.len() - i,
    {
        proof {
            lemma_byte_sum_step(data@, i as int);
            lemma_byte_sum_prefix(data@, i + 1);
        }
        data_sum = data_sum + data[i] as u64;
        i += 1;
    }
    assert(data@.take(data.len() as int) =~= data@);
    idh as u64 + idl as u64 + len as u64 + data_sum
}

} // verus!
