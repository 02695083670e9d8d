//! The frame adapters: a message identifier and the whole data field of a
//! frame in, the checksum that the frame should carry out.
//!
//! The identifier is split into its high and low byte. The length byte is the
//! length of the data field, kept to eight bits. The trailing bytes of the data
//! field, which hold the checksum itself, are left out of the sum.

use crate::checksum::{
    ioactive_checksum, ioactive_checksum_unwrapped, narrow_checksum, wide_checksum,
};
use crate::error::ChecksumError;
use crate::sum::{lemma_byte_sum_bound, lemma_byte_sum_update};
use vstd::prelude::*;

verus! {

/// The high byte of a message identifier.
pub open spec fn id_high(address: u16) -> u8 {
    (address / 256) as u8
}

/// The low byte of a message identifier.
pub open spec fn id_low(address: u16) -> u8 {
    (address % 256) as u8
}

/// The length byte of a frame: the length of its data field modulo 256.
pub open spec fn declared_len(data: Seq<u8>) -> u8 {
    (data.len() % 256) as u8
}

/// The two checksum algorithms. Each pairs one raw primitive with the number
/// of trailing bytes that it leaves out of the sum.
#[derive(Clone, Copy, Debug, PartialEq, Eq, Structural)]
pub enum Variant {
    /// Sum modulo 256; the last byte of the data field is the checksum.
    Narrow,
    /// Sum without wrapping; the last four bytes of the data field are set
    /// aside.
    Wide,
}

impl Variant {
    /// The number of trailing bytes that this algorithm leaves out of the sum.
    pub open spec fn trim(self) -> nat {
        match self {
            Variant::Narrow => 1,
            Variant::Wide => 4,
        }
    }

    /// Whether the length byte of `data` covers the trailing bytes.
    pub open spec fn fits(self, data: Seq<u8>) -> bool {
        declared_len(data) >= self.trim()
    }

    /// The bytes of `data` that enter the sum: those that the length byte
    /// counts, less the trailing ones.
    pub open spec fn summed_payload(self, data: Seq<u8>) -> Seq<u8> {
        data.take(declared_len(data) - self.trim())
    }

    /// The checksum of a frame under this algorithm.
    pub open spec fn frame_checksum(self, address: u16, data: Seq<u8>) -> nat {
        match self {
            Variant::Narrow => narrow_frame_checksum(address, data) as nat,
            Variant::Wide => wide_frame_checksum(address, data),
        }
    }

    /// Returns the number of trailing bytes that this algorithm leaves out of
    /// the sum: 1 for the narrow one, 4 for the wide one.
    pub fn trim_count(self) -> (count: u8)
        ensures
            count == self.trim(),
    {
        match self {
            Variant::Narrow => 1,
            Variant::Wide => 4,
        }
    }

    /// Tells whether `data` is long enough for this algorithm.
    pub fn accepts(self, data: &[u8]) -> (ok: bool)
        ensures
            ok == self.fits(data@),
    {
        (data.len() % 256) as u8 >= self.trim_count()
    }

    /// Computes the checksum of a frame under this algorithm, or refuses a
    /// data field that is too short for it.
    pub fn checksum(self, address: u16, data: &[u8]) -> (result: Result<u64, ChecksumError>)
        ensures
            match result {
                Ok(sum) => self.fits(data@) && sum == self.frame_checksum(address, data@),
                Err(e) => !self.fits(data@) && e == ChecksumError::PayloadTooShort,
            },
    {
        if !self.accepts(data) {
            return Err(ChecksumError::PayloadTooShort);
        }
        match self {
            Variant::Narrow => Ok(comma_input(address, data) as u64),
            Variant::Wide => {
                proof {
                    lemma_wide_frame_checksum_bound(address, data@);
                }
                Ok(nelson_input(address, data))
            },
        }
    }
}

/// The narrow checksum of a frame.
pub open spec fn narrow_frame_checksum(address: u16, data: Seq<u8>) -> u8 {
    narrow_checksum(
        id_high(address),
        id_low(address),
        declared_len(data),
        Variant::Narrow.summed_payload(data),
    )
}

/// The wide checksum of a frame.
pub open spec fn wide_frame_checksum(address: u16, data: Seq<u8>) -> nat {
    wide_checksum(
        id_high(address),
        id_low(address),
        declared_len(data),
        Variant::Wide.summed_payload(data),
    )
}

/// The wide checksum of a frame sums at most 251 payload bytes and three
/// header bytes, so it is below 2^16.
pub proof fn lemma_wide_frame_checksum_bound(address: u16, data: Seq<u8>)
    requires
        Variant::Wide.fits(data),
    ensures
        wide_frame_checksum(address, data) <= 254 * 255,
{
    lemma_byte_sum_bound(Variant::Wide.summed_payload(data));
}

/// Two data fields of one length that agree on all but the trailing bytes
/// that `variant` leaves out have the same checksum under it.
pub proof fn lemma_trailing_bytes_ignored(variant: Variant, address: u16, a: Seq<u8>, b: Seq<u8>)
    requires
        variant.fits(a),
        a.len() == b.len(),
        forall|i: int| 0 <= i < a.len() - variant.trim() ==> a[i] == b[i],
    ensures
        variant.frame_checksum(address, a) == variant.frame_checksum(address, b),
{
    assert(variant.summed_payload(a) =~= variant.summed_payload(b));
}

/// The narrow adapter never sums the checksum byte: changing only the last
/// byte of the data field leaves the checksum as it was.
pub proof fn lemma_narrow_ignores_checksum_byte(address: u16, data: Seq<u8>, last: u8)
    requires
        Variant::Narrow.fits(data),
    ensures
        narrow_frame_checksum(address, data.update(data.len() - 1, last)) == narrow_frame_checksum(
            address,
            data,
        ),
{
    lemma_trailing_bytes_ignored(
        Variant::Narrow,
        address,
        data,
        data.update(data.len() - 1, last),
    );
}

/// The wide adapter never sums the last four bytes: putting any four bytes in
/// their place leaves the checksum as it was.
pub proof fn lemma_wide_ignores_trailing_field(address: u16, data: Seq<u8>, trailer: Seq<u8>)
    requires
        Variant::Wide.fits(data),
        trailer.len() == 4,
    ensures
        wide_frame_checksum(address, data.take(data.len() - 4) + trailer) == wide_frame_checksum(
            address,
            data,
        ),
{
    lemma_trailing_bytes_ignored(
        Variant::Wide,
        address,
        data,
        data.take(data.len() - 4) + trailer,
    );
}

/// In a data field of at most 255 bytes the length byte is the true length,
/// and the bytes summed are all but the trailing ones.
pub proof fn lemma_summed_payload_of_short_frame(variant: Variant, data: Seq<u8>)
    requires
        variant.fits(data),
        data.len() <= 255,
    ensures
        declared_len(data) == data.len(),
        variant.summed_payload(data) == data.take(data.len() - variant.trim()),
        variant.summed_payload(data).len() + variant.trim() == data.len(),
{
}

/// The wide adapter leaves out the last four bytes and no others: in a data
/// field of at most 255 bytes, replacing any earlier byte moves the checksum
/// by the difference of the two bytes.
pub proof fn lemma_wide_counts_each_summed_byte(address: u16, data: Seq<u8>, i: int, value: u8)
    requires
        Variant::Wide.fits(data),
        data.len() <= 255,
        0 <= i < data.len() - 4,
    ensures
        wide_frame_checksum(address, data.update(i, value)) + data[i] == wide_frame_checksum(
            address,
            data,
        ) + value,
{
    let summed = Variant::Wide.summed_payload(data);
    assert(Variant::Wide.summed_payload(data.update(i, value)) =~= summed.update(i, value));
    lemma_byte_sum_update(summed, i, value);
}

/// A data field of a single byte leaves nothing to sum: its narrow checksum is
/// the two identifier bytes plus the length byte 1, modulo 256.
pub proof fn lemma_narrow_single_byte_frame(address: u16, only: u8)
    ensures
        Variant::Narrow.fits(seq![only]),
        Variant::Narrow.summed_payload(seq![only]) == Seq::<u8>::empty(),
        narrow_frame_checksum(address, seq![only]) == (id_high(address) + id_low(address) + 1)
            % 256,
{
    assert(Variant::Narrow.summed_payload(seq![only]) =~= Seq::<u8>::empty());
}

/// Computes the narrow checksum of a frame from its identifier and its whole
/// data field, whose last byte is the place of the checksum.
pub fn comma_input(address: u16, data: &[u8]) -> (checksum: u8)
    requires
        Variant::Narrow.fits(data@),
    ensures
        checksum == narrow_frame_checksum(address, data@),
{
    let idh: u8 = (address / 256) as u8;
    let idl: u8 = (address % 256) as u8;
    let len: u8 = (data.len() % 256) as u8;
    let data_trimmed = &data[0..(len - 1) as usize];
    ioactive_checksum(idh, idl, len, data_trimmed)
}

/// Computes the wide checksum of a frame from its identifier and its whole
/// data field, whose last four bytes are set aside.
pub fn nelson_input(address: u16, data: &[u8]) -> (checksum: u64)
    requires
        Variant::Wide.fits(data@),
    ensures
        checksum == wide_frame_checksum(address, data@),
{
    let idh: u8 = (address / 256) as u8;
    let idl: u8 = (address % 256) as u8;
    let len: u8 = (data.len() % 256) as u8;
    let data_trimmed = &data[0..(len - 4) as usize];
    proof {
        lemma_wide_frame_checksum_bound(address, data@);
    }
    ioactive_checksum_unwrapped(idh, idl, len, data_trimmed)
}

} // verus!
