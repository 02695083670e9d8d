//! Data fields written as hexadecimal text: two digits per byte, the high
//! nibble first, in either case, with no prefix and no separators.
//!
//! The text is taken as the bytes of its UTF-8 encoding, so a character
//! outside ASCII is never a digit.

use crate::error::ChecksumError;
use crate::frame::{comma_input, narrow_frame_checksum, nelson_input, wide_frame_checksum, Variant};
use vstd::prelude::*;
use vstd::string::{is_ascii, StringSliceAdditionalSpecFns};
use vstd::utf8::{
    encode_scalar, encode_utf8, has_width_1_encoding, is_ascii_chars, is_ascii_chars_encode_utf8,
    leading_byte_width_2, leading_byte_width_3, leading_byte_width_4,
};

verus! {

/// Whether `c` is the ASCII code of a hexadecimal digit: `0` to `9`, `A` to
/// `F` or `a` to `f`.
pub open spec fn is_hex_digit(c: u8) -> bool {
    ||| 0x30 <= c <= 0x39
    ||| 0x41 <= c <= 0x46
    ||| 0x61 <= c <= 0x66
}

/// The value of a hexadecimal digit, from 0 to 15. What is no digit counts as 0.
pub open spec fn hex_digit_value(c: u8) -> nat {
    if 0x30 <= c <= 0x39 {
        (c - 0x30) as nat
    } else if 0x41 <= c <= 0x46 {
        (c - 0x41 + 10) as nat
    } else if 0x61 <= c <= 0x66 {
        (c - 0x61 + 10) as nat
    } else {
        0
    }
}

/// Whether `text` is an even number of hexadecimal digits and nothing else.
pub open spec fn is_hex_text(text: Seq<u8>) -> bool {
    &&& text.len() % 2 == 0
    &&& forall|i: int| 0 <= i < text.len() ==> is_hex_digit(#[trigger] text[i])
}

/// The bytes that `text` stands for: one for each pair of digits, the first
/// digit of a pair being the high nibble.
pub open spec fn hex_value(text: Seq<u8>) -> Seq<u8> {
    Seq::new(
        text.len() / 2,
        |i: int| (16 * hex_digit_value(text[2 * i]) + hex_digit_value(text[2 * i + 1])) as u8,
    )
}

/// The ASCII code of the hexadecimal digit for `nibble`, a value below 16, in
/// upper or lower case.
pub open spec fn hex_digit(nibble: nat, upper: bool) -> u8 {
    if nibble < 10 {
        (0x30 + nibble) as u8
    } else if upper {
        (0x41 + nibble - 10) as u8
    } else {
        (0x61 + nibble - 10) as u8
    }
}

/// The hexadecimal text of `bytes`: two digits per byte, the high nibble
/// first, all letters in the chosen case.
pub open spec fn hex_text(bytes: Seq<u8>, upper: bool) -> Seq<u8> {
    Seq::new(
        2 * bytes.len(),
        |i: int|
            if i % 2 == 0 {
                hex_digit((bytes[i / 2] / 16) as nat, upper)
            } else {
                hex_digit((bytes[i / 2] % 16) as nat, upper)
            },
    )
}

/// Writing bytes as hexadecimal text and reading the text back gives the
/// bytes again, whichever case the letters have.
pub proof fn lemma_hex_round_trip(bytes: Seq<u8>, upper: bool)
    ensures
        is_hex_text(hex_text(bytes, upper)),
        hex_value(hex_text(bytes, upper)) == bytes,
{
    let text = hex_text(bytes, upper);
    assert forall|i: int| 0 <= i < text.len() implies is_hex_digit(#[trigger] text[i]) by {
        let b = bytes[i / 2];
        assert(b / 16 < 16 && b % 16 < 16);
    }
    assert forall|i: int| 0 <= i < bytes.len() implies hex_value(text)[i] == bytes[i] by {
        let b = bytes[i];
        assert((2 * i) / 2 == i && (2 * i + 1) / 2 == i);
        assert(hex_digit_value(text[2 * i]) == b / 16);
        assert(hex_digit_value(text[2 * i + 1]) == b % 16);
    }
    assert(hex_value(text) =~= bytes);
}

/// The code of a character fits in 32 bits.
proof fn lemma_char_code_fits(c: char)
    ensures
        c as int == (c as u32) as int,
{
}

/// The first byte of a character's encoding is below 0x80 only for a
/// character of ASCII.
proof fn lemma_low_leading_byte_is_ascii(scalar: u32)
    requires
        encode_scalar(scalar)[0] < 0x80,
    ensures
        has_width_1_encoding(scalar),
{
    assert(leading_byte_width_2(scalar) >= 0x80) by (bit_vector);
    assert(leading_byte_width_3(scalar) >= 0x80) by (bit_vector);
    assert(leading_byte_width_4(scalar) >= 0x80) by (bit_vector);
}

/// Characters whose encoding holds no byte from 0x80 up are all ASCII.
proof fn lemma_low_bytes_are_ascii(chars: Seq<char>)
    requires
        forall|i: int| 0 <= i < encode_utf8(chars).len() ==> #[trigger] encode_utf8(chars)[i] < 0x80,
    ensures
        is_ascii_chars(chars),
    decreases chars.len(),
{
    if chars.len() > 0 {
        let head = encode_scalar(chars[0] as u32);
        let tail = encode_utf8(chars.drop_first());
        assert(encode_utf8(chars) == head + tail);
        assert(encode_utf8(chars)[0] == head[0]);
        lemma_low_leading_byte_is_ascii(chars[0] as u32);
        assert forall|i: int| 0 <= i < tail.len() implies #[trigger] tail[i] < 0x80 by {
            assert(encode_utf8(chars)[i + head.len()] == tail[i]);
        }
        lemma_low_bytes_are_ascii(chars.drop_first());
        assert forall|i: int| 0 <= i < chars.len() implies '\0' <= #[trigger] chars[i]
            <= '\u{7f}' by {
            if i > 0 {
                assert(chars[i] == chars.drop_first()[i - 1]);
            } else {
                lemma_char_code_fits(chars[0]);
            }
        }
    }
}

/// Hexadecimal text holds no character outside ASCII, so each of its bytes is
/// the code of one character: it is an even number of characters, each of them
/// a hexadecimal digit.
pub proof fn lemma_hex_text_is_ascii(text: &str)
    requires
        is_hex_text(text.spec_bytes()),
    ensures
        is_ascii(text),
        text@.len() % 2 == 0,
        text.spec_bytes() == Seq::new(text@.len(), |i: int| text@[i] as u8),
        forall|i: int| 0 <= i < text@.len() ==> is_hex_digit(#[trigger] text@[i] as u8),
{
    lemma_low_bytes_are_ascii(text@);
    is_ascii_chars_encode_utf8(text@);
    assert(text.spec_bytes() =~= Seq::new(text@.len(), |i: int| text@[i] as u8));
    assert forall|i: int| 0 <= i < text@.len() implies is_hex_digit(#[trigger] text@[i] as u8) by {
        assert(text@[i] as u8 == text.spec_bytes()[i]);
    }
}

/// The error of `hex::decode`. It is carried through unopened: the library
/// reports every such error as malformed text.
#[verifier::external_type_specification]
#[verifier::external_body]
pub struct ExFromHexError(hex::FromHexError);

/// Calls `hex::decode` on the bytes of a text.
///
/// Trusted, not proved: the call succeeds exactly on an even number of
/// hexadecimal digits, and then returns one byte per pair of digits, the first
/// digit of each pair as the high nibble. Nothing is claimed of the error.
#[verifier::external_body]
fn decode_hex(text: &[u8]) -> (decoded: Result<Vec<u8>, hex::FromHexError>)
    ensures
        decoded is Ok <==> is_hex_text(text@),
        decoded matches Ok(bytes) ==> bytes@ == hex_value(text@),
{
    hex::decode(text)
}

/// Reads a data field from hexadecimal text.
///
/// Text of odd length, or with anything but hexadecimal digits in it, is
/// refused as malformed.
pub fn hex_payload(data_string: &str) -> (result: Result<Vec<u8>, ChecksumError>)
    ensures
        match result {
            Ok(bytes) => is_hex_text(data_string.spec_bytes()) && bytes@ == hex_value(
                data_string.spec_bytes(),
            ),
            Err(e) => !is_hex_text(data_string.spec_bytes()) && e == ChecksumError::MalformedHex,
        },
{
    match decode_hex(data_string.as_bytes()) {
        Ok(bytes) => Ok(bytes),
        Err(_) => Err(ChecksumError::MalformedHex),
    }
}

/// Computes the narrow checksum of a frame whose data field is written as
/// hexadecimal text.
///
/// Malformed text is refused, and so is a data field too short to hold the
/// checksum byte.
pub fn copy_paste_input(address: u16, data_string: &str) -> (result: Result<u8, ChecksumError>)
    ensures
        match result {
            Ok(checksum) => {
                &&& is_hex_text(data_string.spec_bytes())
                &&& Variant::Narrow.fits(hex_value(data_string.spec_bytes()))
                &&& checksum == narrow_frame_checksum(
                    address,
                    hex_value(data_string.spec_bytes()),
                )
            },
            Err(ChecksumError::MalformedHex) => !is_hex_text(data_string.spec_bytes()),
            Err(ChecksumError::PayloadTooShort) => {
                &&& is_hex_text(data_string.spec_bytes())
                &&& !Variant::Narrow.fits(hex_value(data_string.spec_bytes()))
            },
        },
{
    match hex_payload(data_string) {
        Ok(decoded_bytes) => {
            if Variant::Narrow.accepts(decoded_bytes.as_slice()) {
                Ok(comma_input(address, decoded_bytes.as_slice()))
            } else {
                Err(ChecksumError::PayloadTooShort)
            }
        },
        Err(e) => Err(e),
    }
}

/// Computes the wide checksum of a frame whose data field is written as
/// hexadecimal text.
///
/// Malformed text is refused, and so is a data field too short to hold the
/// four trailing bytes.
pub fn copy_paste_nelson_input(address: u16, data_string: &str) -> (result: Result<
    u64,
    ChecksumError,
>)
    ensures
        match result {
            Ok(checksum) => {
                &&& is_hex_text(data_string.spec_bytes())
                &&& Variant::Wide.fits(hex_value(data_string.spec_bytes()))
                &&& checksum == wide_frame_checksum(address, hex_value(data_string.spec_bytes()))
            },
            Err(ChecksumError::MalformedHex) => !is_hex_text(data_string.spec_bytes()),
            Err(ChecksumError::PayloadTooShort) => {
                &&& is_hex_text(data_string.spec_bytes())
                &&& !Variant::Wide.fits(hex_value(data_string.spec_bytes()))
            },
        },
{
    match hex_payload(data_string) {
        Ok(decoded_bytes) => {
            if Variant::Wide.accepts(decoded_bytes.as_slice()) {
                Ok(nelson_input(address, decoded_bytes.as_slice()))
            } else {
                Err(ChecksumError::PayloadTooShort)
            }
        },
        Err(e) => Err(e),
    }
}

} // verus!
