use can_checksum::{ioactive_checksum, ioactive_checksum_unwrapped};

#[test]
fn test_ioactive_from_pdf() {
    assert_eq!((0x02 + 0xe4 + 0x05 + 0xf8) & 0xff, 0xe3);
}

#[test]
fn test_ioactive_rust_impl() {
    assert_eq!(ioactive_checksum(0x02, 0xe4, 0x05, &[0xf8, 0, 0, 0]), 0xe3);
}

#[test]
fn narrow_sum_of_nothing_is_zero() {
    assert_eq!(ioactive_checksum(0, 0, 0, &[]), 0);
}

#[test]
fn narrow_sum_of_empty_payload_is_the_header() {
    assert_eq!(ioactive_checksum(0x02, 0xe4, 0x01, &[]), 0xe7);
}

#[test]
fn narrow_sum_wraps_at_256() {
    assert_eq!(ioactive_checksum(0xff, 0x01, 0x00, &[]), 0x00);
    assert_eq!(ioactive_checksum(0xff, 0xff, 0xff, &[0xff]), 0xfc);
    assert_eq!(ioactive_checksum(0x00, 0x00, 0x00, &[0x80, 0x80, 0x01]), 0x01);
}

#[test]
fn narrow_sum_takes_the_length_byte_as_given() {
    let data: [u8; 2] = [1, 2];
    assert_eq!(ioactive_checksum(0, 0, 2, &data), 5);
    assert_eq!(ioactive_checksum(0, 0, 200, &data), 203);
}

#[test]
fn narrow_sum_is_the_total_modulo_256() {
    let mut data: Vec<u8> = Vec::new();
    let mut total: u32 = 0x12 + 0x34 + 0x56;
    for byte in 0u8..=255 {
        data.push(byte);
        total += u32::from(byte);
    }
    assert_eq!(total, 32796);
    assert_eq!(u32::from(ioactive_checksum(0x12, 0x34, 0x56, &data)), total % 256);
    assert_eq!(ioactive_checksum(0x12, 0x34, 0x56, &data), 0x1c);
}

#[test]
fn wide_sum_of_a_known_payload() {
    assert_eq!(ioactive_checksum_unwrapped(0x02, 0xe4, 0x05, &[0xf8, 0, 0, 0]), 0x1e3);
}

#[test]
fn wide_sum_does_not_wrap() {
    assert_eq!(ioactive_checksum_unwrapped(0xff, 0xff, 0xff, &[0xff]), 1020);
    let data: Vec<u8> = vec![0xff; 1000];
    assert_eq!(ioactive_checksum_unwrapped(0, 0, 0, &data), 255_000);
}

#[test]
fn wide_sum_of_nothing_is_zero() {
    assert_eq!(ioactive_checksum_unwrapped(0, 0, 0, &[]), 0);
}

#[test]
fn narrow_sum_is_the_low_byte_of_the_wide_sum() {
    let data: [u8; 5] = [0xa2, 0x00, 0x7f, 0x66, 0xe2];
    let wide: u64 = ioactive_checksum_unwrapped(0x02, 0xe4, 0x08, &data);
    assert_eq!(wide, 0x357);
    assert_eq!(u64::from(ioactive_checksum(0x02, 0xe4, 0x08, &data)), wide % 256);
}

#[test]
fn equal_arguments_give_equal_sums() {
    let data: [u8; 3] = [9, 8, 7];
    assert_eq!(
        ioactive_checksum(1, 2, 3, &data),
        ioactive_checksum(1, 2, 3, &data)
    );
    assert_eq!(
        ioactive_checksum_unwrapped(1, 2, 3, &data),
        ioactive_checksum_unwrapped(1, 2, 3, &data)
    );
    assert_eq!(ioactive_checksum(1, 2, 3, &data), 30);
    assert_eq!(ioactive_checksum_unwrapped(1, 2, 3, &data), 30);
}
