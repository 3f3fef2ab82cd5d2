use wasabi::bits::extract_bits;
use wasabi::bits::extract_bits_from_le_bytes;

#[test]
fn extract_bits_tests() {
    assert_eq!(extract_bits((30u32 << 24) as u64, 24, 8), 30u64);
    assert_eq!(extract_bits(0x123u64, 0, 12), 0x123u64);
    assert_eq!(extract_bits(0x123u64, 4, 12), 0x12u64);
    assert_eq!(extract_bits(0x123u64, 4, 8), 0x12u64);
    assert_eq!(extract_bits(0x123u64, 4, 4), 0x2u64);
    assert_eq!(extract_bits(0x123u64, 4, 0), 0x0u64);
    assert_eq!(extract_bits(0x1234_5678_1234_5678u64, 60, 4), 0x1u64);
    assert_eq!(extract_bits(0x1234_5678_1234_5678u64, 64, 0), 0x0u64);
    assert_eq!(extract_bits(0x1234_5678_1234_5678u64, 0, 64), 0x1234_5678_1234_5678u64);
    assert_eq!(extract_bits(0x1234_5678_1234_5678u64, 0, 65), 0x1234_5678_1234_5678u64);
}

#[test]
fn extract_bits_from_le_bytes_tests() {
    assert_eq!(extract_bits_from_le_bytes(&[], 0, 0), None);
    assert_eq!(extract_bits_from_le_bytes(&[], 0, 1), None);
    assert_eq!(extract_bits_from_le_bytes(&[], 1, 0), None);
    assert_eq!(extract_bits_from_le_bytes(&[0b01010101, 0b10101010], 0, 0), None);
    assert_eq!(extract_bits_from_le_bytes(&[0b01010101, 0b10101010], 0, 8), Some(0b01010101));
    assert_eq!(extract_bits_from_le_bytes(&[0b01010101, 0b10101010], 8, 8), Some(0b10101010));
    assert_eq!(extract_bits_from_le_bytes(&[0b01010101, 0b10101010], 4, 8), Some(0b10100101));
}

#[test]
fn extract_bits_full_width_keeps_top_bit() {
    assert_eq!(extract_bits(u64::MAX, 0, 64), u64::MAX);
    assert_eq!(extract_bits(0x8000_0000_0000_0001u64, 0, 100), 0x8000_0000_0000_0001u64);
    assert_eq!(extract_bits(0x8000_0000_0000_0001u64, 63, 64), 1);
}

#[test]
fn extract_bits_shift_past_width_is_zero() {
    assert_eq!(extract_bits(u64::MAX, 64, 8), 0);
    assert_eq!(extract_bits(u64::MAX, 1000, 64), 0);
    assert_eq!(extract_bits(u64::MAX, usize::MAX, 64), 0);
}

#[test]
fn extract_bits_matches_shift_and_mask() {
    let v = 0xDEAD_BEEF_0123_4567u64;
    for shift in 0..64usize {
        for width in 0..64usize {
            let expected = (v >> shift) & ((1u64 << width) - 1);
            assert_eq!(extract_bits(v, shift, width), expected);
        }
        assert_eq!(extract_bits(v, shift, 64), v >> shift);
    }
}

#[test]
fn le_bytes_none_when_range_exceeds_buffer() {
    // bits 4..20 need three bytes
    assert_eq!(extract_bits_from_le_bytes(&[0xff, 0xff], 4, 16), None);
    assert_eq!(extract_bits_from_le_bytes(&[0x21, 0x43, 0x65], 4, 16), Some(0x5432));
    assert_eq!(extract_bits_from_le_bytes(&[0x01], usize::MAX, 1), None);
    assert_eq!(extract_bits_from_le_bytes(&[0x01], 0, usize::MAX), None);
}

#[test]
fn le_bytes_equals_extract_bits_of_le_integer() {
    let bytes = [0x78u8, 0x56, 0x34, 0x12, 0xef, 0xcd, 0xab, 0x90];
    let v = u64::from_le_bytes(bytes);
    for shift in 0..64usize {
        for width in 1..=(64 - shift) {
            let covered_start = shift / 8;
            let r = extract_bits_from_le_bytes(&bytes, shift, width);
            let expected = extract_bits(v >> (covered_start * 8), shift % 8, width);
            assert_eq!(r, Some(expected));
        }
    }
}

#[test]
fn le_bytes_spanning_nine_bytes() {
    let bytes = [0x0fu8, 0x12, 0x34, 0x56, 0x78, 0x9a, 0xbc, 0xde, 0xa5];
    // bits 4..68
    assert_eq!(extract_bits_from_le_bytes(&bytes, 4, 64), Some(0x5deb_c9a7_8563_4120));
}

#[test]
fn le_bytes_wide_request_keeps_low_64_bits() {
    let bytes = [0x11u8, 0x22, 0x33, 0x44, 0x55, 0x66, 0x77, 0x88, 0x99, 0xaa, 0xbb, 0xcc];
    assert_eq!(extract_bits_from_le_bytes(&bytes, 8, 88), Some(0x9988_7766_5544_3322));
    assert_eq!(extract_bits_from_le_bytes(&bytes, 8, 89), None);
}
