use from_base::base::{canonicalize, convert};

/// Digits of `n` in `radix`, most significant first, none for zero.
fn digits_of(mut n: u128, radix: u128) -> Vec<u8> {
    let mut digits = Vec::new();
    while n != 0 {
        digits.push((n % radix) as u8);
        n /= radix;
    }
    digits.reverse();
    digits
}

fn number_of(bytes: &[u8]) -> u128 {
    bytes.iter().fold(0u128, |acc, b| acc * 256 + u128::from(*b))
}

#[test]
fn two_digits_in_radix_256_give_two_bytes() {
    assert_eq!(convert(&[4, 0], 256, 16), vec![0x04, 0x00]);
}

#[test]
fn raw_digits_in_radix_21() {
    assert_eq!(convert(&[0x01, 0x0A, 0x17, 0x10], 21, 16), vec![0x37, 0x5A]);
}

#[test]
fn no_digits_give_no_bytes() {
    for radix in [1usize, 2, 10, 21, 256, 1000] {
        assert_eq!(convert(&[], radix, 16), Vec::<u8>::new());
    }
}

#[test]
fn zero_digits_give_no_bytes() {
    for radix in [1usize, 2, 10, 21, 256, 1000] {
        assert_eq!(convert(&[0, 0, 0], radix, 16), Vec::<u8>::new());
    }
}

#[test]
fn leading_zero_digits_add_nothing() {
    assert_eq!(convert(&[0, 0, 1, 0], 10, 16), vec![10]);
    assert_eq!(convert(&[1, 0], 10, 16), vec![10]);
}

#[test]
fn one_digit_is_its_own_byte() {
    assert_eq!(convert(&[5], 10, 16), vec![5]);
    assert_eq!(convert(&[255], 2, 16), vec![255]);
}

#[test]
fn decimal_digits() {
    // 65535 = 0xFFFF, 65536 = 0x010000
    assert_eq!(convert(&[6, 5, 5, 3, 5], 10, 16), vec![0xFF, 0xFF]);
    assert_eq!(convert(&[6, 5, 5, 3, 6], 10, 16), vec![0x01, 0x00, 0x00]);
}

#[test]
fn radix_above_256() {
    // 2 * 1000 + 3 = 2003 = 0x07D3
    assert_eq!(convert(&[2, 3], 1000, 16), vec![0x07, 0xD3]);
}

#[test]
fn digits_at_or_above_the_radix_count_in_full() {
    // 9 * 2 + 9 = 27
    assert_eq!(convert(&[9, 9], 2, 16), vec![27]);
}

#[test]
fn radix_one_adds_the_digits_up() {
    assert_eq!(convert(&[200, 100, 7], 1, 16), vec![0x01, 0x33]);
}

#[test]
fn radix_zero_keeps_the_last_digit() {
    assert_eq!(convert(&[7, 8, 9], 0, 16), vec![9]);
    assert_eq!(convert(&[7, 8, 0], 0, 16), Vec::<u8>::new());
}

#[test]
fn the_third_argument_changes_nothing() {
    assert_eq!(convert(&[1, 2, 3], 10, 2), convert(&[1, 2, 3], 10, 16));
    assert_eq!(convert(&[1, 2, 3], 10, 0), vec![123]);
}

#[test]
fn numbers_beyond_machine_words() {
    // 256^20 in radix 256 is a one followed by twenty zeros.
    let mut digits = vec![1u8];
    digits.extend(std::iter::repeat(0u8).take(20));
    assert_eq!(convert(&digits, 256, 16), digits);
    // 2^200 in radix 2: the byte 1 followed by 25 zero bytes.
    let mut bits = vec![1u8];
    bits.extend(std::iter::repeat(0u8).take(200));
    let mut expected = vec![1u8];
    expected.extend(std::iter::repeat(0u8).take(25));
    assert_eq!(convert(&bits, 2, 16), expected);
}

#[test]
fn round_trip_through_other_radices() {
    let samples: [&[u8]; 5] =
        [&[], &[1], &[0x12, 0x34, 0x56], &[0xFF, 0xFF, 0xFF, 0xFF], &[0x80, 0, 0, 0, 0, 0, 1]];
    for bytes in samples {
        for radix in [2u128, 3, 7, 10, 21, 64, 255, 256] {
            let digits = digits_of(number_of(bytes), radix);
            assert_eq!(convert(&digits, radix as usize, 16), bytes.to_vec());
        }
    }
}

#[test]
fn round_trip_in_a_radix_above_256() {
    // 0x0100 = 256 = 0 * 300 + 256 has no byte-sized digit in radix 300, but
    // 0x012D = 301 = 1 * 300 + 1 has.
    assert_eq!(convert(&[1, 1], 300, 16), vec![0x01, 0x2D]);
}

#[test]
fn larger_radix_never_shortens_the_output() {
    let digits = [1u8, 2, 3, 0, 200, 17];
    let mut last_len = 0;
    let mut last = Vec::new();
    for radix in 0usize..600 {
        let out = convert(&digits, radix, 16);
        assert!(out.len() >= last_len);
        // Same length: compare as numbers, byte by byte.
        assert!(out.len() > last.len() || out >= last);
        last_len = out.len();
        last = out;
    }
}

#[test]
fn output_is_canonical() {
    for radix in [2usize, 10, 256, 257] {
        let out = convert(&[0, 3, 0, 0, 9], radix, 16);
        assert!(!out.is_empty());
        assert_ne!(out[0], 0);
    }
}

#[test]
fn canonicalize_drops_leading_zeros_only() {
    assert_eq!(canonicalize(vec![0, 0, 4, 0, 0]), vec![4, 0, 0]);
    assert_eq!(canonicalize(vec![4, 0]), vec![4, 0]);
    assert_eq!(canonicalize(vec![0]), Vec::<u8>::new());
    assert_eq!(canonicalize(vec![0, 0, 0]), Vec::<u8>::new());
    assert_eq!(canonicalize(vec![]), Vec::<u8>::new());
    assert_eq!(canonicalize(vec![0, 1]), vec![1]);
}
