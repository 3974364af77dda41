use slcan::hex::{
    bytes_to_hex, hex_digit_to_value, hex_digits_to_u32, two_hex_digits_to_byte,
    u32_to_three_hex_digits, value_to_hex_digit, HEX_LUT,
};
use slcan::SlcanError;

#[test]
fn it_works() {
    assert_eq!(2 + 2, 4);
}

#[test]
fn decimal_digits_have_their_value() {
    for (value, digit) in b"0123456789".iter().enumerate() {
        assert_eq!(hex_digit_to_value(*digit), Ok(value as u8));
    }
}

#[test]
fn letters_of_either_case_have_their_value() {
    for (offset, digit) in b"abcdef".iter().enumerate() {
        assert_eq!(hex_digit_to_value(*digit), Ok(10 + offset as u8));
    }
    for (offset, digit) in b"ABCDEF".iter().enumerate() {
        assert_eq!(hex_digit_to_value(*digit), Ok(10 + offset as u8));
    }
}

#[test]
fn neighbours_of_the_digit_ranges_are_refused() {
    for byte in [b'/', b':', b'@', b'G', b'`', b'g', b' ', b'\r', 0x00, 0x07, 0x7F, 0xFF] {
        assert_eq!(hex_digit_to_value(byte), Err(SlcanError::InvalidHexDigit));
    }
}

#[test]
fn exactly_twenty_two_bytes_are_hex_digits() {
    let accepted = (0u8..=255).filter(|b| hex_digit_to_value(*b).is_ok()).count();
    assert_eq!(accepted, 22);
}

#[test]
fn two_digits_compose_high_nibble_first() {
    assert_eq!(two_hex_digits_to_byte(b"DE"), Ok(0xDE));
    assert_eq!(two_hex_digits_to_byte(b"de"), Ok(0xDE));
    assert_eq!(two_hex_digits_to_byte(b"0f"), Ok(0x0F));
    assert_eq!(two_hex_digits_to_byte(b"F0"), Ok(0xF0));
    assert_eq!(two_hex_digits_to_byte(b"00"), Ok(0x00));
    assert_eq!(two_hex_digits_to_byte(b"FF"), Ok(0xFF));
}

#[test]
fn two_digits_read_only_the_front_of_the_slice() {
    assert_eq!(two_hex_digits_to_byte(b"A5zz"), Ok(0xA5));
}

#[test]
fn two_digits_pass_the_nibble_failure_on() {
    assert_eq!(two_hex_digits_to_byte(b"G0"), Err(SlcanError::InvalidHexDigit));
    assert_eq!(two_hex_digits_to_byte(b"0G"), Err(SlcanError::InvalidHexDigit));
    assert_eq!(two_hex_digits_to_byte(b"\r\r"), Err(SlcanError::InvalidHexDigit));
}

#[test]
fn three_digits_make_an_identifier() {
    assert_eq!(hex_digits_to_u32(b"123"), Ok(0x123));
    assert_eq!(hex_digits_to_u32(b"000"), Ok(0));
    assert_eq!(hex_digits_to_u32(b"FFF"), Ok(0xFFF));
    assert_eq!(hex_digits_to_u32(b"7ff"), Ok(0x7FF));
    assert_eq!(hex_digits_to_u32(b"001"), Ok(1));
}

#[test]
fn an_invalid_identifier_digit_fails_wherever_it_stands() {
    assert_eq!(hex_digits_to_u32(b"Z23"), Err(SlcanError::InvalidHexDigit));
    assert_eq!(hex_digits_to_u32(b"1Z3"), Err(SlcanError::InvalidHexDigit));
    assert_eq!(hex_digits_to_u32(b"12Z"), Err(SlcanError::InvalidHexDigit));
}

#[test]
fn digit_strings_of_other_lengths_are_numbers_too() {
    assert_eq!(hex_digits_to_u32(b""), Ok(0));
    assert_eq!(hex_digits_to_u32(b"A"), Ok(10));
    assert_eq!(hex_digits_to_u32(b"DEADBEEF"), Ok(0xDEAD_BEEF));
}

#[test]
fn of_more_than_eight_digits_the_last_eight_count() {
    assert_eq!(hex_digits_to_u32(b"1DEADBEEF"), Ok(0xDEAD_BEEF));
    assert_eq!(hex_digits_to_u32(b"FFFF00000001"), Ok(1));
}

#[test]
fn nibbles_map_to_the_uppercase_alphabet() {
    let digits: Vec<u8> = (0u32..16).map(value_to_hex_digit).collect();
    assert_eq!(digits, b"0123456789ABCDEF".to_vec());
    assert_eq!(HEX_LUT.to_vec(), b"0123456789ABCDEF".to_vec());
}

#[test]
fn only_the_low_four_bits_choose_the_digit() {
    assert_eq!(value_to_hex_digit(0x1A), b'A');
    assert_eq!(value_to_hex_digit(0xFFFF_FFF0), b'0');
    assert_eq!(value_to_hex_digit(16), b'0');
}

#[test]
fn identifiers_are_written_as_three_digits() {
    assert_eq!(u32_to_three_hex_digits(0x123), *b"123");
    assert_eq!(u32_to_three_hex_digits(0), *b"000");
    assert_eq!(u32_to_three_hex_digits(0x7FF), *b"7FF");
    assert_eq!(u32_to_three_hex_digits(0xABC), *b"ABC");
}

#[test]
fn identifier_bits_above_the_twelfth_are_dropped() {
    assert_eq!(u32_to_three_hex_digits(0x12345), *b"345");
    assert_eq!(u32_to_three_hex_digits(0xFFFF_F000), *b"000");
    assert_eq!(u32_to_three_hex_digits(0x1000), *b"000");
}

#[test]
fn bytes_are_dumped_high_nibble_first_in_order() {
    assert_eq!(bytes_to_hex(&[0xDE, 0xAD]), b"DEAD".to_vec());
    assert_eq!(bytes_to_hex(&[0x01, 0x23, 0x45, 0x67, 0x89, 0xAB, 0xCD, 0xEF]), b"0123456789ABCDEF".to_vec());
    assert_eq!(bytes_to_hex(&[0x0F]), b"0F".to_vec());
}

#[test]
fn a_dump_is_twice_as_long_as_its_input() {
    assert_eq!(bytes_to_hex(&[]), Vec::<u8>::new());
    for len in 0..40usize {
        let data: Vec<u8> = (0..len).map(|i| (i * 7) as u8).collect();
        assert_eq!(bytes_to_hex(&data).len(), 2 * len);
    }
}

#[test]
fn every_byte_survives_the_way_to_hex_and_back() {
    for b in 0u8..=255 {
        let dump = bytes_to_hex(&[b]);
        assert_eq!(two_hex_digits_to_byte(&dump), Ok(b));
    }
}

#[test]
fn every_twelve_bit_value_survives_the_way_to_hex_and_back() {
    for value in 0u32..=0xFFF {
        let digits = u32_to_three_hex_digits(value);
        assert_eq!(hex_digits_to_u32(&digits), Ok(value));
    }
}

#[test]
fn every_nibble_survives_the_way_to_hex_and_back() {
    for value in 0u32..16 {
        assert_eq!(hex_digit_to_value(value_to_hex_digit(value)), Ok(value as u8));
    }
}
