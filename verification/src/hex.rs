//! Hex arithmetic: nibbles, bytes and their ASCII hexadecimal digits.
//!
//! Digits are read in either case and written in upper case. The model of a
//! digit is its value below 16 ([`hex_digit_value`]), the model of a digit
//! string is the number it denotes ([`hex_number`]), and the model of a hex
//! dump is the byte sequence it spells ([`hex_bytes`]).

use crate::error::SlcanError;
use vstd::arithmetic::div_mod::lemma_fundamental_div_mod;
use vstd::arithmetic::div_mod::lemma_mod_multiples_vanish;
use vstd::arithmetic::power::{lemma_pow_increases, pow};
use vstd::prelude::*;

verus! {

/// The uppercase hexadecimal alphabet, indexed by nibble value.
pub const HEX_LUT: [u8; 16] = [
    0x30, 0x31, 0x32, 0x33, 0x34, 0x35, 0x36, 0x37,
    0x38, 0x39, 0x41, 0x42, 0x43, 0x44, 0x45, 0x46,
];

/// Whether `c` is an ASCII hexadecimal digit, of either case.
pub open spec fn is_hex_digit(c: u8) -> bool {
    ||| '0' as u8 <= c <= '9' as u8
    ||| 'A' as u8 <= c <= 'F' as u8
    ||| 'a' as u8 <= c <= 'f' as u8
}

/// The value, below 16, that the hexadecimal digit `c` stands for.
pub open spec fn hex_digit_value(c: u8) -> nat
    recommends
        is_hex_digit(c),
{
    if c <= '9' as u8 {
        (c - '0' as u8) as nat
    } else if c <= 'F' as u8 {
        (c - 'A' as u8 + 10) as nat
    } else {
        (c - 'a' as u8 + 10) as nat
    }
}

/// Whether every byte of `s` is a hexadecimal digit.
pub open spec fn all_hex_digits(s: Seq<u8>) -> bool {
    forall|i: int| 0 <= i < s.len() ==> is_hex_digit(#[trigger] s[i])
}

/// The number that the digit string `s` denotes, most significant digit first.
pub open spec fn hex_number(s: Seq<u8>) -> nat
    recommends
        all_hex_digits(s),
    decreases s.len(),
{
    if s.len() == 0 {
        0
    } else {
        16 * hex_number(s.drop_last()) + hex_digit_value(s.last())
    }
}

/// The bytes that the hex dump `s` spells: two digits to a byte, high nibble
/// first. A trailing odd digit is left out.
pub open spec fn hex_bytes(s: Seq<u8>) -> Seq<u8>
    recommends
        all_hex_digits(s),
{
    Seq::new(
        s.len() / 2,
        |i: int| (16 * hex_digit_value(s[2 * i]) + hex_digit_value(s[2 * i + 1])) as u8,
    )
}

/// The uppercase ASCII digit of the nibble `n`.
pub open spec fn hex_digit(n: nat) -> u8
    recommends
        n < 16,
{
    if n < 10 {
        ('0' as u8 + n) as u8
    } else {
        ('A' as u8 + n - 10) as u8
    }
}

/// The three digits of the low twelve bits of `value`, most significant first.
pub open spec fn three_hex_digits(value: u32) -> Seq<u8> {
    seq![
        hex_digit((value as nat / 256) % 16),
        hex_digit((value as nat / 16) % 16),
        hex_digit(value as nat % 16),
    ]
}

/// The hex dump of `data`: two uppercase digits to a byte, high nibble first.
pub open spec fn hex_string(data: Seq<u8>) -> Seq<u8> {
    Seq::new(
        2 * data.len(),
        |i: int|
            if i % 2 == 0 {
                hex_digit(data[i / 2] as nat / 16)
            } else {
                hex_digit(data[i / 2] as nat % 16)
            },
    )
}

/// What [`hex_digit_to_value`] makes of the byte `c`.
pub open spec fn parse_hex_digit(c: u8) -> Result<u8, SlcanError> {
    if is_hex_digit(c) {
        Ok(hex_digit_value(c) as u8)
    } else {
        Err(SlcanError::InvalidHexDigit)
    }
}

/// What [`two_hex_digits_to_byte`] makes of the first two bytes of `s`.
pub open spec fn parse_hex_byte(s: Seq<u8>) -> Result<u8, SlcanError>
    recommends
        s.len() >= 2,
{
    if is_hex_digit(s[0]) && is_hex_digit(s[1]) {
        Ok((16 * hex_digit_value(s[0]) + hex_digit_value(s[1])) as u8)
    } else {
        Err(SlcanError::InvalidHexDigit)
    }
}

/// What [`hex_digits_to_u32`] makes of the digit string `s`: the number it
/// denotes, cut to 32 bits.
pub open spec fn parse_hex_u32(s: Seq<u8>) -> Result<u32, SlcanError> {
    if all_hex_digits(s) {
        Ok((hex_number(s) % 0x1_0000_0000) as u32)
    } else {
        Err(SlcanError::InvalidHexDigit)
    }
}

/// Reads one ASCII hex digit, of either case.
pub fn hex_digit_to_value(s: u8) -> (r: Result<u8, SlcanError>)
    ensures
        r == parse_hex_digit(s),
{
    if s >= '0' as u8 && s <= '9' as u8 {
        Ok(s - '0' as u8)
    } else if s >= 'a' as u8 && s <= 'f' as u8 {
        Ok(s - 'a' as u8 + 10)
    } else if s >= 'A' as u8 && s <= 'F' as u8 {
        Ok(s - 'A' as u8 + 10)
    } else {
        Err(SlcanError::InvalidHexDigit)
    }
}

/// Reads a byte from the two hex digits at the front of `s`, high nibble first.
pub fn two_hex_digits_to_byte(s: &[u8]) -> (r: Result<u8, SlcanError>)
    requires
        s@.len() >= 2,
    ensures
        r == parse_hex_byte(s@),
{
    let msn = match hex_digit_to_value(s[0]) {
        Ok(v) => v,
        Err(e) => return Err(e),
    };
    let lsn = match hex_digit_to_value(s[1]) {
        Ok(v) => v,
        Err(e) => return Err(e),
    };
    assert((msn << 4) | lsn == 16 * msn + lsn) by (bit_vector)
        requires
            msn < 16,
            lsn < 16,
    ;
    Ok((msn << 4) | lsn)
}

/// Reads a number from a string of hex digits, most significant first. Each
/// digit shifts the number left by four bits, so of a string of more than
/// eight digits only the last eight count.
pub fn hex_digits_to_u32(buf: &[u8]) -> (r: Result<u32, SlcanError>)
    ensures
        r == parse_hex_u32(buf@),
{
    let mut value: u32 = 0;
    let mut i: usize = 0;
    while i < buf.len()
        invariant
            i <= buf@.len(),
            all_hex_digits(buf@.take(i as int)),
            value == hex_number(buf@.take(i as int)) % 0x1_0000_0000,
        decreases buf@.len() - i,
    {
        let digit = match hex_digit_to_value(buf[i]) {
            Ok(v) => v,
            Err(e) => {
                assert(!is_hex_digit(buf@[i as int]));
                return Err(e);
            },
        };
        let shifted: u32 = (value << 4) | (digit as u32);
        proof {
            let prefix = buf@.take(i as int);
            let longer = buf@.take(i + 1);
            assert(longer.drop_last() == prefix);
            assert(longer.last() == buf@[i as int]);
            assert(all_hex_digits(longer)) by {
                assert forall|k: int| 0 <= k < longer.len() implies is_hex_digit(
                    #[trigger] longer[k],
                ) by {
                    if k < i {
                        assert(longer[k] == prefix[k]);
                    }
                }
            }
            assert(shifted == (16 * (value as int) + digit as int) % 0x1_0000_0000) by (bit_vector)
                requires
                    digit < 16,
                    shifted == (value << 4) | (digit as u32),
            ;
            lemma_shift_in_digit(hex_number(prefix), digit as nat);
        }
        value = shifted;
        i += 1;
    }
    assert(buf@.take(i as int) == buf@);
    Ok(value)
}

/// The uppercase ASCII digit of the low four bits of `value`.
pub fn value_to_hex_digit(value: u32) -> (c: u8)
    ensures
        c == hex_digit(value as nat % 16),
{
    assert(value & 0xF == value % 16) by (bit_vector);
    HEX_LUT[(value & 0xF) as usize]
}

/// Writes the low twelve bits of `value` as three hex digits. Higher bits are
/// dropped.
pub fn u32_to_three_hex_digits(value: u32) -> (r: [u8; 3])
    ensures
        r@ == three_hex_digits(value),
{
    assert((value >> 8) % 16 == (value / 256) % 16) by (bit_vector);
    assert((value >> 4) % 16 == (value / 16) % 16) by (bit_vector);
    assert((value >> 0) == value) by (bit_vector);
    let r = [
        value_to_hex_digit(value >> 8),
        value_to_hex_digit(value >> 4),
        value_to_hex_digit(value >> 0),
    ];
    assert(r@ =~= three_hex_digits(value));
    r
}

/// Writes each byte of `data` as two hex digits, high nibble first, in order.
pub fn bytes_to_hex(data: &[u8]) -> (r: Vec<u8>)
    ensures
        r@ == hex_string(data@),
        r@.len() == 2 * data@.len(),
{
    let mut buf: Vec<u8> = Vec::new();
    let mut i: usize = 0;
    while i < data.len()
        invariant
            i <= data@.len(),
            buf@ == hex_string(data@.take(i as int)),
        decreases data@.len() - i,
    {
        let byte = data[i];
        assert(((byte >> 4) as u32) % 16 == byte / 16) by (bit_vector);
        assert(((byte >> 0) as u32) % 16 == byte % 16) by (bit_vector);
        buf.push(value_to_hex_digit((byte >> 4) as u32));
        buf.push(value_to_hex_digit((byte >> 0) as u32));
        assert(buf@ =~= hex_string(data@.take(i + 1)));
        i += 1;
    }
    assert(data@.take(i as int) == data@);
    buf
}

/// Every nibble's digit is a hex digit that stands for the nibble.
pub proof fn lemma_hex_digit_inverse(n: nat)
    requires
        n < 16,
    ensures
        is_hex_digit(hex_digit(n)),
        hex_digit_value(hex_digit(n)) == n,
{
}

/// Reading back the hex dump of any byte sequence gives the sequence: the
/// dump consists of hex digits only, and it spells the bytes it was made from.
pub proof fn lemma_hex_string_inverse(data: Seq<u8>)
    ensures
        all_hex_digits(hex_string(data)),
        hex_bytes(hex_string(data)) == data,
{
    let dump = hex_string(data);
    assert forall|i: int| 0 <= i < dump.len() implies is_hex_digit(#[trigger] dump[i]) by {
        let byte = data[i / 2] as nat;
        lemma_hex_digit_inverse(byte / 16);
        lemma_hex_digit_inverse(byte % 16);
    }
    assert forall|k: int| 0 <= k < data.len() implies hex_bytes(dump)[k] == data[k] by {
        let byte = data[k] as nat;
        lemma_hex_digit_inverse(byte / 16);
        lemma_hex_digit_inverse(byte % 16);
        assert(dump[2 * k] == hex_digit(byte / 16));
        assert(dump[2 * k + 1] == hex_digit(byte % 16));
    }
    assert(hex_bytes(dump) =~= data);
}

/// Writing a byte as two hex digits and reading the two digits gives the byte.
pub proof fn lemma_hex_byte_round_trip(b: u8)
    ensures
        parse_hex_byte(hex_string(seq![b])) == Ok::<u8, SlcanError>(b),
{
    let dump = hex_string(seq![b]);
    lemma_hex_digit_inverse(b as nat / 16);
    lemma_hex_digit_inverse(b as nat % 16);
    assert(dump[0] == hex_digit(b as nat / 16));
    assert(dump[1] == hex_digit(b as nat % 16));
}

/// A string of `n` hex digits denotes a number below `16^n`; one of at most
/// eight digits fits in 32 bits.
pub proof fn lemma_hex_number_bound(s: Seq<u8>)
    requires
        all_hex_digits(s),
    ensures
        hex_number(s) < pow(16, s.len()),
        s.len() <= 8 ==> hex_number(s) < 0x1_0000_0000,
    decreases s.len(),
{
    reveal(pow);
    if s.len() > 0 {
        let front = s.drop_last();
        assert forall|i: int| 0 <= i < front.len() implies is_hex_digit(#[trigger] front[i]) by {
            assert(front[i] == s[i]);
        }
        lemma_hex_number_bound(front);
        assert(is_hex_digit(s.last()));
        assert(pow(16, s.len()) == 16 * pow(16, front.len()));
    }
    if s.len() <= 8 {
        lemma_pow_increases(16, s.len(), 8);
        assert(pow(16, 8) == 0x1_0000_0000) by {
            reveal_with_fuel(pow, 9);
        }
    }
}

/// Reading back the three digits of a value gives its low twelve bits.
pub proof fn lemma_three_hex_digits_inverse(value: u32)
    ensures
        all_hex_digits(three_hex_digits(value)),
        hex_number(three_hex_digits(value)) == value % 0x1000,
        parse_hex_u32(three_hex_digits(value)) == Ok::<u32, SlcanError>((value % 0x1000) as u32),
{
    let high = (value as nat / 256) % 16;
    let mid = (value as nat / 16) % 16;
    let low = value as nat % 16;
    let digits = three_hex_digits(value);
    lemma_hex_digit_inverse(high);
    lemma_hex_digit_inverse(mid);
    lemma_hex_digit_inverse(low);
    assert(all_hex_digits(digits));
    let two = digits.drop_last();
    let one = two.drop_last();
    assert(two.last() == hex_digit(mid));
    assert(one.last() == hex_digit(high));
    assert(one.drop_last().len() == 0);
    assert(hex_number(one) == high) by {
        reveal_with_fuel(hex_number, 2);
    }
    assert(hex_number(two) == 16 * high + mid);
    assert(hex_number(digits) == 16 * (16 * high + mid) + low);
    assert(256 * ((value / 256) % 16) + 16 * ((value / 16) % 16) + value % 16 == value % 0x1000)
        by (bit_vector);
}

/// Appending a digit to a number and cutting to 32 bits gives the same as
/// cutting first, appending, and cutting again.
proof fn lemma_shift_in_digit(n: nat, d: nat)
    ensures
        (16 * (n % 0x1_0000_0000) + d) % 0x1_0000_0000 == (16 * n + d) % 0x1_0000_0000,
{
    let m = 0x1_0000_0000int;
    let q = n as int / m;
    lemma_fundamental_div_mod(n as int, m);
    assert(16 * n + d == m * (16 * q) + (16 * (n as int % m) + d)) by (nonlinear_arith)
        requires
            n == m * q + (n as int % m),
    ;
    lemma_mod_multiples_vanish(16 * q, 16 * (n as int % m) + d, m);
}

} // verus!
