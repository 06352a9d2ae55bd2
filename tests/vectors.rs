use base64id::base64::{
    decode_i16, decode_i32, decode_i64, decode_partial_16, decode_partial_8, decode_str_i16,
    decode_str_i32, decode_str_i64, decode_str_u16, decode_str_u32, decode_str_u64, decode_u16,
    decode_u32, decode_u64, encode_i16, encode_i32, encode_i64, encode_partial_8, encode_u16,
    encode_u32, encode_u64,
};
use base64id::Error;

const ALPHABET: &str = "ABCDEFGHIJKLMNOPQRSTUVWXYZabcdefghijklmnopqrstuvwxyz0123456789-_";

fn chars<const N: usize>(s: &str) -> [char; N] {
    let v: Vec<char> = s.chars().collect();
    v.try_into().unwrap()
}

fn text(c: &[char]) -> String {
    c.iter().collect()
}

#[test]
fn zero_u64_is_all_a() {
    assert_eq!(text(&encode_u64(0)), "AAAAAAAAAAA");
    assert_eq!(decode_u64(chars("AAAAAAAAAAA")), Ok(0));
}

#[test]
fn max_u64_ends_in_eight() {
    assert_eq!(text(&encode_u64(u64::MAX)), "__________8");
    assert_eq!(decode_u64(chars("__________8")), Ok(u64::MAX));
}

#[test]
fn negative_i64_round_trips_through_text() {
    let s = text(&encode_i64(-25519));
    assert_eq!(s.len(), 11);
    assert_eq!(decode_str_i64(&s), Ok(-25519));
    assert_eq!(decode_i64(encode_i64(-25519)), Ok(-25519));
}

#[test]
fn known_u32_vector() {
    assert_eq!(text(&encode_u32(897100256)), "NXip4A");
    assert_eq!(decode_u32(chars("NXip4A")), Ok(897100256));
}

#[test]
fn known_i64_vector() {
    assert_eq!(decode_i64(chars("PDFehCFVGqA")), Ok(4337351837722417824));
    assert_eq!(text(&encode_i64(4337351837722417824)), "PDFehCFVGqA");
}

#[test]
fn partial_16_with_low_bit_set_is_rejected() {
    assert_eq!(decode_partial_16([0, 0, 1]), Err(Error::OutOfBoundsCharacter));
    assert_eq!(decode_partial_16([0, 0, 4]), Ok([0, 1]));
}

#[test]
fn partial_8_values() {
    assert_eq!(encode_partial_8(1), [0, 16]);
    assert_eq!(encode_partial_8(255), [63, 48]);
    assert_eq!(decode_partial_8([63, 48]), Ok(255));
    assert_eq!(decode_partial_8([0, 8]), Err(Error::OutOfBoundsCharacter));
}

#[test]
fn one_encodes_in_the_last_symbols() {
    assert_eq!(text(&encode_i64(1)), "AAAAAAAAAAE");
    assert_eq!(text(&encode_i32(1)), "AAAAAQ");
    assert_eq!(text(&encode_i16(1)), "AAE");
}

#[test]
fn same_bits_same_symbols() {
    assert_eq!(encode_i64(-1), encode_u64(u64::MAX));
    assert_eq!(encode_i32(-1), encode_u32(u32::MAX));
    assert_eq!(encode_i16(-1), encode_u16(u16::MAX));
    assert_eq!(encode_i64(i64::MIN), encode_u64(1 << 63));
    assert_eq!(text(&encode_i64(i64::MIN)), "gAAAAAAAAAA");
    assert_eq!(decode_u64(encode_i64(-25519)), Ok(-25519i64 as u64));
}

#[test]
fn fixed_lengths_at_the_edges() {
    for v in [0u64, 1, u64::MAX, 1 << 63, 12345678901234567890] {
        assert_eq!(text(&encode_u64(v)).chars().count(), 11);
    }
    for v in [0u32, 1, u32::MAX] {
        assert_eq!(text(&encode_u32(v)).chars().count(), 6);
    }
    for v in [0u16, 1, u16::MAX] {
        assert_eq!(text(&encode_u16(v)).chars().count(), 3);
    }
    assert!(!text(&encode_u64(u64::MAX)).contains('='));
}

#[test]
fn every_last_symbol_with_padding_bits_is_rejected() {
    for (i, c) in ALPHABET.chars().enumerate() {
        let mut a: [char; 11] = ['A'; 11];
        a[10] = c;
        let mut b: [char; 6] = ['A'; 6];
        b[5] = c;
        let mut d: [char; 3] = ['A'; 3];
        d[2] = c;
        if i % 4 != 0 {
            assert_eq!(decode_u64(a), Err(Error::OutOfBoundsCharacter));
            assert_eq!(decode_i64(a), Err(Error::OutOfBoundsCharacter));
            assert_eq!(decode_u16(d), Err(Error::OutOfBoundsCharacter));
            assert_eq!(decode_i16(d), Err(Error::OutOfBoundsCharacter));
        } else {
            assert_eq!(decode_u64(a), Ok((i / 4) as u64));
            assert_eq!(decode_u16(d), Ok((i / 4) as u16));
        }
        if i % 16 != 0 {
            assert_eq!(decode_u32(b), Err(Error::OutOfBoundsCharacter));
            assert_eq!(decode_i32(b), Err(Error::OutOfBoundsCharacter));
        } else {
            assert_eq!(decode_u32(b), Ok((i / 16) as u32));
        }
    }
}

#[test]
fn characters_outside_the_alphabet_are_rejected() {
    for bad in ['=', ' ', '+', '/', 'é', '\0'] {
        for pos in 0..11 {
            let mut a: [char; 11] = ['A'; 11];
            a[pos] = bad;
            assert_eq!(decode_u64(a), Err(Error::InvalidCharacter));
            assert_eq!(decode_i64(a), Err(Error::InvalidCharacter));
        }
        for pos in 0..6 {
            let mut b: [char; 6] = ['A'; 6];
            b[pos] = bad;
            assert_eq!(decode_u32(b), Err(Error::InvalidCharacter));
            assert_eq!(decode_i32(b), Err(Error::InvalidCharacter));
        }
        for pos in 0..3 {
            let mut d: [char; 3] = ['A'; 3];
            d[pos] = bad;
            assert_eq!(decode_u16(d), Err(Error::InvalidCharacter));
            assert_eq!(decode_i16(d), Err(Error::InvalidCharacter));
        }
    }
}

#[test]
fn invalid_character_is_reported_before_padding_bits() {
    assert_eq!(decode_u64(chars("=AAAAAAAAAB")), Err(Error::InvalidCharacter));
    assert_eq!(decode_u16(chars("A=B")), Err(Error::InvalidCharacter));
}

#[test]
fn strings_of_the_wrong_length_are_rejected() {
    assert_eq!(decode_str_i64("A"), Err(Error::InvalidLength));
    assert_eq!(decode_str_u64("AAAAAAAAAAAA"), Err(Error::InvalidLength));
    assert_eq!(decode_str_i32("A"), Err(Error::InvalidLength));
    assert_eq!(decode_str_u32(""), Err(Error::InvalidLength));
    assert_eq!(decode_str_i16("A"), Err(Error::InvalidLength));
    assert_eq!(decode_str_u16("AAAA"), Err(Error::InvalidLength));
}

#[test]
fn strings_with_foreign_characters_are_rejected() {
    assert_eq!(decode_str_i64("AAAAAAAAAA="), Err(Error::InvalidCharacter));
    assert_eq!(decode_str_i32("AAAAA="), Err(Error::InvalidCharacter));
    assert_eq!(decode_str_i16("AA="), Err(Error::InvalidCharacter));
}

#[test]
fn strings_with_padding_bits_are_rejected() {
    assert_eq!(decode_str_i64("AAAAAAAAAAB"), Err(Error::OutOfBoundsCharacter));
    assert_eq!(decode_str_i32("AAAAAB"), Err(Error::OutOfBoundsCharacter));
    assert_eq!(decode_str_i16("AAB"), Err(Error::OutOfBoundsCharacter));
}

#[test]
fn strings_decode_at_every_width() {
    assert_eq!(decode_str_u64("__________8"), Ok(u64::MAX));
    assert_eq!(decode_str_i64("__________8"), Ok(-1));
    assert_eq!(decode_str_u32("NXip4A"), Ok(897100256));
    assert_eq!(decode_str_i32("_____w"), Ok(-1));
    assert_eq!(decode_str_u16("__8"), Ok(u16::MAX));
    assert_eq!(decode_str_i16("dTg"), Ok(30008));
    assert_eq!(decode_str_i16("ABé"), Err(Error::InvalidCharacter));
}

#[test]
fn error_messages() {
    assert_eq!(
        Error::InvalidLength.message(),
        "invalid length. number of characters was invalid"
    );
    assert_eq!(
        Error::InvalidCharacter.message(),
        "invalid character(s). expected only base64url characters"
    );
    assert_eq!(
        Error::OutOfBoundsCharacter.message(),
        "invalid character. last character was out of bounds"
    );
}
