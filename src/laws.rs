//! What holds of every encoding and decoding, stated over the models in
//! `base64` and proved.
use vstd::arithmetic::power::pow;
use vstd::prelude::*;

use crate::alphabet::{is_symbol, lemma_symbol_sixbit, sixbit};
use crate::base64::{
    all_symbols, decoding, decoding_i16, decoding_i32, decoding_i64, decoding_u16, decoding_u32,
    decoding_u64, encoding_i16, encoding_i32, encoding_i64, encoding_u16, encoding_u32,
    encoding_u64, sixbits, symbols,
};
use crate::radix::{lemma_sextets_shape, lemma_value_of_sextets, sextets};
use crate::Error;

verus! {

/// The symbols for a digit expansion are all in the alphabet, one per digit,
/// and their indices are the digits.
proof fn lemma_symbols_shape(n: nat, len: nat)
    ensures
        symbols(n, len).len() == len,
        all_symbols(symbols(n, len)),
        sixbits(symbols(n, len)) == sextets(n, len),
{
    lemma_sextets_shape(n, len);
    let d = sextets(n, len);
    let s = symbols(n, len);
    assert forall|i: int| 0 <= i < s.len() implies is_symbol(#[trigger] s[i]) && sixbit(s[i])
        == d[i] by {
        lemma_symbol_sixbit(d[i] as int);
    }
    assert(sixbits(s) =~= d);
}

/// Decoding the symbols of a number whose unused low bits are clear gives
/// the number with those bits taken off.
proof fn lemma_decoding_symbols(n: nat, len: nat, pad: nat)
    requires
        len > 0,
        n < pow(64, len),
        pad == 4 || pad == 16,
        n % pad == 0,
    ensures
        decoding(symbols(n, len), pad) == Ok::<nat, Error>(n / pad),
{
    lemma_symbols_shape(n, len);
    lemma_sextets_shape(n, len);
    lemma_value_of_sextets(n, len);
    let s = symbols(n, len);
    assert(sixbit(s.last()) == sextets(n, len).last());
    assert((n % 64) % pad == 0);
}

proof fn lemma_pow_64()
    ensures
        pow(64, 11) == 0x4_0000_0000_0000_0000,
        pow(64, 6) == 0x10_0000_0000,
        pow(64, 3) == 0x4_0000,
{
    reveal_with_fuel(pow, 12);
}

/// Decoding what a 64-bit value encodes to gives the value back, signed or
/// unsigned.
pub proof fn round_trip_64(u: u64, s: i64)
    ensures
        decoding_u64(encoding_u64(u)) == Ok::<u64, Error>(u),
        decoding_i64(encoding_i64(s)) == Ok::<i64, Error>(s),
{
    lemma_pow_64();
    lemma_decoding_symbols(u as nat * 4, 11, 4);
    lemma_decoding_symbols((s as u64) as nat * 4, 11, 4);
    assert(((s as u64) as i64) == s) by (bit_vector);
}

/// Decoding what a 32-bit value encodes to gives the value back, signed or
/// unsigned.
pub proof fn round_trip_32(u: u32, s: i32)
    ensures
        decoding_u32(encoding_u32(u)) == Ok::<u32, Error>(u),
        decoding_i32(encoding_i32(s)) == Ok::<i32, Error>(s),
{
    lemma_pow_64();
    lemma_decoding_symbols(u as nat * 16, 6, 16);
    lemma_decoding_symbols((s as u32) as nat * 16, 6, 16);
    assert(((s as u32) as i32) == s) by (bit_vector);
}

/// Decoding what a 16-bit value encodes to gives the value back, signed or
/// unsigned.
pub proof fn round_trip_16(u: u16, s: i16)
    ensures
        decoding_u16(encoding_u16(u)) == Ok::<u16, Error>(u),
        decoding_i16(encoding_i16(s)) == Ok::<i16, Error>(s),
{
    lemma_pow_64();
    lemma_decoding_symbols(u as nat * 4, 3, 4);
    lemma_decoding_symbols((s as u16) as nat * 4, 3, 4);
    assert(((s as u16) as i16) == s) by (bit_vector);
}

/// A signed and an unsigned value with the same bits encode to the same
/// symbols.
pub proof fn same_bits_same_symbols(
    signed64: i64,
    unsigned64: u64,
    signed32: i32,
    unsigned32: u32,
    signed16: i16,
    unsigned16: u16,
)
    ensures
        signed64 as u64 == unsigned64 ==> encoding_i64(signed64) == encoding_u64(unsigned64),
        signed32 as u32 == unsigned32 ==> encoding_i32(signed32) == encoding_u32(unsigned32),
        signed16 as u16 == unsigned16 ==> encoding_i16(signed16) == encoding_u16(unsigned16),
{
}

/// Every encoding has the fixed length of its width, and every symbol in it
/// belongs to the alphabet.
pub proof fn encodings_fixed_length_in_alphabet(a: u64, b: u32, c: u16)
    ensures
        encoding_u64(a).len() == 11,
        encoding_u32(b).len() == 6,
        encoding_u16(c).len() == 3,
        all_symbols(encoding_u64(a)),
        all_symbols(encoding_u32(b)),
        all_symbols(encoding_u16(c)),
{
    lemma_symbols_shape(a as nat * 4, 11);
    lemma_symbols_shape(b as nat * 16, 6);
    lemma_symbols_shape(c as nat * 4, 3);
}

/// Symbols of the alphabet whose last symbol sets one of the bits that an
/// encoder leaves clear (the two low bits for 64 and 16 bits, the four low
/// bits for 32 bits) are rejected with `OutOfBoundsCharacter`.
pub proof fn padding_bits_rejected(s: Seq<char>)
    requires
        all_symbols(s),
    ensures
        sixbit(s.last()) % 4 != 0 ==> decoding_u64(s) == Err::<u64, Error>(
            Error::OutOfBoundsCharacter,
        ) && decoding_i64(s) == Err::<i64, Error>(Error::OutOfBoundsCharacter)
            && decoding_u16(s) == Err::<u16, Error>(Error::OutOfBoundsCharacter) && decoding_i16(s)
            == Err::<i16, Error>(Error::OutOfBoundsCharacter),
        sixbit(s.last()) % 16 != 0 ==> decoding_u32(s) == Err::<u32, Error>(
            Error::OutOfBoundsCharacter,
        ) && decoding_i32(s) == Err::<i32, Error>(Error::OutOfBoundsCharacter),
{
}

/// Input with a character outside the alphabet is rejected with
/// `InvalidCharacter`, at every width.
pub proof fn foreign_characters_rejected(s: Seq<char>, i: int)
    requires
        0 <= i < s.len(),
        !is_symbol(s[i]),
    ensures
        decoding_u64(s) == Err::<u64, Error>(Error::InvalidCharacter),
        decoding_i64(s) == Err::<i64, Error>(Error::InvalidCharacter),
        decoding_u32(s) == Err::<u32, Error>(Error::InvalidCharacter),
        decoding_i32(s) == Err::<i32, Error>(Error::InvalidCharacter),
        decoding_u16(s) == Err::<u16, Error>(Error::InvalidCharacter),
        decoding_i16(s) == Err::<i16, Error>(Error::InvalidCharacter),
{
}

} // verus!
