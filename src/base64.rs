//! The codec: three bytes become four six-bit digits, and the widths of 64,
//! 32 and 16 bits are covered by whole groups of three bytes followed by one
//! partial group.
//!
//! ```txt
//!              Data  - 3 Octets
//! 000001   00 | 0001   0000 | 01   000001
//! 000001 | 00   0001 | 0000   01 | 000001
//!             Base64 - 4 Chars
//! ```
use vstd::prelude::*;
use vstd::std_specs::iter::IteratorSpec;

use crate::alphabet::{decode_char, encode_char, is_symbol, sixbit, symbol};
use crate::radix::{
    all_sextets, bytes_value, lemma_bytes_value_push, lemma_sextets_of_value,
    lemma_sextets_value_push, sextets, sextets_value,
};
use crate::Error;

verus! {

broadcast use {lemma_bytes_value_push, lemma_sextets_value_push};

/// Splits three bytes into four six-bit digits of the same value.
pub fn encode_quantum(input: [u8; 3]) -> (r: [u8; 4])
    ensures
        all_sextets(r@),
        sextets_value(r@) == bytes_value(input@),
{
    let c1 = input[0] >> 2;
    let c2 = (input[1] >> 4) | (input[0] << 4 & 0b0011_0000);
    let c3 = (input[2] >> 6) | (input[1] << 2 & 0b0011_1100);
    let c4 = input[2] & 0b0011_1111;

    let (b0, b1, b2) = (input[0], input[1], input[2]);
    assert(c1 == b0 / 4) by (bit_vector)
        requires
            c1 == b0 >> 2,
    ;
    assert(c2 == (b0 % 4) * 16 + b1 / 16) by (bit_vector)
        requires
            c2 == (b1 >> 4) | (b0 << 4 & 0b0011_0000),
    ;
    assert(c3 == (b1 % 16) * 4 + b2 / 64) by (bit_vector)
        requires
            c3 == (b2 >> 6) | (b1 << 2 & 0b0011_1100),
    ;
    assert(c4 == b2 % 64) by (bit_vector)
        requires
            c4 == b2 & 0b0011_1111,
    ;

    let r = [c1, c2, c3, c4];
    assert(r@ =~= Seq::empty().push(c1).push(c2).push(c3).push(c4));
    assert(input@ =~= Seq::empty().push(b0).push(b1).push(b2));
    r
}

/// Splits two bytes into three six-bit digits; the last digit carries four
/// bits of data and two zero bits, so the digits' value is the bytes' value
/// times four.
pub fn encode_partial_16(input: [u8; 2]) -> (r: [u8; 3])
    ensures
        all_sextets(r@),
        sextets_value(r@) == bytes_value(input@) * 4,
{
    let c1 = input[0] >> 2;
    let c2 = (input[1] >> 4) | (input[0] << 4 & 0b0011_0000);
    let c3 = input[1] << 2 & 0b0011_1100;

    let (b0, b1) = (input[0], input[1]);
    assert(c1 == b0 / 4) by (bit_vector)
        requires
            c1 == b0 >> 2,
    ;
    assert(c2 == (b0 % 4) * 16 + b1 / 16) by (bit_vector)
        requires
            c2 == (b1 >> 4) | (b0 << 4 & 0b0011_0000),
    ;
    assert(c3 == (b1 % 16) * 4) by (bit_vector)
        requires
            c3 == b1 << 2 & 0b0011_1100,
    ;

    let r = [c1, c2, c3];
    assert(r@ =~= Seq::empty().push(c1).push(c2).push(c3));
    assert(input@ =~= Seq::empty().push(b0).push(b1));
    r
}

/// Splits one byte into two six-bit digits; the last digit carries two bits
/// of data and four zero bits, so the digits' value is the byte times sixteen.
pub fn encode_partial_8(input: u8) -> (r: [u8; 2])
    ensures
        all_sextets(r@),
        sextets_value(r@) == input * 16,
{
    let c1 = input >> 2;
    let c2 = input << 4 & 0b0011_0000;

    assert(c1 == input / 4) by (bit_vector)
        requires
            c1 == input >> 2,
    ;
    assert(c2 == (input % 4) * 16) by (bit_vector)
        requires
            c2 == input << 4 & 0b0011_0000,
    ;

    let r = [c1, c2];
    assert(r@ =~= Seq::empty().push(c1).push(c2));
    r
}

/// Joins four six-bit digits into the three bytes of the same value.
pub fn decode_quantum(input: [u8; 4]) -> (r: [u8; 3])
    requires
        all_sextets(input@),
    ensures
        bytes_value(r@) == sextets_value(input@),
{
    let d1 = (input[0] << 2) | (input[1] >> 4 & 0b0000_0011);
    let d2 = (input[1] << 4) | (input[2] >> 2 & 0b0000_1111);
    let d3 = (input[2] << 6) | (input[3] & 0b0011_1111);

    let (i0, i1, i2, i3) = (input[0], input[1], input[2], input[3]);
    assert(i0 < 64 && i1 < 64 && i2 < 64 && i3 < 64);
    assert(d1 == i0 * 4 + i1 / 16) by (bit_vector)
        requires
            d1 == (i0 << 2) | (i1 >> 4 & 0b0000_0011),
            i0 < 64,
            i1 < 64,
    ;
    assert(d2 == (i1 % 16) * 16 + i2 / 4) by (bit_vector)
        requires
            d2 == (i1 << 4) | (i2 >> 2 & 0b0000_1111),
            i2 < 64,
    ;
    assert(d3 == (i2 % 4) * 64 + i3) by (bit_vector)
        requires
            d3 == (i2 << 6) | (i3 & 0b0011_1111),
            i3 < 64,
    ;

    let r = [d1, d2, d3];
    assert(r@ =~= Seq::empty().push(d1).push(d2).push(d3));
    assert(input@ =~= Seq::empty().push(i0).push(i1).push(i2).push(i3));
    r
}

/// Joins three six-bit digits into two bytes. The two low bits of the last
/// digit hold no data: where either is set the digits cannot have come from
/// `encode_partial_16`, and the result is `OutOfBoundsCharacter`.
pub fn decode_partial_16(input: [u8; 3]) -> (r: Result<[u8; 2], Error>)
    requires
        all_sextets(input@),
    ensures
        match r {
            Ok(b) => input[2] % 4 == 0 && bytes_value(b@) * 4 == sextets_value(input@),
            Err(e) => input[2] % 4 != 0 && e == Error::OutOfBoundsCharacter,
        },
{
    let (i0, i1, i2) = (input[0], input[1], input[2]);
    assert(i0 < 64 && i1 < 64 && i2 < 64);
    assert((i2 & 0b0000_0011 != 0) == (i2 % 4 != 0)) by (bit_vector);

    if input[2] & 0b0000_0011 != 0 {
        return Err(Error::OutOfBoundsCharacter);
    }
    let d1 = (input[0] << 2) | (input[1] >> 4 & 0b0000_0011);
    let d2 = (input[1] << 4) | (input[2] >> 2 & 0b0000_1111);

    assert(d1 == i0 * 4 + i1 / 16) by (bit_vector)
        requires
            d1 == (i0 << 2) | (i1 >> 4 & 0b0000_0011),
            i0 < 64,
            i1 < 64,
    ;
    assert(d2 == (i1 % 16) * 16 + i2 / 4) by (bit_vector)
        requires
            d2 == (i1 << 4) | (i2 >> 2 & 0b0000_1111),
            i2 < 64,
    ;

    let r = [d1, d2];
    assert(r@ =~= Seq::empty().push(d1).push(d2));
    assert(input@ =~= Seq::empty().push(i0).push(i1).push(i2));
    Ok(r)
}

/// Joins two six-bit digits into one byte. The four low bits of the last
/// digit hold no data: where any is set the digits cannot have come from
/// `encode_partial_8`, and the result is `OutOfBoundsCharacter`.
pub fn decode_partial_8(input: [u8; 2]) -> (r: Result<u8, Error>)
    requires
        all_sextets(input@),
    ensures
        match r {
            Ok(b) => input[1] % 16 == 0 && b * 16 == sextets_value(input@),
            Err(e) => input[1] % 16 != 0 && e == Error::OutOfBoundsCharacter,
        },
{
    let (i0, i1) = (input[0], input[1]);
    assert(i0 < 64 && i1 < 64);
    assert((i1 & 0b0000_1111 != 0) == (i1 % 16 != 0)) by (bit_vector);

    if input[1] & 0b0000_1111 != 0 {
        return Err(Error::OutOfBoundsCharacter);
    }
    let d1 = (input[0] << 2) | (input[1] >> 4);

    assert(d1 == i0 * 4 + i1 / 16) by (bit_vector)
        requires
            d1 == (i0 << 2) | (i1 >> 4),
            i0 < 64,
            i1 < 64,
    ;
    assert(input@ =~= Seq::empty().push(i0).push(i1));
    Ok(d1)
}

/// The symbols for the lowest `len` base-64 digits of `n`, most significant first.
pub open spec fn symbols(n: nat, len: nat) -> Seq<char> {
    sextets(n, len).map_values(|d: u8| symbol(d as int))
}

/// Whether every character of `s` belongs to the alphabet.
pub open spec fn all_symbols(s: Seq<char>) -> bool {
    forall|i: int| 0 <= i < s.len() ==> is_symbol(#[trigger] s[i])
}

/// The six-bit indices of the symbols of `s`.
pub open spec fn sixbits(s: Seq<char>) -> Seq<u8> {
    s.map_values(|c: char| sixbit(c))
}

/// What a string of symbols stands for, where the low bits of its last
/// symbol hold no data and `pad` is the number of values those bits can take
/// (4 for two bits, 16 for four): `InvalidCharacter` where a character is not
/// in the alphabet; else `OutOfBoundsCharacter` where one of those bits is
/// set; else the value of its digits with those bits taken off.
pub open spec fn decoding(s: Seq<char>, pad: nat) -> Result<nat, Error> {
    if !all_symbols(s) {
        Err(Error::InvalidCharacter)
    } else if (sixbit(s.last()) as int) % (pad as int) != 0 {
        Err(Error::OutOfBoundsCharacter)
    } else {
        Ok((sextets_value(sixbits(s)) / (pad as int)) as nat)
    }
}

/// Symbols for each six-bit digit, in order.
fn symbols_of<const N: usize>(digits: [u8; N]) -> (r: [char; N])
    requires
        all_sextets(digits@),
    ensures
        r@ == digits@.map_values(|d: u8| symbol(d as int)),
{
    let mut r: [char; N] = ['A'; N];
    for i in 0..N
        invariant
            all_sextets(digits@),
            forall|j: int| 0 <= j < i ==> r@[j] == symbol(digits@[j] as int),
    {
        r[i] = encode_char(digits[i]);
    }
    assert(r@ =~= digits@.map_values(|d: u8| symbol(d as int)));
    r
}

/// The six-bit index of each character, or `InvalidCharacter` where one is
/// not in the alphabet.
fn sixbits_of<const N: usize>(input: [char; N]) -> (r: Result<[u8; N], Error>)
    ensures
        match r {
            Ok(c) => all_symbols(input@) && c@ == sixbits(input@) && all_sextets(c@),
            Err(e) => !all_symbols(input@) && e == Error::InvalidCharacter,
        },
{
    let mut c: [u8; N] = [0; N];
    let mut i: usize = 0;
    while i < N
        invariant
            i <= N,
            forall|j: int| 0 <= j < i ==> is_symbol(#[trigger] input@[j]),
            forall|j: int| 0 <= j < i ==> #[trigger] c@[j] == sixbit(input@[j]),
        decreases N - i,
    {
        match decode_char(input[i]) {
            Ok(d) => {
                c[i] = d;
            },
            Err(e) => {
                return Err(e);
            },
        }
        i = i + 1;
    }
    assert(c@ =~= sixbits(input@));
    proof {
        assert forall|j: int| 0 <= j < N implies #[trigger] c@[j] < 64 by {
            crate::alphabet::lemma_sixbit_bound(input@[j]);
        }
    }
    Ok(c)
}

/// The eight bytes of `v`, most significant first.
fn u64_to_be_bytes(v: u64) -> (r: [u8; 8])
    ensures
        bytes_value(r@) == v,
{
    let r = [
        (v >> 56) as u8,
        (v >> 48) as u8,
        (v >> 40) as u8,
        (v >> 32) as u8,
        (v >> 24) as u8,
        (v >> 16) as u8,
        (v >> 8) as u8,
        v as u8,
    ];
    assert(r@ =~= Seq::empty().push(r[0]).push(r[1]).push(r[2]).push(r[3]).push(r[4]).push(
        r[5],
    ).push(r[6]).push(r[7]));
    assert(v == ((v >> 56) as u8) * 0x100_0000_0000_0000u64 + ((v >> 48) as u8)
        * 0x1_0000_0000_0000u64 + ((v >> 40) as u8) * 0x100_0000_0000u64 + ((v >> 32) as u8)
        * 0x1_0000_0000u64 + ((v >> 24) as u8) * 0x100_0000u64 + ((v >> 16) as u8) * 0x1_0000u64
        + ((v >> 8) as u8) * 0x100u64 + (v as u8)) by (bit_vector);
    r
}

/// The number whose eight bytes, most significant first, are `b`.
fn u64_from_be_bytes(b: [u8; 8]) -> (r: u64)
    ensures
        r == bytes_value(b@),
{
    let (b0, b1, b2, b3, b4, b5, b6, b7) = (b[0], b[1], b[2], b[3], b[4], b[5], b[6], b[7]);
    let r = (b0 as u64) << 56 | (b1 as u64) << 48 | (b2 as u64) << 40 | (b3 as u64) << 32
        | (b4 as u64) << 24 | (b5 as u64) << 16 | (b6 as u64) << 8 | b7 as u64;
    assert(b@ =~= Seq::empty().push(b0).push(b1).push(b2).push(b3).push(b4).push(b5).push(
        b6,
    ).push(b7));
    assert(r == b0 * 0x100_0000_0000_0000u64 + b1 * 0x1_0000_0000_0000u64 + b2
        * 0x100_0000_0000u64 + b3 * 0x1_0000_0000u64 + b4 * 0x100_0000u64 + b5 * 0x1_0000u64 + b6
        * 0x100u64 + b7) by (bit_vector)
        requires
            r == (b0 as u64) << 56 | (b1 as u64) << 48 | (b2 as u64) << 40 | (b3 as u64) << 32
                | (b4 as u64) << 24 | (b5 as u64) << 16 | (b6 as u64) << 8 | b7 as u64,
    ;
    r
}

/// The four bytes of `v`, most significant first.
fn u32_to_be_bytes(v: u32) -> (r: [u8; 4])
    ensures
        bytes_value(r@) == v,
{
    let r = [(v >> 24) as u8, (v >> 16) as u8, (v >> 8) as u8, v as u8];
    assert(r@ =~= Seq::empty().push(r[0]).push(r[1]).push(r[2]).push(r[3]));
    assert(v == ((v >> 24) as u8) * 0x100_0000u32 + ((v >> 16) as u8) * 0x1_0000u32 + ((v
        >> 8) as u8) * 0x100u32 + (v as u8)) by (bit_vector);
    r
}

/// The number whose four bytes, most significant first, are `b`.
fn u32_from_be_bytes(b: [u8; 4]) -> (r: u32)
    ensures
        r == bytes_value(b@),
{
    let (b0, b1, b2, b3) = (b[0], b[1], b[2], b[3]);
    let r = (b0 as u32) << 24 | (b1 as u32) << 16 | (b2 as u32) << 8 | b3 as u32;
    assert(b@ =~= Seq::empty().push(b0).push(b1).push(b2).push(b3));
    assert(r == b0 * 0x100_0000u32 + b1 * 0x1_0000u32 + b2 * 0x100u32 + b3) by (bit_vector)
        requires
            r == (b0 as u32) << 24 | (b1 as u32) << 16 | (b2 as u32) << 8 | b3 as u32,
    ;
    r
}

/// The two bytes of `v`, most significant first.
fn u16_to_be_bytes(v: u16) -> (r: [u8; 2])
    ensures
        bytes_value(r@) == v,
{
    let r = [(v >> 8) as u8, v as u8];
    assert(r@ =~= Seq::empty().push(r[0]).push(r[1]));
    assert(v == ((v >> 8) as u8) * 0x100u16 + (v as u8)) by (bit_vector);
    r
}

/// The number whose two bytes, most significant first, are `b`.
fn u16_from_be_bytes(b: [u8; 2]) -> (r: u16)
    ensures
        r == bytes_value(b@),
{
    let (b0, b1) = (b[0], b[1]);
    let r = (b0 as u16) << 8 | b1 as u16;
    assert(b@ =~= Seq::empty().push(b0).push(b1));
    assert(r == b0 * 0x100u16 + b1) by (bit_vector)
        requires
            r == (b0 as u16) << 8 | b1 as u16,
    ;
    r
}

/// Two whole groups of three bytes, then a partial group of two: eleven
/// symbols for the value of the bytes shifted left by two bits.
fn encode_64(bytes: [u8; 8]) -> (r: [char; 11])
    ensures
        r@ == symbols(bytes_value(bytes@) as nat * 4, 11),
{
    let p1 = encode_quantum([bytes[0], bytes[1], bytes[2]]);
    let p2 = encode_quantum([bytes[3], bytes[4], bytes[5]]);
    let p3 = encode_partial_16([bytes[6], bytes[7]]);

    let product = [
        p1[0], p1[1], p1[2], p1[3],
        p2[0], p2[1], p2[2], p2[3],
        p3[0], p3[1], p3[2],
    ];

    proof {
        let b = bytes@;
        assert(b =~= Seq::empty().push(b[0]).push(b[1]).push(b[2]).push(b[3]).push(b[4]).push(
            b[5],
        ).push(b[6]).push(b[7]));
        assert([bytes[0], bytes[1], bytes[2]]@ =~= Seq::empty().push(b[0]).push(b[1]).push(b[2]));
        assert([bytes[3], bytes[4], bytes[5]]@ =~= Seq::empty().push(b[3]).push(b[4]).push(b[5]));
        assert([bytes[6], bytes[7]]@ =~= Seq::empty().push(b[6]).push(b[7]));
        assert(p1@ =~= Seq::empty().push(p1[0]).push(p1[1]).push(p1[2]).push(p1[3]));
        assert(p2@ =~= Seq::empty().push(p2[0]).push(p2[1]).push(p2[2]).push(p2[3]));
        assert(p3@ =~= Seq::empty().push(p3[0]).push(p3[1]).push(p3[2]));
        let d = product@;
        assert(d =~= Seq::empty().push(d[0]).push(d[1]).push(d[2]).push(d[3]).push(d[4]).push(
            d[5],
        ).push(d[6]).push(d[7]).push(d[8]).push(d[9]).push(d[10]));
        assert(sextets_value(d) == bytes_value(b) * 4);
        assert(all_sextets(d)) by {
            assert(p1@[0] < 64 && p1@[1] < 64 && p1@[2] < 64 && p1@[3] < 64);
            assert(p2@[0] < 64 && p2@[1] < 64 && p2@[2] < 64 && p2@[3] < 64);
            assert(p3@[0] < 64 && p3@[1] < 64 && p3@[2] < 64);
        }
        lemma_sextets_of_value(d);
    }
    symbols_of(product)
}

/// One whole group of three bytes, then a partial group of one: six symbols
/// for the value of the bytes shifted left by four bits.
fn encode_32(bytes: [u8; 4]) -> (r: [char; 6])
    ensures
        r@ == symbols(bytes_value(bytes@) as nat * 16, 6),
{
    let p1 = encode_quantum([bytes[0], bytes[1], bytes[2]]);
    let p2 = encode_partial_8(bytes[3]);

    let product = [
        p1[0], p1[1], p1[2], p1[3],
        p2[0], p2[1],
    ];

    proof {
        let b = bytes@;
        assert(b =~= Seq::empty().push(b[0]).push(b[1]).push(b[2]).push(b[3]));
        assert([bytes[0], bytes[1], bytes[2]]@ =~= Seq::empty().push(b[0]).push(b[1]).push(b[2]));
        assert(p1@ =~= Seq::empty().push(p1[0]).push(p1[1]).push(p1[2]).push(p1[3]));
        assert(p2@ =~= Seq::empty().push(p2[0]).push(p2[1]));
        let d = product@;
        assert(d =~= Seq::empty().push(d[0]).push(d[1]).push(d[2]).push(d[3]).push(d[4]).push(
            d[5],
        ));
        assert(sextets_value(d) == bytes_value(b) * 16);
        assert(all_sextets(d)) by {
            assert(p1@[0] < 64 && p1@[1] < 64 && p1@[2] < 64 && p1@[3] < 64);
            assert(p2@[0] < 64 && p2@[1] < 64);
        }
        lemma_sextets_of_value(d);
    }
    symbols_of(product)
}

/// A single partial group of two bytes: three symbols for the value of the
/// bytes shifted left by two bits.
fn encode_16(bytes: [u8; 2]) -> (r: [char; 3])
    ensures
        r@ == symbols(bytes_value(bytes@) as nat * 4, 3),
{
    let product = encode_partial_16([bytes[0], bytes[1]]);

    proof {
        assert([bytes[0], bytes[1]]@ =~= bytes@);
        lemma_sextets_of_value(product@);
    }
    symbols_of(product)
}

/// Reads eleven symbols back into eight bytes: `Ok` with the bytes whose value
/// `decoding` gives, or the error it gives.
fn decode_64(input: [char; 11]) -> (r: Result<[u8; 8], Error>)
    ensures
        match r {
            Ok(b) => decoding(input@, 4) == Ok::<nat, Error>(bytes_value(b@) as nat),
            Err(e) => decoding(input@, 4) == Err::<nat, Error>(e),
        },
{
    let c = match sixbits_of(input) {
        Ok(c) => c,
        Err(e) => {
            return Err(e);
        },
    };
    assert(c[0] < 64 && c[1] < 64 && c[2] < 64 && c[3] < 64 && c[4] < 64 && c[5] < 64);
    assert(c[6] < 64 && c[7] < 64 && c[8] < 64 && c[9] < 64 && c[10] < 64);
    assert(c[10] == sixbit(input@.last()));

    let p1 = decode_quantum([c[0], c[1], c[2], c[3]]);
    let p2 = decode_quantum([c[4], c[5], c[6], c[7]]);
    let p3 = match decode_partial_16([c[8], c[9], c[10]]) {
        Ok(p) => p,
        Err(e) => {
            return Err(e);
        },
    };

    let r = [
        p1[0], p1[1], p1[2],
        p2[0], p2[1], p2[2],
        p3[0], p3[1],
    ];

    proof {
        let d = c@;
        assert(d =~= Seq::empty().push(d[0]).push(d[1]).push(d[2]).push(d[3]).push(d[4]).push(
            d[5],
        ).push(d[6]).push(d[7]).push(d[8]).push(d[9]).push(d[10]));
        assert([c[0], c[1], c[2], c[3]]@ =~= Seq::empty().push(d[0]).push(d[1]).push(d[2]).push(
            d[3],
        ));
        assert([c[4], c[5], c[6], c[7]]@ =~= Seq::empty().push(d[4]).push(d[5]).push(d[6]).push(
            d[7],
        ));
        assert([c[8], c[9], c[10]]@ =~= Seq::empty().push(d[8]).push(d[9]).push(d[10]));
        assert(p1@ =~= Seq::empty().push(p1[0]).push(p1[1]).push(p1[2]));
        assert(p2@ =~= Seq::empty().push(p2[0]).push(p2[1]).push(p2[2]));
        assert(p3@ =~= Seq::empty().push(p3[0]).push(p3[1]));
        let b = r@;
        assert(b =~= Seq::empty().push(b[0]).push(b[1]).push(b[2]).push(b[3]).push(b[4]).push(
            b[5],
        ).push(b[6]).push(b[7]));
        assert(bytes_value(b) * 4 == sextets_value(d));
    }
    Ok(r)
}

/// Reads six symbols back into four bytes: `Ok` with the bytes whose value
/// `decoding` gives, or the error it gives.
fn decode_32(input: [char; 6]) -> (r: Result<[u8; 4], Error>)
    ensures
        match r {
            Ok(b) => decoding(input@, 16) == Ok::<nat, Error>(bytes_value(b@) as nat),
            Err(e) => decoding(input@, 16) == Err::<nat, Error>(e),
        },
{
    let c = match sixbits_of(input) {
        Ok(c) => c,
        Err(e) => {
            return Err(e);
        },
    };
    assert(c[0] < 64 && c[1] < 64 && c[2] < 64 && c[3] < 64 && c[4] < 64 && c[5] < 64);
    assert(c[5] == sixbit(input@.last()));

    let p1 = decode_quantum([c[0], c[1], c[2], c[3]]);
    let p2 = match decode_partial_8([c[4], c[5]]) {
        Ok(p) => p,
        Err(e) => {
            return Err(e);
        },
    };

    let r = [
        p1[0], p1[1], p1[2],
        p2,
    ];

    proof {
        let d = c@;
        assert(d =~= Seq::empty().push(d[0]).push(d[1]).push(d[2]).push(d[3]).push(d[4]).push(
            d[5],
        ));
        assert([c[0], c[1], c[2], c[3]]@ =~= Seq::empty().push(d[0]).push(d[1]).push(d[2]).push(
            d[3],
        ));
        assert([c[4], c[5]]@ =~= Seq::empty().push(d[4]).push(d[5]));
        assert(p1@ =~= Seq::empty().push(p1[0]).push(p1[1]).push(p1[2]));
        let b = r@;
        assert(b =~= Seq::empty().push(b[0]).push(b[1]).push(b[2]).push(b[3]));
        assert(bytes_value(b) * 16 == sextets_value(d));
    }
    Ok(r)
}

/// Reads three symbols back into two bytes: `Ok` with the bytes whose value
/// `decoding` gives, or the error it gives.
fn decode_16(input: [char; 3]) -> (r: Result<[u8; 2], Error>)
    ensures
        match r {
            Ok(b) => decoding(input@, 4) == Ok::<nat, Error>(bytes_value(b@) as nat),
            Err(e) => decoding(input@, 4) == Err::<nat, Error>(e),
        },
{
    let c = match sixbits_of(input) {
        Ok(c) => c,
        Err(e) => {
            return Err(e);
        },
    };
    assert(c[2] == sixbit(input@.last()));

    let p1 = match decode_partial_16(c) {
        Ok(p) => p,
        Err(e) => {
            return Err(e);
        },
    };

    Ok(p1)
}

/// The eleven symbols of a 64-bit value: its base-64 digits after a shift
/// left by two bits, most significant first.
pub open spec fn encoding_u64(v: u64) -> Seq<char> {
    symbols(v as nat * 4, 11)
}

/// A signed 64-bit value is encoded as the unsigned value of the same bits.
pub open spec fn encoding_i64(v: i64) -> Seq<char> {
    encoding_u64(v as u64)
}

/// The six symbols of a 32-bit value: its base-64 digits after a shift
/// left by four bits, most significant first.
pub open spec fn encoding_u32(v: u32) -> Seq<char> {
    symbols(v as nat * 16, 6)
}

/// A signed 32-bit value is encoded as the unsigned value of the same bits.
pub open spec fn encoding_i32(v: i32) -> Seq<char> {
    encoding_u32(v as u32)
}

/// The three symbols of a 16-bit value: its base-64 digits after a shift
/// left by two bits, most significant first.
pub open spec fn encoding_u16(v: u16) -> Seq<char> {
    symbols(v as nat * 4, 3)
}

/// A signed 16-bit value is encoded as the unsigned value of the same bits.
pub open spec fn encoding_i16(v: i16) -> Seq<char> {
    encoding_u16(v as u16)
}

/// The 64-bit value that eleven symbols stand for, or the error.
pub open spec fn decoding_u64(s: Seq<char>) -> Result<u64, Error> {
    match decoding(s, 4) {
        Ok(n) => Ok(n as u64),
        Err(e) => Err(e),
    }
}

/// The signed 64-bit value with the bits of `decoding_u64`.
pub open spec fn decoding_i64(s: Seq<char>) -> Result<i64, Error> {
    match decoding_u64(s) {
        Ok(u) => Ok(u as i64),
        Err(e) => Err(e),
    }
}

/// The 32-bit value that six symbols stand for, or the error.
pub open spec fn decoding_u32(s: Seq<char>) -> Result<u32, Error> {
    match decoding(s, 16) {
        Ok(n) => Ok(n as u32),
        Err(e) => Err(e),
    }
}

/// The signed 32-bit value with the bits of `decoding_u32`.
pub open spec fn decoding_i32(s: Seq<char>) -> Result<i32, Error> {
    match decoding_u32(s) {
        Ok(u) => Ok(u as i32),
        Err(e) => Err(e),
    }
}

/// The 16-bit value that three symbols stand for, or the error.
pub open spec fn decoding_u16(s: Seq<char>) -> Result<u16, Error> {
    match decoding(s, 4) {
        Ok(n) => Ok(n as u16),
        Err(e) => Err(e),
    }
}

/// The signed 16-bit value with the bits of `decoding_u16`.
pub open spec fn decoding_i16(s: Seq<char>) -> Result<i16, Error> {
    match decoding_u16(s) {
        Ok(u) => Ok(u as i16),
        Err(e) => Err(e),
    }
}

/// The eleven symbols of a signed 64-bit value; the same as for the unsigned
/// value with the same bits.
pub fn encode_i64(input: i64) -> (r: [char; 11])
    ensures
        r@ == encoding_i64(input),
{
    encode_64(u64_to_be_bytes(input as u64))
}

/// The eleven symbols of an unsigned 64-bit value.
pub fn encode_u64(input: u64) -> (r: [char; 11])
    ensures
        r@ == encoding_u64(input),
{
    encode_64(u64_to_be_bytes(input))
}

/// The six symbols of a signed 32-bit value; the same as for the unsigned
/// value with the same bits.
pub fn encode_i32(input: i32) -> (r: [char; 6])
    ensures
        r@ == encoding_i32(input),
{
    encode_32(u32_to_be_bytes(input as u32))
}

/// The six symbols of an unsigned 32-bit value.
pub fn encode_u32(input: u32) -> (r: [char; 6])
    ensures
        r@ == encoding_u32(input),
{
    encode_32(u32_to_be_bytes(input))
}

/// The three symbols of a signed 16-bit value; the same as for the unsigned
/// value with the same bits.
pub fn encode_i16(input: i16) -> (r: [char; 3])
    ensures
        r@ == encoding_i16(input),
{
    encode_16(u16_to_be_bytes(input as u16))
}

/// The three symbols of an unsigned 16-bit value.
pub fn encode_u16(input: u16) -> (r: [char; 3])
    ensures
        r@ == encoding_u16(input),
{
    encode_16(u16_to_be_bytes(input))
}

/// The signed 64-bit value that eleven symbols stand for: `InvalidCharacter`
/// where one is outside the alphabet, else `OutOfBoundsCharacter` where the
/// two low bits of the last are not clear.
pub fn decode_i64(input: [char; 11]) -> (r: Result<i64, Error>)
    ensures
        r == decoding_i64(input@),
{
    let bytes = match decode_64(input) {
        Ok(b) => b,
        Err(e) => {
            return Err(e);
        },
    };
    Ok(u64_from_be_bytes(bytes) as i64)
}

/// The unsigned 64-bit value that eleven symbols stand for: `InvalidCharacter`
/// where one is outside the alphabet, else `OutOfBoundsCharacter` where the
/// two low bits of the last are not clear.
pub fn decode_u64(input: [char; 11]) -> (r: Result<u64, Error>)
    ensures
        r == decoding_u64(input@),
{
    let bytes = match decode_64(input) {
        Ok(b) => b,
        Err(e) => {
            return Err(e);
        },
    };
    Ok(u64_from_be_bytes(bytes))
}

/// The signed 32-bit value that six symbols stand for: `InvalidCharacter`
/// where one is outside the alphabet, else `OutOfBoundsCharacter` where the
/// four low bits of the last are not clear.
pub fn decode_i32(input: [char; 6]) -> (r: Result<i32, Error>)
    ensures
        r == decoding_i32(input@),
{
    let bytes = match decode_32(input) {
        Ok(b) => b,
        Err(e) => {
            return Err(e);
        },
    };
    Ok(u32_from_be_bytes(bytes) as i32)
}

/// The unsigned 32-bit value that six symbols stand for: `InvalidCharacter`
/// where one is outside the alphabet, else `OutOfBoundsCharacter` where the
/// four low bits of the last are not clear.
pub fn decode_u32(input: [char; 6]) -> (r: Result<u32, Error>)
    ensures
        r == decoding_u32(input@),
{
    let bytes = match decode_32(input) {
        Ok(b) => b,
        Err(e) => {
            return Err(e);
        },
    };
    Ok(u32_from_be_bytes(bytes))
}

/// The signed 16-bit value that three symbols stand for: `InvalidCharacter`
/// where one is outside the alphabet, else `OutOfBoundsCharacter` where the
/// two low bits of the last are not clear.
pub fn decode_i16(input: [char; 3]) -> (r: Result<i16, Error>)
    ensures
        r == decoding_i16(input@),
{
    let bytes = match decode_16(input) {
        Ok(b) => b,
        Err(e) => {
            return Err(e);
        },
    };
    Ok(u16_from_be_bytes(bytes) as i16)
}

/// The unsigned 16-bit value that three symbols stand for: `InvalidCharacter`
/// where one is outside the alphabet, else `OutOfBoundsCharacter` where the
/// two low bits of the last are not clear.
pub fn decode_u16(input: [char; 3]) -> (r: Result<u16, Error>)
    ensures
        r == decoding_u16(input@),
{
    let bytes = match decode_16(input) {
        Ok(b) => b,
        Err(e) => {
            return Err(e);
        },
    };
    Ok(u16_from_be_bytes(bytes))
}

/// The characters of `s`, where it holds exactly `N` of them; else
/// `InvalidLength`.
fn fixed_chars<const N: usize>(s: &str) -> (r: Result<[char; N], Error>)
    ensures
        match r {
            Ok(a) => s@.len() == N && a@ == s@,
            Err(e) => s@.len() != N && e == Error::InvalidLength,
        },
{
    let mut a: [char; N] = ['A'; N];
    let mut chars = s.chars();
    let mut i: usize = 0;
    while i < N
        invariant
            i <= N,
            i <= s@.len(),
            chars.remaining() == s@.skip(i as int),
            forall|j: int| 0 <= j < i ==> #[trigger] a@[j] == s@[j],
        decreases N - i,
    {
        match chars.next() {
            Some(c) => {
                a[i] = c;
            },
            None => {
                return Err(Error::InvalidLength);
            },
        }
        i = i + 1;
    }
    match chars.next() {
        Some(_) => Err(Error::InvalidLength),
        None => {
            assert(a@ =~= s@);
            Ok(a)
        },
    }
}

/// Decodes a string of exactly 11 characters as `decode_i64` does;
/// `InvalidLength` for a string of any other length.
pub fn decode_str_i64(s: &str) -> (r: Result<i64, Error>)
    ensures
        s@.len() != 11 ==> r == Err::<i64, Error>(Error::InvalidLength),
        s@.len() == 11 ==> r == decoding_i64(s@),
{
    match fixed_chars::<11>(s) {
        Ok(chars) => decode_i64(chars),
        Err(e) => Err(e),
    }
}

/// Decodes a string of exactly 11 characters as `decode_u64` does;
/// `InvalidLength` for a string of any other length.
pub fn decode_str_u64(s: &str) -> (r: Result<u64, Error>)
    ensures
        s@.len() != 11 ==> r == Err::<u64, Error>(Error::InvalidLength),
        s@.len() == 11 ==> r == decoding_u64(s@),
{
    match fixed_chars::<11>(s) {
        Ok(chars) => decode_u64(chars),
        Err(e) => Err(e),
    }
}

/// Decodes a string of exactly 6 characters as `decode_i32` does;
/// `InvalidLength` for a string of any other length.
pub fn decode_str_i32(s: &str) -> (r: Result<i32, Error>)
    ensures
        s@.len() != 6 ==> r == Err::<i32, Error>(Error::InvalidLength),
        s@.len() == 6 ==> r == decoding_i32(s@),
{
    match fixed_chars::<6>(s) {
        Ok(chars) => decode_i32(chars),
        Err(e) => Err(e),
    }
}

/// Decodes a string of exactly 6 characters as `decode_u32` does;
/// `InvalidLength` for a string of any other length.
pub fn decode_str_u32(s: &str) -> (r: Result<u32, Error>)
    ensures
        s@.len() != 6 ==> r == Err::<u32, Error>(Error::InvalidLength),
        s@.len() == 6 ==> r == decoding_u32(s@),
{
    match fixed_chars::<6>(s) {
        Ok(chars) => decode_u32(chars),
        Err(e) => Err(e),
    }
}

/// Decodes a string of exactly 3 characters as `decode_i16` does;
/// `InvalidLength` for a string of any other length.
pub fn decode_str_i16(s: &str) -> (r: Result<i16, Error>)
    ensures
        s@.len() != 3 ==> r == Err::<i16, Error>(Error::InvalidLength),
        s@.len() == 3 ==> r == decoding_i16(s@),
{
    match fixed_chars::<3>(s) {
        Ok(chars) => decode_i16(chars),
        Err(e) => Err(e),
    }
}

/// Decodes a string of exactly 3 characters as `decode_u16` does;
/// `InvalidLength` for a string of any other length.
pub fn decode_str_u16(s: &str) -> (r: Result<u16, Error>)
    ensures
        s@.len() != 3 ==> r == Err::<u16, Error>(Error::InvalidLength),
        s@.len() == 3 ==> r == decoding_u16(s@),
{
    match fixed_chars::<3>(s) {
        Ok(chars) => decode_u16(chars),
        Err(e) => Err(e),
    }
}

} // verus!
