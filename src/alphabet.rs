//! The URL-safe Base64 alphabet: `A`-`Z`, `a`-`z`, `0`-`9`, `-`, `_`,
//! indexed 0 to 63 in that order.
use vstd::prelude::*;

use crate::Error;

verus! {

/// The symbol for a six-bit index.
pub open spec fn symbol(d: int) -> char
    recommends
        0 <= d < 64,
{
    if d < 26 {
        ('A' as int + d) as char
    } else if d < 52 {
        ('a' as int + (d - 26)) as char
    } else if d < 62 {
        ('0' as int + (d - 52)) as char
    } else if d == 62 {
        '-'
    } else {
        '_'
    }
}

/// Whether `c` belongs to the alphabet.
pub open spec fn is_symbol(c: char) -> bool {
    ||| 'A' <= c <= 'Z'
    ||| 'a' <= c <= 'z'
    ||| '0' <= c <= '9'
    ||| c == '-'
    ||| c == '_'
}

/// The six-bit index of a symbol of the alphabet.
pub open spec fn sixbit(c: char) -> u8
    recommends
        is_symbol(c),
{
    if 'A' <= c <= 'Z' {
        (c as int - 'A' as int) as u8
    } else if 'a' <= c <= 'z' {
        (c as int - 'a' as int + 26) as u8
    } else if '0' <= c <= '9' {
        (c as int - '0' as int + 52) as u8
    } else if c == '-' {
        62
    } else {
        63
    }
}

/// Each index has a symbol of the alphabet, and that symbol gives the index back.
pub proof fn lemma_symbol_sixbit(d: int)
    requires
        0 <= d < 64,
    ensures
        is_symbol(symbol(d)),
        sixbit(symbol(d)) == d,
{
}

/// The index of a symbol of the alphabet is a six-bit value.
pub proof fn lemma_sixbit_bound(c: char)
    requires
        is_symbol(c),
    ensures
        sixbit(c) < 64,
{
}

/// The symbol for the six-bit index `d`.
pub fn encode_char(d: u8) -> (c: char)
    requires
        d < 64,
    ensures
        c == symbol(d as int),
{
    if d < 26 {
        (65u8 + d) as char
    } else if d < 52 {
        (97u8 + (d - 26)) as char
    } else if d < 62 {
        (48u8 + (d - 52)) as char
    } else if d == 62 {
        '-'
    } else {
        '_'
    }
}

/// The six-bit index of `c`, or `InvalidCharacter` where `c` is not in the alphabet.
pub fn decode_char(c: char) -> (r: Result<u8, Error>)
    ensures
        is_symbol(c) ==> r == Ok::<u8, Error>(sixbit(c)),
        !is_symbol(c) ==> r == Err::<u8, Error>(Error::InvalidCharacter),
{
    let idx: u8 = match c {
        'A' => 0,
        'B' => 1,
        'C' => 2,
        'D' => 3,
        'E' => 4,
        'F' => 5,
        'G' => 6,
        'H' => 7,
        'I' => 8,
        'J' => 9,
        'K' => 10,
        'L' => 11,
        'M' => 12,
        'N' => 13,
        'O' => 14,
        'P' => 15,
        'Q' => 16,
        'R' => 17,
        'S' => 18,
        'T' => 19,
        'U' => 20,
        'V' => 21,
        'W' => 22,
        'X' => 23,
        'Y' => 24,
        'Z' => 25,
        'a' => 26,
        'b' => 27,
        'c' => 28,
        'd' => 29,
        'e' => 30,
        'f' => 31,
        'g' => 32,
        'h' => 33,
        'i' => 34,
        'j' => 35,
        'k' => 36,
        'l' => 37,
        'm' => 38,
        'n' => 39,
        'o' => 40,
        'p' => 41,
        'q' => 42,
        'r' => 43,
        's' => 44,
        't' => 45,
        'u' => 46,
        'v' => 47,
        'w' => 48,
        'x' => 49,
        'y' => 50,
        'z' => 51,
        '0' => 52,
        '1' => 53,
        '2' => 54,
        '3' => 55,
        '4' => 56,
        '5' => 57,
        '6' => 58,
        '7' => 59,
        '8' => 60,
        '9' => 61,
        '-' => 62,
        '_' => 63,
        _ => return Err(Error::InvalidCharacter),
    };

    Ok(idx)
}

} // verus!
