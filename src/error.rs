use vstd::prelude::*;

verus! {

/// Why a string of symbols could not be decoded.
#[derive(Debug, PartialEq, Eq, Structural)]
#[non_exhaustive]
pub enum Error {
    /// The input does not hold exactly as many characters as the width needs:
    /// 11 for 64-bit values, 6 for 32-bit values and 3 for 16-bit values.
    InvalidLength,
    /// The input holds a character outside the URL-safe Base64 alphabet.
    InvalidCharacter,
    /// The last character sets bits that an encoder always leaves zero.
    ///
    /// For 64-bit and 16-bit values the last character must be one of
    /// `AEIMQUYcgkosw048`; for 32-bit values one of `AQgw`.
    OutOfBoundsCharacter,
}

impl Error {
    /// A sentence that says what went wrong, for display to a person.
    pub fn message(&self) -> (r: &'static str)
        ensures
            r@ == match *self {
                Error::InvalidLength => "invalid length. number of characters was invalid"@,
                Error::InvalidCharacter => "invalid character(s). expected only base64url characters"@,
                Error::OutOfBoundsCharacter => "invalid character. last character was out of bounds"@,
            },
    {
        match self {
            Error::InvalidLength => "invalid length. number of characters was invalid",
            Error::InvalidCharacter => "invalid character(s). expected only base64url characters",
            Error::OutOfBoundsCharacter => "invalid character. last character was out of bounds",
        }
    }
}

} // verus!
