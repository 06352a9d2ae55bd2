//! Fixed-width signed and unsigned integers written as fixed-length strings
//! over the URL-safe Base64 alphabet, keeping the big-endian bit pattern.
pub mod alphabet;
pub mod base64;
pub mod laws;
pub mod radix;
mod error;

pub use error::Error;
