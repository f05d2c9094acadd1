//! Error kinds of the library.

use vstd::prelude::*;

verus! {

/// Failures of checksum computation and forging.
#[derive(Debug, PartialEq, Eq)]
pub enum HashError {
    /// A file could not be read or written; the message says why.
    Io(String),
    /// The path names no file.
    InvalidPath,
    /// The checksum came out other than required.
    Mismatch { expected: u32, actual: u32 },
}

/// Failures of the table cipher's string codec. Bytes that are not valid UTF-16
/// are no failure: they are read as Latin-1.
#[derive(Debug)]
pub enum TableEncryptionError {
    /// The text is not valid padded standard base64.
    Base64Decode(base64::DecodeError),
}

/// Failures of the general GF(2) solver and of its hex input.
#[derive(Debug, PartialEq, Eq)]
pub enum CrcServiceError {
    /// A hex string of odd length.
    OddHexLength,
    /// A pair of characters that is not a hex number.
    InvalidHex,
    /// Zero has no inverse.
    ZeroInverse,
    /// The polynomial has no inverse modulo the modulus.
    ModularInverseUndefined,
}

} // verus!
