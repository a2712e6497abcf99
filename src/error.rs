//! The errors that decoding a VBA project can report.
use vstd::prelude::*;

verus! {

/// Why the PROJECT stream could not be turned into a project record.
#[derive(Debug, PartialEq, Eq)]
pub enum ProjectStructure {
    /// A protected field holds no value: its error, the input from the
    /// field's line on, and the whole stream.
    ProtectionState(ProtectionState, Vec<u8>, Vec<u8>),
    Password(Password, Vec<u8>, Vec<u8>),
    Visibility(Visibility, Vec<u8>, Vec<u8>),
    /// The text does not follow the grammar: the input that was left where the
    /// failing rule stood, and the whole stream.
    Grammar(Vec<u8>, Vec<u8>),
}

/// Why the `CMG` field does not hold a protection state.
#[derive(Debug, PartialEq, Eq)]
pub enum ProtectionState {
    Decrypt(DataEncryption),
    DataLength(usize),
    ReservedBits([u8; 4]),
}

/// Why the `DPB` field does not hold a password.
#[derive(Debug, PartialEq, Eq)]
pub enum Password {
    Decrypt(DataEncryption),
    NoPassword(PasswordNone),
    Hash(PasswordHash),
    PlainText(PasswordPlain),
    NoData,
}

/// A one byte password record that is not the null byte.
#[derive(Debug, PartialEq, Eq)]
pub enum PasswordNone {
    NotNull(u8),
}

/// Why a hashed password record could not be decoded.
#[derive(Debug, PartialEq, Eq)]
pub enum PasswordHash {
    Length(usize),
    Reserved(u8),
    Terminator(u8),
    SaltNull([u8; 4], usize),
    HashNull([u8; 20], usize),
}

/// Why a salt and hash could not be encoded.
#[derive(Debug, PartialEq, Eq)]
pub enum PasswordHashEncode {
    SaltLength(usize),
}

/// A plain text password record that is not null terminated.
#[derive(Debug, PartialEq, Eq)]
pub enum PasswordPlain {
    Terminator(u8),
}

/// Why the `GC` field does not hold a visibility state.
#[derive(Debug, PartialEq, Eq)]
pub enum Visibility {
    Decrypt(DataEncryption),
    DataLength(usize),
    InvalidState(u8),
}

/// Why encrypted data could not be decrypted.
#[derive(Debug, PartialEq, Eq)]
pub enum DataEncryption {
    InvalidHex(InvalidHex),
    /// Fewer than eight bytes; the input as lower case hex.
    TooShort(String),
    Version(u8),
    /// The payload length found, then the length that the data announced.
    LengthMismatch(u32, u32),
}

/// A string that holds a character other than an ASCII hex digit.
#[derive(Debug, PartialEq, Eq)]
pub struct InvalidHex(pub String);

} // verus!
