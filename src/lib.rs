//! Inspection and removal of the password protection of VBA projects stored in
//! Excel workbooks.
//!
//! The library decodes the PROJECT stream of a VBA project: the reversible
//! stream cipher that hides its protected fields, the hashed password record,
//! and the line-oriented grammar of the stream itself.
pub mod data_encryption;
pub mod error;
pub mod hex;
pub mod password_hash;
pub mod project;
pub mod read;
pub mod remove;
pub mod text;
pub mod types;
