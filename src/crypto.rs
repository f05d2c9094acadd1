//! Byte-level obfuscation primitives and the table cipher.

pub mod md5;
pub mod table;
pub mod xor;
