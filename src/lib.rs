//! Asset-pipeline toolkit: CRC-32 forging over GF(2), the table cipher with its
//! seeded keystream, and the hashing helpers around them.

pub mod bindings;
pub mod catalog;
pub mod crc_service;
pub mod crypto;
pub mod error;
pub mod foreign;
pub mod hash;
pub mod math;
pub mod table_encryption;
pub mod text;
pub mod utils;
