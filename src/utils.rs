//! CRC-32 forging and asset file naming.

pub mod crc_manipulator;
pub mod strategy;
