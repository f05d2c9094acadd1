//! Little-endian byte layout and the seeded keystream generator.

pub mod endian;
pub mod mersenne;
