//! The signing side: what runs on the machine that holds the keys.

pub mod dice;
pub mod print;
pub mod privacy;
pub mod sign;
