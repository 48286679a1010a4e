pub mod bytes;
pub mod commitment;
pub mod curve;
pub mod error;
pub mod generators;
pub mod hashing;
pub mod laws;
pub mod knowledge;
pub mod signature;
pub mod suite;
