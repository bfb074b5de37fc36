//! Deterministic derivation of a pseudo-password from a seed string.
//!
//! A seed is hashed to a digest, the digest's base-128 digits pick characters from a
//! fixed alphabet, the seed is appended, the bytes are rendered as base64, and the text is
//! cut or filled up to the length asked for.

pub mod alphabet;
pub mod deriver;
pub mod encoder;
pub mod hasher;
pub mod limits;
pub mod mapper;
pub mod normalizer;
pub mod random;
pub mod strings;

pub use crate::deriver::{checked_generator_password, generator_password, PasswordError};
pub use crate::hasher::{checked_seed_hash, seed_hash};
pub use crate::limits::fits_limits;
