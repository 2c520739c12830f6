//! Password hashing and access tokens.
pub mod hash;
pub mod jwt;
