//! Trust gate for a signed commit history.
//!
//! Verifies that every commit since the last trusted checkpoint carries a
//! trusted signature, and says when the checkpoint may move. The crate
//! decides and computes; reading the repository and asking the
//! cryptographic engine are left to the caller.

pub mod bytes;
pub mod config;
pub mod init;
pub mod pass;
pub mod payload;
pub mod protocol;
pub mod signature;
pub mod signer;
pub mod tag;
