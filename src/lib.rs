//! Time-based one-time-password second factor: secret handling, code
//! verification with drift tolerance and replay protection, and the
//! enrollment / revocation life cycle of a factor.
pub mod error;
pub mod secret;
pub mod engine;
pub mod factor;
