//! End-to-end media encryption.
pub mod sframe;
