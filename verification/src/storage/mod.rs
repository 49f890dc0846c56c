//! The storage engine's request and response frames.
pub mod codec;
pub mod protocol;
