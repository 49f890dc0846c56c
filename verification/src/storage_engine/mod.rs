//! The storage engine's protobuf-framed requests and responses.
use vstd::prelude::*;

pub mod codec;
pub mod storage;

verus! {

/// What the storage engine codec refuses.
#[derive(Debug)]
pub enum Error {
    /// The transport failed.
    IoError(std::io::Error),
    /// The header and the body together are longer than a frame may carry.
    PayloadSizeLimitExceeded(usize),
    /// A frame declares a header of no bytes.
    HeaderLengthIsZero,
    /// The header bytes did not decode; the decoder's message.
    DecodeHeaderError(String),
    /// The body bytes did not decode: which body, and the decoder's message.
    DecodeBodyError(String, String),
}

} // verus!
