//! Reading and writing bytes on a buffer.
pub mod byte_operations;
