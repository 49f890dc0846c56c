//! Number and string conversions, and their errors.
pub mod code_error;
pub mod radix;
pub mod utf;
