//! Nibbles of a byte and two-byte big-endian numbers.
pub mod radix_handler;
