//! The remaining length of a fixed header.
pub mod remaining_length_parser;
