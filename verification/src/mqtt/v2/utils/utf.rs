//! UTF-8 strings as MQTT writes them: a two-byte length, then UTF-8 text
//! without the characters that MQTT forbids.
pub mod utf_8_handler;
