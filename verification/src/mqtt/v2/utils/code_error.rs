//! The errors of the number and string conversions.
use crate::text::{concat, decimal, decimal_chars};
use vstd::prelude::*;

verus! {

#[derive(Debug)]
pub enum CodeError {
    InvalidCode(String),
    CodeConversionError(String),
    CodeLengthError(usize, usize),
    UsizeConversionError(usize, &'static str),
    UTF8DecodingError,
    MQTTInvalidCode(u32),
}

/// The text that describes a conversion error.
pub open spec fn code_error_text(e: CodeError) -> Seq<char> {
    match e {
        CodeError::InvalidCode(s) => "Invalid code: "@ + s@,
        CodeError::CodeConversionError(s) => "Code conversion error: "@ + s@,
        CodeError::CodeLengthError(expected, got) => "Code length error: expected "@ + decimal_chars(
            expected as nat,
        ) + ", got "@ + decimal_chars(got as nat),
        CodeError::UsizeConversionError(value, target) => "Usize conversion error: value "@ + decimal_chars(
            value as nat,
        ) + " is out of range for "@ + target@,
        CodeError::UTF8DecodingError => "UTF-8 decoding error"@,
        CodeError::MQTTInvalidCode(c) => "Invalid Code: "@ + decimal_chars(c as nat) + " in MQTT Protocol"@,
    }
}

impl CodeError {
    /// The text that describes the error.
    pub fn message(&self) -> (r: String)
        ensures
            r@ == code_error_text(*self),
    {
        match self {
            CodeError::InvalidCode(s) => concat("Invalid code: ", s.as_str()),
            CodeError::CodeConversionError(s) => concat("Code conversion error: ", s.as_str()),
            CodeError::CodeLengthError(expected, got) => {
                let a = concat("Code length error: expected ", decimal(*expected as u64).as_str());
                let b = concat(a.as_str(), ", got ");
                concat(b.as_str(), decimal(*got as u64).as_str())
            },
            CodeError::UsizeConversionError(value, target) => {
                let a = concat("Usize conversion error: value ", decimal(*value as u64).as_str());
                let b = concat(a.as_str(), " is out of range for ");
                concat(b.as_str(), target)
            },
            CodeError::UTF8DecodingError => "UTF-8 decoding error".to_owned(),
            CodeError::MQTTInvalidCode(c) => {
                let a = concat("Invalid Code: ", decimal(*c as u64).as_str());
                concat(a.as_str(), " in MQTT Protocol")
            },
        }
    }
}

} // verus!
