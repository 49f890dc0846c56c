//! The variable header of a CONNACK.
use crate::mqtt::adapter::mqtt_3_1_1::variable_header::return_code::ReturnCode;
use vstd::prelude::*;

verus! {

#[derive(Debug, Clone, PartialEq, Eq, Structural)]
pub struct ConnAckVariableHeader {
    session_present: bool,
    return_code: ReturnCode,
}

impl ConnAckVariableHeader {
    pub closed spec fn spec_session_present(&self) -> bool {
        self.session_present
    }

    pub closed spec fn spec_return_code(&self) -> ReturnCode {
        self.return_code
    }

    pub fn new(session_present: bool, return_code: ReturnCode) -> (r: Self)
        ensures
            r.spec_session_present() == session_present,
            r.spec_return_code() == return_code,
    {
        ConnAckVariableHeader { session_present, return_code }
    }

    pub fn session_present(&self) -> (r: bool)
        ensures
            r == self.spec_session_present(),
    {
        self.session_present
    }

    pub fn return_code(&self) -> (r: &ReturnCode)
        ensures
            *r == self.spec_return_code(),
    {
        &self.return_code
    }
}

} // verus!
