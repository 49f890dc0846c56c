//! The payload of a SUBACK: one return code per requested subscription.
use vstd::prelude::*;

verus! {

#[derive(Debug, Clone, PartialEq)]
pub struct SubAckPayload {
    return_codes: Vec<SubAckReturnCode>,
}

#[derive(Debug, Clone, Copy, PartialEq, Eq, Structural)]
pub enum SubAckReturnCode {
    SuccessQoS0,
    SuccessQoS1,
    SuccessQoS2,
    Failure,
}

impl SubAckPayload {
    pub closed spec fn spec_return_codes(&self) -> Seq<SubAckReturnCode> {
        self.return_codes@
    }

    pub fn new(return_codes: Vec<SubAckReturnCode>) -> (r: Self)
        ensures
            r.spec_return_codes() == return_codes@,
    {
        SubAckPayload { return_codes }
    }

    pub fn return_codes(&self) -> (r: &Vec<SubAckReturnCode>)
        ensures
            r@ == self.spec_return_codes(),
    {
        &self.return_codes
    }
}

} // verus!
