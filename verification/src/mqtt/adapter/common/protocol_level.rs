//! The protocol levels a CONNECT may announce.
use vstd::prelude::*;

verus! {

/// The protocol level of MQTT 3.1.1.
#[derive(Debug, Clone, Copy, PartialEq, Eq, Structural)]
pub enum ProtocolLevel {
    Mqtt3_1_1,
}

} // verus!
