//! MQTT 3.1.1 as a protocol of the broker.
use vstd::prelude::*;

pub mod codec;

verus! {

#[derive(Debug, Clone)]
pub struct MqttV4;

impl MqttV4 {
    pub fn new() -> (r: Self)
        ensures
            r == MqttV4,
    {
        MqttV4
    }
}

} // verus!
