//! The variable header of a CONNECT: protocol name and level, flags and
//! keep alive.
use crate::mqtt::adapter::common::protocol_level::ProtocolLevel;
use crate::mqtt::adapter::common::qos::QoSLevel;
use vstd::prelude::*;

verus! {

#[derive(Debug, Clone, PartialEq)]
pub struct ConnectVariableHeader {
    protocol_name: String,
    protocol_level: ProtocolLevel,
    connect_flags: ConnectVariableFlags,
    keep_alive: u16,
}

#[derive(Debug, Clone, Copy, PartialEq, Eq, Structural)]
pub struct ConnectVariableFlags {
    username_flag: bool,
    password_flag: bool,
    will_retain: bool,
    will_qos: QoSLevel,
    will_flag: bool,
    clean_session: bool,
}

impl ConnectVariableHeader {
    pub closed spec fn spec_protocol_name(&self) -> Seq<char> {
        self.protocol_name@
    }

    pub closed spec fn spec_protocol_level(&self) -> ProtocolLevel {
        self.protocol_level
    }

    pub closed spec fn spec_connect_flags(&self) -> ConnectVariableFlags {
        self.connect_flags
    }

    pub closed spec fn spec_keep_alive(&self) -> u16 {
        self.keep_alive
    }

    /// The variable header of an MQTT 3.1.1 CONNECT: protocol `MQTT`,
    /// level 3.1.1.
    pub fn new(connect_flags: ConnectVariableFlags, keep_alive: u16) -> (r: Self)
        ensures
            r.spec_protocol_name() == "MQTT"@,
            r.spec_protocol_level() == ProtocolLevel::Mqtt3_1_1,
            r.spec_connect_flags() == connect_flags,
            r.spec_keep_alive() == keep_alive,
    {
        ConnectVariableHeader {
            protocol_name: "MQTT".to_owned(),
            protocol_level: ProtocolLevel::Mqtt3_1_1,
            connect_flags,
            keep_alive,
        }
    }

    pub fn protocol_name(&self) -> (r: &str)
        ensures
            r@ == self.spec_protocol_name(),
    {
        self.protocol_name.as_str()
    }

    pub fn protocol_level(&self) -> (r: &ProtocolLevel)
        ensures
            *r == self.spec_protocol_level(),
    {
        &self.protocol_level
    }

    pub fn connect_flags(&self) -> (r: &ConnectVariableFlags)
        ensures
            *r == self.spec_connect_flags(),
    {
        &self.connect_flags
    }

    pub fn keep_alive(&self) -> (r: u16)
        ensures
            r == self.spec_keep_alive(),
    {
        self.keep_alive
    }
}

impl ConnectVariableFlags {
    pub closed spec fn spec_flags(&self) -> (bool, bool, bool, QoSLevel, bool, bool) {
        (
            self.username_flag,
            self.password_flag,
            self.will_retain,
            self.will_qos,
            self.will_flag,
            self.clean_session,
        )
    }

    pub fn new(
        username_flag: bool,
        password_flag: bool,
        will_retain: bool,
        will_qos: QoSLevel,
        will_flag: bool,
        clean_session: bool,
    ) -> (r: Self)
        ensures
            r.spec_flags() == (
                username_flag,
                password_flag,
                will_retain,
                will_qos,
                will_flag,
                clean_session,
            ),
    {
        ConnectVariableFlags {
            username_flag,
            password_flag,
            will_retain,
            will_qos,
            will_flag,
            clean_session,
        }
    }

    pub fn username_flag(&self) -> (r: bool)
        ensures
            r == self.spec_flags().0,
    {
        self.username_flag
    }

    pub fn password_flag(&self) -> (r: bool)
        ensures
            r == self.spec_flags().1,
    {
        self.password_flag
    }

    pub fn will_retain(&self) -> (r: bool)
        ensures
            r == self.spec_flags().2,
    {
        self.will_retain
    }

    pub fn will_qos(&self) -> (r: &QoSLevel)
        ensures
            *r == self.spec_flags().3,
    {
        &self.will_qos
    }

    pub fn will_flag(&self) -> (r: bool)
        ensures
            r == self.spec_flags().4,
    {
        self.will_flag
    }

    pub fn clean_session(&self) -> (r: bool)
        ensures
            r == self.spec_flags().5,
    {
        self.clean_session
    }
}

} // verus!
