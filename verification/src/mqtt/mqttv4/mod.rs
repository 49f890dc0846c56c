//! MQTT 3.1.1 (protocol level 4) packet codecs.
pub mod connack;
pub mod puback;
pub mod pubcomp;
pub mod pubrec;
pub mod pubrel;
pub mod unsuback;
pub mod disconnect;
pub mod publish;
pub mod subscribe;
pub mod unsubscribe;
pub mod connect;
pub mod codec;
