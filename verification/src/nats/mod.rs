//! The NATS client protocol: its packets and its codec.
pub mod codec;
pub mod packet;
