pub mod connack;
pub mod connect;
pub mod publish;
pub mod return_code;
