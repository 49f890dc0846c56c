pub mod connect;
pub mod suback;
