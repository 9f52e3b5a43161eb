pub mod crypto;
pub mod frame;
pub mod handshake;
pub mod conn;
