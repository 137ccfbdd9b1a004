//! The voice tunnel: datagrams sealed with the key that the handshake gave.

pub mod cipher;
pub mod connection;
