//! Handshake and tunnel logic of a voice-chat companion for a game client.
//!
//! The crate negotiates a voice secret with a server-side voice extension over
//! the game's plugin channels and seals voice datagrams with the negotiated
//! key. Nothing here touches a socket or the host session: those stay with
//! the caller, which feeds events in and carries actions and datagrams out.

pub mod resource_location;
pub mod wire;
pub mod secret;
pub mod plugin_message;
pub mod event;
pub mod handshake;
pub mod plugin_channels;
pub mod respawn;
pub mod shutdown;
pub mod voice;
