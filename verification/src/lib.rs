//! Client side of a password-authenticated login to a game server: the
//! credential arithmetic, the handshake state machine, and the decisions of
//! the connection loop that drives it.

pub mod auth;
pub mod bot;
pub mod credential;
pub mod error;
pub mod message;
pub mod textures;
