//! A relay that keeps connected playback clients in sync: each session's
//! control events are delivered to every other registered session.

pub mod client;
pub mod client_pool;
pub mod codec;
pub mod json;
pub mod message;
pub mod payload;
pub mod server;
pub mod session;
