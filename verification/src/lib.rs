//! A wake-on-demand proxy agent for a game server: a binary packet codec
//! built on a variable-length integer encoding, a status client, a
//! synthetic-status responder, and the lifecycle controller that decides
//! when the expensive backend is started and stopped.

pub mod client;
pub mod error;
pub mod json;
pub mod packet;
pub mod proxy;
pub mod raw_json_text;
pub mod server;
pub mod text;
pub mod varint;
pub mod wire;
