//! Application-layer protocol decoding: primitive field types, packet
//! layouts, and the direction- and state-aware dispatch.

pub mod listener;
pub mod packets;
pub mod types;
