//! The protocol's primitive field types and their decoders.

pub mod error;
pub mod identifier;
pub mod known_pack;
pub mod player_property;
pub mod primitives;
pub mod reader;
pub mod state;
pub mod string;
pub mod uuid;
pub mod var_num;
pub mod vec;
