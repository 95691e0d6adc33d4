//! Building blocks of a Minecraft-compatible server: an entity-component
//! store with a typed query engine, and the byte codecs of the wire protocol.

pub mod anvil;
pub mod ecs;
pub mod encoding;
pub mod error;
pub mod packets;
