//! The entity-component store: a registry of entities, per-type component
//! maps with reader/writer locks, and queries over them.

pub mod access;
pub mod component;
pub mod entity;
pub mod laws;
pub mod error;
pub mod lock;
pub mod query;
