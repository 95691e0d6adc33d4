//! The adapter for the world format.

pub mod errors;
