//! Packets of the wire protocol, as plain values.

pub mod handshake;
pub mod login_success;
pub mod update_time;
