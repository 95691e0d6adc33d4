//! Byte codecs of the wire protocol.

pub mod cursor;
pub mod string;
pub mod varint;
