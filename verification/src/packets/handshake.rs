//! The first packet a client sends.

use vstd::prelude::*;
use vstd::utf8::{decode_utf8, valid_utf8};
use crate::encoding::cursor::Cursor;
use crate::encoding::string::{
    announced_len, announced_payload, read_string, string_failure, string_framed,
};
use crate::encoding::varint::{read_varint, varint_failure, varint_len, varint_value, VarInt};
use crate::error::CodecError;

verus! {

/// What the client wants: its protocol version, the address and port it
/// dialled, and the state it asks to enter.
#[derive(Debug)]
pub struct Handshake {
    pub protocol_version: VarInt,
    pub server_address: String,
    pub server_port: u16,
    pub next_state: VarInt,
}

/// The bytes of a handshake behind the protocol version.
pub open spec fn after_version(bytes: Seq<u8>) -> Seq<u8> {
    bytes.skip(varint_len(bytes))
}

/// The bytes of a handshake behind the server address.
pub open spec fn after_address(bytes: Seq<u8>) -> Seq<u8> {
    let rest = after_version(bytes);
    rest.skip(varint_len(rest) + announced_len(rest))
}

/// The bytes of a handshake behind the server port.
pub open spec fn after_port(bytes: Seq<u8>) -> Seq<u8> {
    after_address(bytes).skip(2)
}

/// `bytes` start with a whole handshake: a VarInt, a string, two bytes and
/// a VarInt, one behind the other.
pub open spec fn is_handshake(bytes: Seq<u8>) -> bool {
    &&& varint_len(bytes) > 0
    &&& string_framed(after_version(bytes))
    &&& valid_utf8(announced_payload(after_version(bytes)))
    &&& after_address(bytes).len() >= 2
    &&& varint_len(after_port(bytes)) > 0
}

/// What a reader reports of bytes that hold no handshake at their start,
/// which is what it reports of the first field that cannot be read: whether
/// the error is of the `Io` kind, and its message.
pub open spec fn handshake_failure(bytes: Seq<u8>) -> (bool, Seq<char>) {
    if varint_len(bytes) == 0 {
        varint_failure(bytes)
    } else if !(string_framed(after_version(bytes)) && valid_utf8(
        announced_payload(after_version(bytes)),
    )) {
        string_failure(after_version(bytes))
    } else if after_address(bytes).len() < 2 {
        (true, "unexpected end of input"@)
    } else {
        varint_failure(after_port(bytes))
    }
}

/// The number of bytes that the handshake at the start of `bytes` takes.
pub open spec fn handshake_len(bytes: Seq<u8>) -> int {
    varint_len(bytes) + varint_len(after_version(bytes)) + announced_len(after_version(bytes)) + 2
        + varint_len(after_port(bytes))
}

impl Handshake {
    /// Reads a handshake at the cursor's position: the protocol version as
    /// a VarInt, the server address as a string, the server port as two
    /// bytes, the high one first, and the next state as a VarInt.
    pub fn decode(cursor: &mut Cursor) -> (r: Result<Handshake, CodecError>)
        ensures
            final(cursor).bytes() == old(cursor).bytes(),
            r is Ok <==> is_handshake(old(cursor).remaining()),
            r matches Err(e) ==> (e is Io, e.message_text()) == handshake_failure(
                old(cursor).remaining(),
            ),
            r matches Ok(h) ==> {
                let bytes = old(cursor).remaining();
                &&& h.protocol_version.value() == varint_value(bytes, varint_len(bytes))
                &&& h.protocol_version.width() == varint_len(bytes)
                &&& h.server_address@ == decode_utf8(announced_payload(after_version(bytes)))
                &&& h.server_port == after_address(bytes)[0] * 256 + after_address(bytes)[1]
                &&& h.next_state.value() == varint_value(
                    after_port(bytes),
                    varint_len(after_port(bytes)),
                )
                &&& h.next_state.width() == varint_len(after_port(bytes))
                &&& final(cursor).offset() == old(cursor).offset() + handshake_len(bytes)
            },
    {
        let ghost bytes = cursor.remaining();
        let protocol_version = match read_varint(cursor) {
            Ok(v) => v,
            Err(e) => {
                return Err(e);
            },
        };
        assert(cursor.remaining() == after_version(bytes));
        let server_address = match read_string(cursor) {
            Ok(s) => s,
            Err(e) => {
                return Err(e);
            },
        };
        let port_bytes = match cursor.read_exact(2) {
            Ok(b) => b,
            Err(e) => {
                return Err(e);
            },
        };
        let server_port: u16 = (port_bytes[0] as u16) * 256 + (port_bytes[1] as u16);
        assert(cursor.remaining() == after_port(bytes));
        let next_state = match read_varint(cursor) {
            Ok(v) => v,
            Err(e) => {
                return Err(e);
            },
        };
        Ok(Handshake { protocol_version, server_address, server_port, next_state })
    }
}

} // verus!
