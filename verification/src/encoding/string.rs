//! Length-prefixed strings: a VarInt byte count, then that many bytes of UTF-8.

use vstd::prelude::*;
use vstd::utf8::{decode_utf8, encode_utf8, valid_utf8};
use crate::encoding::cursor::{overwritten, Cursor};
use crate::encoding::varint::{
    encode_varint, index_of, read_varint, varint_bytes, varint_failure, varint_len,
    varint_too_big, varint_truncated, varint_value,
};
use crate::error::CodecError;

verus! {

/// The byte count that the prefix at the start of `bytes` announces.
pub open spec fn announced_len(bytes: Seq<u8>) -> int {
    index_of(varint_value(bytes, varint_len(bytes)))
}

/// The bytes that the prefix announces: what follows it, as far as it says.
pub open spec fn announced_payload(bytes: Seq<u8>) -> Seq<u8> {
    bytes.subrange(varint_len(bytes), varint_len(bytes) + announced_len(bytes))
}

/// `bytes` start with a prefix and hold as many bytes behind it as it says.
pub open spec fn string_framed(bytes: Seq<u8>) -> bool {
    &&& varint_len(bytes) > 0
    &&& varint_len(bytes) + announced_len(bytes) <= bytes.len()
}

/// What a reader reports of bytes that hold no string at their start:
/// whether the error is of the `Io` kind, and its message.
pub open spec fn string_failure(bytes: Seq<u8>) -> (bool, Seq<char>) {
    if varint_len(bytes) == 0 {
        varint_failure(bytes)
    } else if !string_framed(bytes) {
        (false, "Bad byte read"@)
    } else {
        (false, "invalid utf-8 sequence"@)
    }
}

/// The bytes of a string on the wire: the encoded count of its UTF-8 bytes, then those bytes.
pub open spec fn string_bytes(chars: Seq<char>) -> Seq<u8> {
    varint_bytes(encode_utf8(chars).len() as i32) + encode_utf8(chars)
}

/// `String::from_utf8`, its error dropped: the string whose UTF-8 bytes are
/// `bytes`, or nothing where `bytes` are not well-formed UTF-8.
#[verifier::external_body]
fn string_from_utf8(bytes: Vec<u8>) -> (r: Option<String>)
    ensures
        r is Some <==> valid_utf8(bytes@),
        r matches Some(s) ==> encode_utf8(s@) == bytes@,
{
    String::from_utf8(bytes).ok()
}

/// The string that `bytes` spell in UTF-8.
pub fn decode_string(bytes: Vec<u8>) -> (r: Result<String, CodecError>)
    ensures
        r is Ok <==> valid_utf8(bytes@),
        r matches Ok(s) ==> s@ == decode_utf8(bytes@) && encode_utf8(s@) == bytes@,
        r matches Err(e) ==> e matches CodecError::Generic(m) && m@ == "invalid utf-8 sequence"@,
{
    match string_from_utf8(bytes) {
        Some(s) => {
            proof {
                vstd::utf8::encode_utf8_decode_utf8(s@);
            }
            Ok(s)
        },
        None => Err(CodecError::Generic("invalid utf-8 sequence".to_string())),
    }
}

/// Reads one string at the cursor's position.
///
/// The prefix is read as [`read_varint`] reads it; a negative count stands
/// for the `usize` with the same bits, which no buffer holds. Where fewer
/// bytes follow than announced, only the prefix is consumed; where they are
/// not UTF-8, they are consumed too.
pub fn read_string(cursor: &mut Cursor) -> (r: Result<String, CodecError>)
    ensures
        final(cursor).bytes() == old(cursor).bytes(),
        r is Ok <==> string_framed(old(cursor).remaining()) && valid_utf8(
            announced_payload(old(cursor).remaining()),
        ),
        r matches Ok(s) ==> {
            &&& s@ == decode_utf8(announced_payload(old(cursor).remaining()))
            &&& encode_utf8(s@) == announced_payload(old(cursor).remaining())
            &&& final(cursor).offset() == old(cursor).offset() + varint_len(
                old(cursor).remaining(),
            ) + announced_len(old(cursor).remaining())
        },
        r matches Err(e) ==> {
            let rem = old(cursor).remaining();
            &&& (e is Io, e.message_text()) == string_failure(rem)
            &&& final(cursor).offset() == old(cursor).offset() + if varint_truncated(rem) {
                rem.len() as int
            } else if varint_too_big(rem) {
                5
            } else if !string_framed(rem) {
                varint_len(rem)
            } else {
                varint_len(rem) + announced_len(rem)
            }
        },
{
    let ghost rem = cursor.remaining();
    let prefix = match read_varint(cursor) {
        Ok(v) => v,
        Err(e) => {
            return Err(e);
        },
    };
    let length: usize = prefix.into();
    let buffer = match cursor.read_exact(length) {
        Ok(b) => b,
        Err(_) => {
            return Err(CodecError::Generic("Bad byte read".to_string()));
        },
    };
    assert(buffer@ == announced_payload(rem));
    decode_string(buffer)
}

/// Writes `string` at the cursor's position: the count of its UTF-8 bytes
/// as a VarInt, then the bytes.
///
/// A string of more than `i32::MAX` bytes has no prefix, and one that would
/// end beyond `usize::MAX` has no place: neither is written, not even in part.
pub fn write_string(string: &str, cursor: &mut Cursor) -> (r: Result<(), CodecError>)
    ensures
        r is Ok <==> {
            &&& encode_utf8(string@).len() <= i32::MAX
            &&& old(cursor).offset() + string_bytes(string@).len() <= usize::MAX
        },
        r is Ok ==> {
            &&& final(cursor).bytes() == overwritten(
                old(cursor).bytes(),
                old(cursor).offset() as int,
                string_bytes(string@),
            )
            &&& final(cursor).offset() == old(cursor).offset() + string_bytes(string@).len()
        },
        r matches Err(e) ==> {
            &&& final(cursor).bytes() == old(cursor).bytes()
            &&& final(cursor).offset() == old(cursor).offset()
            &&& e matches CodecError::Generic(m)
            &&& if encode_utf8(string@).len() > i32::MAX {
                m@ == "Failed to write varint"@
            } else {
                m@ == "Failed to write string"@
            }
        },
{
    let payload = string.as_bytes();
    let length = payload.len();
    if length > 2147483647 {
        return Err(CodecError::Generic("Failed to write varint".to_string()));
    }
    let mut frame = encode_varint(length as i32);
    let mut i: usize = 0;
    let ghost prefix = frame@;
    while i < length
        invariant
            i <= length,
            length == payload@.len(),
            frame@ == prefix + payload@.take(i as int),
        decreases length - i,
    {
        frame.push(payload[i]);
        i = i + 1;
    }
    match cursor.write_all(frame.as_slice()) {
        Ok(()) => Ok(()),
        Err(_) => Err(CodecError::Generic("Failed to write string".to_string())),
    }
}

/// Reading what was written gives the string back: the wire bytes of a
/// string, whatever follows them, are framed, and their payload is the
/// string's UTF-8.
pub proof fn law_string_round_trip(chars: Seq<char>, rest: Seq<u8>)
    requires
        encode_utf8(chars).len() <= i32::MAX,
    ensures
        string_framed(string_bytes(chars) + rest),
        announced_payload(string_bytes(chars) + rest) == encode_utf8(chars),
        valid_utf8(announced_payload(string_bytes(chars) + rest)),
        decode_utf8(announced_payload(string_bytes(chars) + rest)) == chars,
        varint_len(string_bytes(chars) + rest) + announced_len(string_bytes(chars) + rest)
            == string_bytes(chars).len(),
{
    let payload = encode_utf8(chars);
    let count = payload.len() as i32;
    let prefix = varint_bytes(count);
    let wire = string_bytes(chars) + rest;
    crate::encoding::varint::law_varint_round_trip(count, payload + rest);
    assert(wire =~= prefix + (payload + rest));
    vstd::utf8::encode_utf8_valid_utf8(chars);
    vstd::utf8::encode_utf8_decode_utf8(chars);
}

} // verus!
