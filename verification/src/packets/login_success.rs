//! The packet that ends the login.

use vstd::prelude::*;
use crate::encoding::varint::VarInt;

verus! {

/// Sent by the server to the client to start the play state.
#[derive(Debug)]
pub struct LoginSuccess {
    pub packet_id: VarInt,
    pub uuid: Vec<u8>,
    pub username: String,
    /// How many properties follow.
    pub property_count: VarInt,
    pub properties: Vec<Property>,
}

/// A named value attached to a player at login.
#[derive(Debug)]
pub struct Property {
    pub name: String,
    pub value: String,
    pub is_signed: bool,
    /// Only meaningful where `is_signed` is true.
    pub signature: String,
}

/// The id under which [`LoginSuccess`] travels.
pub const LOGIN_SUCCESS_ID: i32 = 0x02;

impl LoginSuccess {
    /// A login success without properties, under the packet's own id.
    pub fn new(uuid: Vec<u8>, username: String) -> (packet: LoginSuccess)
        ensures
            packet.packet_id == VarInt::of(LOGIN_SUCCESS_ID),
            packet.packet_id.value() == LOGIN_SUCCESS_ID,
            packet.uuid == uuid,
            packet.username == username,
            packet.property_count == VarInt::of(0),
            packet.property_count.value() == 0,
            packet.properties@.len() == 0,
    {
        LoginSuccess {
            packet_id: VarInt::new(LOGIN_SUCCESS_ID),
            uuid,
            username,
            property_count: VarInt::new(0),
            properties: Vec::new(),
        }
    }
}

} // verus!
