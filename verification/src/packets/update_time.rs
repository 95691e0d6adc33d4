//! The time update that the server sends, and the tick that triggers it.

use vstd::prelude::*;

verus! {

/// Tells the client the age of the world and the time of day, in ticks.
#[derive(Debug, Clone, Copy, PartialEq, Eq, Structural)]
pub struct UpdateTimePacket {
    pub world_age: i64,
    pub time_of_day: i64,
}

impl UpdateTimePacket {
    /// A time update with the given ages, in ticks.
    pub fn new(world_age: i64, time_of_day: i64) -> (packet: UpdateTimePacket)
        ensures
            packet == (UpdateTimePacket { world_age, time_of_day }),
    {
        Self { world_age, time_of_day }
    }
}

/// One tick of the server clock.
#[derive(Debug, Clone, Copy, PartialEq, Eq, Structural)]
pub struct TickEvent {
    pub tick: i64,
}

impl TickEvent {
    /// The event for the given tick.
    pub fn new(tick: i64) -> (event: TickEvent)
        ensures
            event == (TickEvent { tick }),
    {
        Self { tick }
    }
}

} // verus!
