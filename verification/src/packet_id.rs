//! The identity of a packet on the bus, as plain values.

use vstd::prelude::*;

verus! {

/// A packet identity: channel, destination address, source address, command.
#[derive(Clone, Copy, Debug, PartialEq, Eq, Structural, Hash)]
pub struct PacketId {
    pub channel: u8,
    pub destination_address: u16,
    pub source_address: u16,
    pub command: u16,
}

impl View for PacketId {
    type V = (u8, u16, u16, u16);

    open spec fn view(&self) -> (u8, u16, u16, u16) {
        (self.channel, self.destination_address, self.source_address, self.command)
    }
}

} // verus!
