//! Rules of the packet device between the framed tunnel and the network stack.
//!
//! The stack takes **one read for exactly one IP packet** and **one write for
//! exactly one IP packet**. A byte stream would merge or split packets, so the
//! device hands packets over whole: one that does not fit the reader's buffer
//! (i.e. is larger than the configured MTU) is dropped instead of being
//! truncated, and a write always takes the whole buffer.

use vstd::prelude::*;

verus! {

/// What the tunnel has for a reader.
#[derive(Clone, Copy, Debug, PartialEq, Eq, Structural)]
pub enum Inbound {
    /// A packet of this length.
    Packet(usize),
    /// Nothing yet.
    Empty,
    /// The session has gone away.
    Closed,
}

/// What a reader gets.
#[derive(Clone, Copy, Debug, PartialEq, Eq, Structural)]
pub enum ReadStep {
    /// The packet.
    Deliver,
    /// Nothing: the packet is dropped, and the next one is looked at.
    Drop,
    /// Nothing for now. A reader stays parked when the session has gone away:
    /// an end of the input would be taken for an empty packet.
    Park,
}

/// What a reader with `room` bytes of buffer gets.
pub open spec fn read_rule(inbound: Inbound, room: usize) -> ReadStep {
    match inbound {
        Inbound::Packet(len) => if len > room {
            ReadStep::Drop
        } else {
            ReadStep::Deliver
        },
        Inbound::Empty => ReadStep::Park,
        Inbound::Closed => ReadStep::Park,
    }
}

/// What a reader with `room` bytes of buffer gets.
pub fn read_step(inbound: Inbound, room: usize) -> (r: ReadStep)
    ensures
        r == read_rule(inbound, room),
{
    match inbound {
        Inbound::Packet(len) => if len > room {
            ReadStep::Drop
        } else {
            ReadStep::Deliver
        },
        Inbound::Empty => ReadStep::Park,
        Inbound::Closed => ReadStep::Park,
    }
}

/// Room for another packet into the tunnel.
#[derive(Clone, Copy, Debug, PartialEq, Eq, Structural)]
pub enum Outbound {
    Ready,
    Full,
    /// Nobody takes packets any more.
    Closed,
}

/// What a writer gets.
#[derive(Clone, Copy, Debug, PartialEq, Eq, Structural)]
pub enum WriteStep {
    /// The buffer goes out as one packet; all its bytes are taken.
    Send(usize),
    BrokenPipe,
    /// The writer waits.
    Wait,
}

/// What the writer of a buffer of `len` bytes gets.
pub fn write_step(outbound: Outbound, len: usize) -> (r: WriteStep)
    ensures
        r == (match outbound {
            Outbound::Ready => WriteStep::Send(len),
            Outbound::Full => WriteStep::Wait,
            Outbound::Closed => WriteStep::BrokenPipe,
        }),
{
    match outbound {
        Outbound::Ready => WriteStep::Send(len),
        Outbound::Full => WriteStep::Wait,
        Outbound::Closed => WriteStep::BrokenPipe,
    }
}

/// A packet is delivered whole or not at all.
pub proof fn no_packet_is_truncated(len: usize, room: usize)
    ensures
        read_rule(Inbound::Packet(len), room) == ReadStep::Deliver <==> len <= room,
        read_rule(Inbound::Packet(len), room) != ReadStep::Park,
{
}

/// A packet that fits is delivered, a longer one is dropped, and without a
/// packet the reader waits.
pub proof fn every_read_is_decided(inbound: Inbound, room: usize)
    ensures
        read_rule(inbound, room) == ReadStep::Deliver <==> (inbound matches Inbound::Packet(len)
            && len <= room),
        read_rule(inbound, room) == ReadStep::Drop <==> (inbound matches Inbound::Packet(len)
            && len > room),
        read_rule(inbound, room) == ReadStep::Park <==> inbound is Empty || inbound is Closed,
{
}

} // verus!
