//! Datagram framing: the one-byte packet-type discriminant, the stale-tick
//! filter the receiver applies to snapshot headers, and the outbound command
//! frames the sender writes.

use vstd::bytes::{spec_u32_from_le_bytes, spec_u32_to_le_bytes, u32_from_le_bytes};
use vstd::prelude::*;

use crate::codec::{put_bool, put_u32, spec_enc_bool, spec_enc_game_state};
use crate::game::{wf_game_state, GameState};

verus! {

/// The closed set of packet types, one per leading discriminant byte.
#[derive(Clone, Copy, PartialEq, Eq, Structural, Debug)]
pub enum UdpPacketTypes {
    Quit,
    GameState,
    Connection,
    Paused,
    Speed,
    Render,
}

/// The packet type a discriminant byte names, if any.
pub open spec fn spec_packet_type(byte: u8) -> Option<UdpPacketTypes> {
    if byte == 0 {
        Some(UdpPacketTypes::Quit)
    } else if byte == 1 {
        Some(UdpPacketTypes::GameState)
    } else if byte == 2 {
        Some(UdpPacketTypes::Connection)
    } else if byte == 3 {
        Some(UdpPacketTypes::Paused)
    } else if byte == 4 {
        Some(UdpPacketTypes::Speed)
    } else if byte == 5 {
        Some(UdpPacketTypes::Render)
    } else {
        None
    }
}

impl UdpPacketTypes {
    /// Dispatches on a received discriminant byte. An unrecognized byte is
    /// fatal to the receiver, which is why this returns `None` rather than a
    /// default.
    pub fn new(byte: u8) -> (r: Option<UdpPacketTypes>)
        ensures
            r == spec_packet_type(byte),
    {
        match byte {
            0 => Some(UdpPacketTypes::Quit),
            1 => Some(UdpPacketTypes::GameState),
            2 => Some(UdpPacketTypes::Connection),
            3 => Some(UdpPacketTypes::Paused),
            4 => Some(UdpPacketTypes::Speed),
            5 => Some(UdpPacketTypes::Render),
            _ => None,
        }
    }

    /// The discriminant byte of this packet type.
    pub open spec fn spec_byte(self) -> u8 {
        match self {
            UdpPacketTypes::Quit => 0,
            UdpPacketTypes::GameState => 1,
            UdpPacketTypes::Connection => 2,
            UdpPacketTypes::Paused => 3,
            UdpPacketTypes::Speed => 4,
            UdpPacketTypes::Render => 5,
        }
    }

    /// Writes this packet type as its discriminant byte.
    pub fn to_byte(self) -> (r: u8)
        ensures
            r == self.spec_byte(),
            spec_packet_type(r) == Some(self),
    {
        match self {
            UdpPacketTypes::Quit => 0,
            UdpPacketTypes::GameState => 1,
            UdpPacketTypes::Connection => 2,
            UdpPacketTypes::Paused => 3,
            UdpPacketTypes::Speed => 4,
            UdpPacketTypes::Render => 5,
        }
    }
}

/// The stale-tick rule: a snapshot is accepted when its tick is newer than
/// the last accepted one, or when it is a bootstrap snapshot (tick 0 or 1,
/// which a server restart may legitimately send after higher ticks).
pub open spec fn spec_accepts_tick(new_tick: u64, last_tick: u64) -> bool {
    new_tick <= 1 || new_tick > last_tick
}

/// The receiver's stale-tick filter, run on the tick count peeked from a
/// snapshot header before the datagram is decoded in full.
pub fn accepts_tick(new_tick: u64, last_tick: u64) -> (r: bool)
    ensures
        r == spec_accepts_tick(new_tick, last_tick),
{
    new_tick <= 1 || new_tick > last_tick
}

/// Stale-tick rejection: a non-bootstrap snapshot whose tick does not exceed
/// the last accepted tick is never accepted, so it is never seen by the
/// buffer's `advance`. (A bootstrap snapshot, tick 0 or 1, is the one
/// deliberate exception to monotonicity.)
pub proof fn lemma_stale_tick_rejected(new_tick: u64, last_tick: u64)
    requires
        new_tick > 1,
        new_tick <= last_tick,
    ensures
        !spec_accepts_tick(new_tick, last_tick),
{
}

/// Bootstrap admission: tick 0 or 1 always passes the filter, whatever was
/// accepted before.
pub proof fn lemma_bootstrap_accepted(new_tick: u64, last_tick: u64)
    requires
        new_tick <= 1,
    ensures
        spec_accepts_tick(new_tick, last_tick),
{
}

/// Accepted non-bootstrap snapshots advance strictly: the filter admits a
/// tick above 1 only if it is strictly newer.
pub proof fn lemma_accepted_tick_strictly_newer(new_tick: u64, last_tick: u64)
    requires
        new_tick > 1,
        spec_accepts_tick(new_tick, last_tick),
    ensures
        new_tick > last_tick,
{
}

/// Decodes a received playback-speed payload: the bit pattern of a
/// single-precision float, little endian.
pub fn decode_speed(s: &[u8]) -> (r: u32)
    requires
        s@.len() == 4,
    ensures
        r == spec_u32_from_le_bytes(s@),
{
    u32_from_le_bytes(s)
}

/// Decodes a received paused-flag payload: any nonzero byte pauses.
pub fn decode_paused(byte: u8) -> (r: bool)
    ensures
        r == (byte != 0),
{
    byte != 0
}

/// An outbound command for the sender worker. The speed is an IEEE-754
/// single-precision bit pattern.
pub enum SendableUdp {
    Paused(bool),
    Speed(u32),
    State(GameState),
}

impl SendableUdp {
    /// The discriminant byte that frames this command on the wire.
    pub open spec fn spec_type(self) -> UdpPacketTypes {
        match self {
            SendableUdp::Paused(_) => UdpPacketTypes::Paused,
            SendableUdp::Speed(_) => UdpPacketTypes::Speed,
            SendableUdp::State(_) => UdpPacketTypes::GameState,
        }
    }

    /// The payload bytes that follow the discriminant.
    pub open spec fn spec_payload(self) -> Seq<u8> {
        match self {
            SendableUdp::Paused(b) => spec_enc_bool(b),
            SendableUdp::Speed(v) => spec_u32_to_le_bytes(v),
            SendableUdp::State(g) => spec_enc_game_state(g@),
        }
    }

    /// Frames this command: the discriminant byte, then the encoded payload.
    /// The sender writes the two parts to the socket in that order.
    pub fn to_frame(&self) -> (r: (u8, Vec<u8>))
        requires
            self matches SendableUdp::State(g) ==> wf_game_state(g@),
        ensures
            r.0 == self.spec_type().spec_byte(),
            r.1@ == self.spec_payload(),
    {
        match self {
            SendableUdp::Paused(b) => {
                let mut out: Vec<u8> = Vec::new();
                put_bool(&mut out, *b);
                proof {
                    assert(out@ =~= self.spec_payload());
                }
                (UdpPacketTypes::Paused.to_byte(), out)
            },
            SendableUdp::Speed(v) => {
                let mut out: Vec<u8> = Vec::new();
                put_u32(&mut out, *v);
                proof {
                    assert(out@ =~= self.spec_payload());
                }
                (UdpPacketTypes::Speed.to_byte(), out)
            },
            SendableUdp::State(g) => (UdpPacketTypes::GameState.to_byte(), g.to_bytes()),
        }
    }
}

/// A received playback-speed update, as float bits.
pub struct SpeedUpdate(pub u32);

/// A received paused-flag update.
pub struct PausedUpdate(pub bool);

} // verus!
