//! Values carried between server edge and client that the library reads.
use vstd::prelude::*;

verus! {

/// Unreliable + sequenced channel: snapshots and input commands.
pub const CHANNEL_REALTIME: u8 = 0;

/// Reliable + ordered channel: hello, welcome and baseline.
pub const CHANNEL_CONTROL: u8 = 1;

/// Number of channels allocated per peer (Realtime + Control).
pub const CHANNEL_LIMIT: usize = 2;

/// Simulation tick number.
pub type Tick = u64;

/// Per-session input sequence number.
pub type InputSeq = u64;

/// Identifier of a player.
pub type PlayerId = u8;

/// Identifier of a simulated entity.
pub type EntityId = u64;

/// Identifier of a session.
pub type SessionId = u64;

/// The server's answer to a client's hello.
#[derive(Debug, Clone, Copy, PartialEq, Eq, Structural)]
pub struct ServerWelcome {
    pub target_tick_floor: Tick,
    pub tick_rate_hz: u32,
    pub player_id: u32,
    pub controlled_entity_id: EntityId,
}

} // verus!
