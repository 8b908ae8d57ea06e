//! Match parameters of the server edge.
use vstd::prelude::*;

verus! {

/// Tick rate in Hz.
pub const TICK_RATE_HZ: u32 = 60;

/// Maximum ticks ahead a client can target.
pub const MAX_FUTURE_TICKS: u64 = 120;

/// Lead of the target tick floor over the world's tick.
pub const INPUT_LEAD_TICKS: u64 = 1;

/// Input rate limit per second.
pub const INPUT_RATE_LIMIT_PER_SEC: u32 = 120;

/// Match duration in ticks.
pub const MATCH_DURATION_TICKS: u64 = 3600;

/// Connection timeout in milliseconds.
pub const CONNECT_TIMEOUT_MS: u64 = 30000;

/// Default cap on concurrent sessions, well under the range of a `PlayerId`.
pub const DEFAULT_MAX_SESSIONS: usize = 16;

/// Server configuration.
#[derive(Debug, Clone)]
pub struct ServerConfig {
    pub seed: u64,
    pub tick_rate_hz: u32,
    pub max_future_ticks: u64,
    pub input_lead_ticks: u64,
    pub input_rate_limit_per_sec: u32,
    pub match_duration_ticks: u64,
    pub connect_timeout_ms: u64,
    /// Cap on concurrent sessions.
    pub max_sessions: usize,
    pub test_mode: bool,
    /// Pre-assigned PlayerIds, consumed in connection order.
    pub test_player_ids: Option<Vec<u8>>,
}

impl ServerConfig {
    /// The configuration that `default` returns, with the given seed, test
    /// mode and test player ids.
    pub open spec fn defaults_with(
        self,
        seed: u64,
        test_mode: bool,
        test_player_ids: Option<Seq<u8>>,
    ) -> bool {
        &&& self.seed == seed
        &&& self.tick_rate_hz == TICK_RATE_HZ
        &&& self.max_future_ticks == MAX_FUTURE_TICKS
        &&& self.input_lead_ticks == INPUT_LEAD_TICKS
        &&& self.input_rate_limit_per_sec == INPUT_RATE_LIMIT_PER_SEC
        &&& self.match_duration_ticks == MATCH_DURATION_TICKS
        &&& self.connect_timeout_ms == CONNECT_TIMEOUT_MS
        &&& self.max_sessions == DEFAULT_MAX_SESSIONS
        &&& self.test_mode == test_mode
        &&& self.test_player_ids_view() == test_player_ids
    }

    /// The pre-assigned PlayerIds as a sequence.
    pub open spec fn test_player_ids_view(self) -> Option<Seq<u8>> {
        match self.test_player_ids {
            Some(v) => Some(v@),
            None => None,
        }
    }
}

impl Default for ServerConfig {
    fn default() -> (c: Self)
        ensures
            c.defaults_with(0, false, None),
    {
        ServerConfig {
            seed: 0,
            tick_rate_hz: TICK_RATE_HZ,
            max_future_ticks: MAX_FUTURE_TICKS,
            input_lead_ticks: INPUT_LEAD_TICKS,
            input_rate_limit_per_sec: INPUT_RATE_LIMIT_PER_SEC,
            match_duration_ticks: MATCH_DURATION_TICKS,
            connect_timeout_ms: CONNECT_TIMEOUT_MS,
            max_sessions: DEFAULT_MAX_SESSIONS,
            test_mode: false,
            test_player_ids: None,
        }
    }
}

} // verus!
