//! Fixed parameters of a match and of one extraction run.

use vstd::prelude::*;

verus! {

/// Team number of the amber side.
pub const TEAM_AMBER: u8 = 2;

/// Team number of the sapphire side.
pub const TEAM_SAPPHIRE: u8 = 3;

/// Number of players in a full match.
pub const TOTAL_PLAYERS: usize = 12;

/// Highest seat number a player can hold.
pub const MAX_PLAYER_SLOT: u8 = 12;

/// How often a connection to the broadcast is attempted.
pub const MAX_RETRY_ATTEMPTS: u32 = 10;

/// Seconds to wait between two connection attempts.
pub const RETRY_DELAY_SECS: u64 = 4;

/// Root of the match API.
pub const API_BASE_URL: &'static str = "https://api.deadlock-api.com/v1";

/// Agent name sent with every API request.
pub const USER_AGENT: &'static str = "DeadLyze/1.0";

/// Seconds after which an API request is given up.
pub const REQUEST_TIMEOUT_SECS: u64 = 10;

/// Number of packets between two progress reports.
pub const PACKET_PROGRESS_INTERVAL: u32 = 100;

/// Name under which the broadcast's own spectator appears among the players.
pub const SPECTATOR_NAME: &'static str = "SourceTV";

} // verus!
