//! The records a run produces.

use crate::constants::{MAX_PLAYER_SLOT, SPECTATOR_NAME, TEAM_AMBER, TEAM_SAPPHIRE};
use vstd::prelude::*;

verus! {

/// One player of the match, as last observed.
#[derive(Debug, PartialEq, Eq)]
pub struct MatchPlayer {
    /// Stable numeric identity; the key under which updates are merged.
    pub account_id: u32,
    /// Most recently observed name.
    pub steam_name: String,
    /// Seat number.
    pub player_slot: u8,
    /// Team number: amber or sapphire.
    pub team: u8,
    /// Selected hero, `0` while unknown.
    pub hero_id: u32,
}

impl Clone for MatchPlayer {
    fn clone(&self) -> (r: Self)
        ensures
            r == *self,
    {
        MatchPlayer {
            account_id: self.account_id,
            steam_name: self.steam_name.clone(),
            player_slot: self.player_slot,
            team: self.team,
            hero_id: self.hero_id,
        }
    }
}

/// The final two-team result of a run.
#[derive(Debug, PartialEq, Eq)]
pub struct MatchData {
    /// Players of the amber team, ascending by seat.
    pub amber_team: Vec<MatchPlayer>,
    /// Players of the sapphire team, ascending by seat.
    pub sapphire_team: Vec<MatchPlayer>,
}

/// What makes a record one of a real player: an identity, a name other than
/// the spectator's, a seat within the match and one of the two teams.
pub open spec fn is_valid_player(p: MatchPlayer) -> bool {
    &&& p.account_id != 0
    &&& p.steam_name@ != SPECTATOR_NAME@
    &&& p.player_slot <= MAX_PLAYER_SLOT
    &&& (p.team == TEAM_AMBER || p.team == TEAM_SAPPHIRE)
}

} // verus!
