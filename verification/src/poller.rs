//! Deciding, packet by packet, when a scan is over.

use crate::constants::{PACKET_PROGRESS_INTERVAL, TOTAL_PLAYERS};
use crate::types::MatchPlayer;
use crate::visitor::{lemma_listed_covers, lists_records, MatchDataVisitor};
use vstd::prelude::*;

verus! {

/// How a finished scan ended.
#[derive(Debug, Clone, Copy, PartialEq, Eq, Structural)]
pub enum Outcome {
    /// Every player of the match was observed with a hero.
    Success,
    /// The stream ended or failed first; what was observed is used.
    Partial,
}

/// Where a run stands.
#[derive(Debug, Clone, Copy, PartialEq, Eq, Structural)]
pub enum RunState {
    /// The broadcast is being opened.
    Connecting,
    /// Packets are read and decoded.
    Decoding,
    /// The scan is over and a result can be assembled.
    Done(Outcome),
    /// The broadcast could not be opened.
    Failed,
}

/// What happened outside since the last decision.
#[derive(Debug, Clone, Copy, PartialEq, Eq, Structural)]
pub enum RunEvent {
    /// The broadcast was opened.
    Connected,
    /// Every attempt to open the broadcast failed.
    ConnectFailed,
    /// The next packet was read from the stream.
    PacketFetched,
    /// Every entity report of the packet last read was handled.
    PacketDecoded,
    /// The packet last read could not be decoded.
    DecodeFailed,
    /// The stream failed while the next packet was read.
    FetchFailed,
    /// The stream has no more packets.
    StreamEnded,
}

/// What to do next.
#[derive(Debug, Clone, Copy, PartialEq, Eq, Structural)]
pub enum RunAction {
    /// Read the next packet from the stream.
    FetchPacket,
    /// Decode the packet just read, handing its entity reports to the
    /// visitor; report progress first where `report_progress` is set.
    DecodePacket {
        /// Whether a progress mark is due.
        report_progress: bool,
    },
    /// Stop reading and assemble the result.
    Assemble,
    /// Stop; there is nothing to assemble.
    Abort,
    /// The event does not belong to the state; nothing changes.
    Ignore,
}

/// Every player of the match is observed and every hero is known.
pub open spec fn is_complete(map: Map<u32, MatchPlayer>) -> bool {
    &&& map.dom().len() == TOTAL_PLAYERS
    &&& forall|k: u32| #[trigger] map.dom().contains(k) ==> map[k].hero_id != 0
}

/// The state that follows `state` on `event`, with `map` observed so far.
pub open spec fn next_state(state: RunState, event: RunEvent, map: Map<u32, MatchPlayer>) -> RunState {
    match (state, event) {
        (RunState::Connecting, RunEvent::Connected) => RunState::Decoding,
        (RunState::Connecting, RunEvent::ConnectFailed) => RunState::Failed,
        (RunState::Decoding, RunEvent::PacketFetched) => RunState::Decoding,
        (RunState::Decoding, RunEvent::PacketDecoded) => if is_complete(map) {
            RunState::Done(Outcome::Success)
        } else {
            RunState::Decoding
        },
        (RunState::Decoding, RunEvent::DecodeFailed) => RunState::Done(Outcome::Partial),
        (RunState::Decoding, RunEvent::FetchFailed) => RunState::Done(Outcome::Partial),
        (RunState::Decoding, RunEvent::StreamEnded) => RunState::Done(Outcome::Partial),
        _ => state,
    }
}

/// Whether `event` can occur in `state`.
pub open spec fn expected(state: RunState, event: RunEvent) -> bool {
    match (state, event) {
        (RunState::Connecting, RunEvent::Connected) => true,
        (RunState::Connecting, RunEvent::ConnectFailed) => true,
        (RunState::Decoding, RunEvent::PacketFetched) => true,
        (RunState::Decoding, RunEvent::PacketDecoded) => true,
        (RunState::Decoding, RunEvent::DecodeFailed) => true,
        (RunState::Decoding, RunEvent::FetchFailed) => true,
        (RunState::Decoding, RunEvent::StreamEnded) => true,
        _ => false,
    }
}

/// Number of packets counted after one more, modulo the progress interval.
pub open spec fn next_phase(phase: u32, state: RunState, event: RunEvent) -> u32 {
    if state == RunState::Decoding && event == RunEvent::PacketFetched {
        if phase + 1 == PACKET_PROGRESS_INTERVAL {
            0
        } else {
            (phase + 1) as u32
        }
    } else {
        phase
    }
}

/// The action that `event` calls for in `state`, where `after` is the state
/// that follows and `phase` the packet count after the event.
pub open spec fn action_for(state: RunState, event: RunEvent, after: RunState, phase: u32) -> RunAction {
    if !expected(state, event) {
        RunAction::Ignore
    } else if event == RunEvent::PacketFetched {
        RunAction::DecodePacket { report_progress: phase == 0 }
    } else {
        match after {
            RunState::Connecting => RunAction::Ignore,
            RunState::Decoding => RunAction::FetchPacket,
            RunState::Done(_) => RunAction::Assemble,
            RunState::Failed => RunAction::Abort,
        }
    }
}

/// The state machine of one run.
#[derive(Debug)]
pub struct Poller {
    state: RunState,
    phase: u32,
}

impl Poller {
    /// Where the run stands.
    pub closed spec fn spec_state(&self) -> RunState {
        self.state
    }

    /// Packets read so far, modulo the progress interval.
    pub closed spec fn spec_phase(&self) -> u32 {
        self.phase
    }

    /// The packet count stays below the progress interval.
    #[verifier::type_invariant]
    pub open spec fn wf(&self) -> bool {
        self.spec_phase() < PACKET_PROGRESS_INTERVAL
    }

    /// A run that has yet to connect.
    pub fn new() -> (r: Self)
        ensures
            r.spec_state() == RunState::Connecting,
            r.spec_phase() == 0,
    {
        Poller { state: RunState::Connecting, phase: 0 }
    }

    /// Where the run stands.
    #[verifier::when_used_as_spec(spec_state)]
    pub fn state(&self) -> (r: RunState)
        ensures
            r == self.spec_state(),
    {
        self.state
    }

    /// Takes one event and says what to do next. While decoding, a decoded
    /// packet ends the scan with success exactly when all players of the
    /// match are observed with their heroes; a failed read, a failed decode
    /// or the end of the stream end it as partial. A progress mark is due
    /// with every packet that completes the interval.
    pub fn step(&mut self, event: RunEvent, visitor: &MatchDataVisitor) -> (action: RunAction)
        ensures
            final(self).spec_state() == next_state(old(self).spec_state(), event, visitor@),
            final(self).spec_phase() == next_phase(old(self).spec_phase(), old(self).spec_state(), event),
            action == action_for(
                old(self).spec_state(),
                event,
                final(self).spec_state(),
                final(self).spec_phase(),
            ),
    {
        proof {
            use_type_invariant(&*self);
        }
        match (self.state, event) {
            (RunState::Connecting, RunEvent::Connected) => {
                self.state = RunState::Decoding;
                RunAction::FetchPacket
            },
            (RunState::Connecting, RunEvent::ConnectFailed) => {
                self.state = RunState::Failed;
                RunAction::Abort
            },
            (RunState::Decoding, RunEvent::PacketFetched) => {
                self.phase = if self.phase + 1 == PACKET_PROGRESS_INTERVAL {
                    0
                } else {
                    self.phase + 1
                };
                RunAction::DecodePacket { report_progress: self.phase == 0 }
            },
            (RunState::Decoding, RunEvent::PacketDecoded) => {
                if all_players_found(visitor) {
                    self.state = RunState::Done(Outcome::Success);
                    RunAction::Assemble
                } else {
                    RunAction::FetchPacket
                }
            },
            (RunState::Decoding, RunEvent::DecodeFailed) => {
                self.state = RunState::Done(Outcome::Partial);
                RunAction::Assemble
            },
            (RunState::Decoding, RunEvent::FetchFailed) => {
                self.state = RunState::Done(Outcome::Partial);
                RunAction::Assemble
            },
            (RunState::Decoding, RunEvent::StreamEnded) => {
                self.state = RunState::Done(Outcome::Partial);
                RunAction::Assemble
            },
            _ => RunAction::Ignore,
        }
    }
}

/// Whether the scan can stop with success: all players of the match are
/// observed and each has a hero.
pub fn all_players_found(visitor: &MatchDataVisitor) -> (r: bool)
    ensures
        r == is_complete(visitor@),
{
    proof {
        use_type_invariant(visitor);
    }
    if visitor.len() != TOTAL_PLAYERS {
        return false;
    }
    let players = visitor.players();
    let mut i: usize = 0;
    while i < players.len()
        invariant
            i <= players.len(),
            lists_records(players@, visitor@),
            forall|j: int| 0 <= j < i ==> (#[trigger] players@[j]).hero_id != 0,
        decreases players.len() - i,
    {
        if players[i].hero_id == 0 {
            assert(visitor@.dom().contains(players@[i as int].account_id));
            return false;
        }
        i += 1;
    }
    proof {
        lemma_listed_covers(players@, visitor@);
    }
    true
}

/// A run that has not succeeded yet succeeds on an event exactly when it is
/// decoding, the event is a decoded packet, and the map is complete.
pub proof fn lemma_success_is_exact(state: RunState, event: RunEvent, map: Map<u32, MatchPlayer>)
    requires
        state != RunState::Done(Outcome::Success),
    ensures
        next_state(state, event, map) == RunState::Done(Outcome::Success) <==> (state
            == RunState::Decoding && event == RunEvent::PacketDecoded && is_complete(map)),
{
}

/// A complete map stops being complete when any one player is removed from
/// it, and when the hero of any one player is forgotten.
pub proof fn lemma_complete_is_tight(map: Map<u32, MatchPlayer>, account_id: u32)
    requires
        map.dom().finite(),
        is_complete(map),
        map.dom().contains(account_id),
    ensures
        !is_complete(map.remove(account_id)),
        !is_complete(
            map.insert(
                account_id,
                MatchPlayer {
                    account_id: map[account_id].account_id,
                    steam_name: map[account_id].steam_name,
                    player_slot: map[account_id].player_slot,
                    team: map[account_id].team,
                    hero_id: 0,
                },
            ),
        ),
{
    let zeroed = MatchPlayer {
        account_id: map[account_id].account_id,
        steam_name: map[account_id].steam_name,
        player_slot: map[account_id].player_slot,
        team: map[account_id].team,
        hero_id: 0,
    };
    assert(map.remove(account_id).dom() =~= map.dom().remove(account_id));
    assert(map.insert(account_id, zeroed).dom().contains(account_id));
}

} // verus!
