//! Merging entity updates into one record per player.

use crate::constants::{MAX_PLAYER_SLOT, SPECTATOR_NAME, TEAM_AMBER, TEAM_SAPPHIRE};
use crate::types::{is_valid_player, MatchPlayer};
use crate::utils::{account_of, steamid64_to_steamid3};
use std::collections::HashMap;
use vstd::prelude::*;
use vstd::std_specs::hash::group_hash_axioms;
use vstd::string::StringExecFns;

verus! {

broadcast use group_hash_axioms;

/// Failure raised while visiting the stream.
#[derive(Debug)]
pub struct MatchStreamError(pub String);

impl From<String> for MatchStreamError {
    fn from(s: String) -> (r: Self) {
        MatchStreamError(s)
    }
}

impl vstd::std_specs::convert::FromSpecImpl<String> for MatchStreamError {
    open spec fn obeys_from_spec() -> bool {
        true
    }

    open spec fn from_spec(s: String) -> Self {
        MatchStreamError(s)
    }
}

impl MatchStreamError {
    /// The failure's text.
    pub fn message(&self) -> (r: String)
        ensures
            r == self.0,
    {
        self.0.clone()
    }
}

/// Why the decoder reports an entity.
#[derive(Debug, Clone, Copy, PartialEq, Eq, Structural)]
pub enum DeltaKind {
    /// The entity came into being.
    Create,
    /// Fields of an existing entity changed.
    Update,
    /// The entity left the observed set.
    Leave,
    /// The entity was removed.
    Delete,
}

/// The fields of one reported entity that the merge reads. A field that the
/// entity lacks, or holds with another type, is `None`.
#[derive(Debug)]
pub struct EntityUpdate {
    /// Whether the entity is a player controller.
    pub is_player_controller: bool,
    /// Raw 64-bit platform identity.
    pub steam_id: Option<u64>,
    /// Display name.
    pub steam_name: Option<String>,
    /// Seat number.
    pub player_slot: Option<u8>,
    /// Team number.
    pub team: Option<u8>,
    /// Selected hero.
    pub hero_id: Option<u32>,
}

/// The record that an entity's fields describe, where they describe a valid
/// player: identity, name, seat and team must all be present, the identity
/// must convert, and the record must be valid. An absent hero counts as
/// unknown.
pub open spec fn player_of(update: EntityUpdate) -> Option<MatchPlayer> {
    if update.steam_id is Some && account_of(update.steam_id->Some_0) is Some
        && update.steam_name is Some && update.player_slot is Some && update.team is Some {
        let p = MatchPlayer {
            account_id: account_of(update.steam_id->Some_0)->Some_0,
            steam_name: update.steam_name->Some_0,
            player_slot: update.player_slot->Some_0,
            team: update.team->Some_0,
            hero_id: if update.hero_id is Some {
                update.hero_id->Some_0
            } else {
                0
            },
        };
        if is_valid_player(p) {
            Some(p)
        } else {
            None
        }
    } else {
        None
    }
}

/// The record that a report contributes to the map, if any: only creations
/// and updates of player controllers that describe a valid player count.
pub open spec fn accepted(kind: DeltaKind, update: EntityUpdate) -> Option<MatchPlayer> {
    if update.is_player_controller && (kind == DeltaKind::Create || kind == DeltaKind::Update) {
        player_of(update)
    } else {
        None
    }
}

/// The record stored after `p` arrives where `prev` was stored before: name,
/// seat and team are those of `p`; the hero is that of `p` unless `p` does
/// not know it, in which case the earlier knowledge stays.
pub open spec fn merged_record(prev: Option<MatchPlayer>, p: MatchPlayer) -> MatchPlayer {
    MatchPlayer {
        account_id: p.account_id,
        steam_name: p.steam_name,
        player_slot: p.player_slot,
        team: p.team,
        hero_id: if p.hero_id != 0 || prev is None {
            p.hero_id
        } else {
            prev->Some_0.hero_id
        },
    }
}

/// The map after the record `p` has been merged into it.
pub open spec fn upsert(map: Map<u32, MatchPlayer>, p: MatchPlayer) -> Map<u32, MatchPlayer> {
    map.insert(
        p.account_id,
        merged_record(
            if map.dom().contains(p.account_id) {
                Some(map[p.account_id])
            } else {
                None
            },
            p,
        ),
    )
}

/// The map after one report has been handled.
pub open spec fn merged(map: Map<u32, MatchPlayer>, kind: DeltaKind, update: EntityUpdate) -> Map<
    u32,
    MatchPlayer,
> {
    match accepted(kind, update) {
        Some(p) => upsert(map, p),
        None => map,
    }
}

/// A map as the merge keeps it: finite, every record valid and stored under
/// its own account number.
pub open spec fn well_formed(map: Map<u32, MatchPlayer>) -> bool {
    &&& map.dom().finite()
    &&& forall|k: u32| #[trigger]
        map.dom().contains(k) ==> map[k].account_id == k && is_valid_player(map[k])
}

/// The per-player records of one run.
pub struct MatchDataVisitor {
    players: HashMap<u32, MatchPlayer>,
}

impl View for MatchDataVisitor {
    type V = Map<u32, MatchPlayer>;

    closed spec fn view(&self) -> Map<u32, MatchPlayer> {
        self.players@
    }
}

impl MatchDataVisitor {
    /// What the merge maintains: every record is valid and stored under
    /// its own account number.
    #[verifier::type_invariant]
    pub open spec fn wf(&self) -> bool {
        well_formed(self@)
    }

    /// Starts a run with no player observed.
    pub fn new() -> (r: Self)
        ensures
            r@ == Map::<u32, MatchPlayer>::empty(),
    {
        MatchDataVisitor { players: HashMap::new() }
    }

    /// Reads the player that an entity's fields describe.
    pub fn extract_player_data(update: &EntityUpdate) -> (r: Option<MatchPlayer>)
        ensures
            r == player_of(*update),
    {
        let steam_id = match update.steam_id {
            Some(id) => match steamid64_to_steamid3(id) {
                Ok(account) => account,
                Err(_) => {
                    return None;
                },
            },
            None => {
                return None;
            },
        };
        let steam_name = match &update.steam_name {
            Some(name) => name.clone(),
            None => {
                return None;
            },
        };
        let player_slot = match update.player_slot {
            Some(slot) => slot,
            None => {
                return None;
            },
        };
        let team = match update.team {
            Some(team) => team,
            None => {
                return None;
            },
        };
        let hero_id = match update.hero_id {
            Some(hero) => hero,
            None => 0,
        };
        let spectator = String::from_str(SPECTATOR_NAME);
        if steam_id > 0 && steam_name != spectator && player_slot <= MAX_PLAYER_SLOT && (team
            == TEAM_AMBER || team == TEAM_SAPPHIRE) {
            Some(MatchPlayer { account_id: steam_id, steam_name, player_slot, team, hero_id })
        } else {
            None
        }
    }

    /// Handles one report of the decoder: a creation or update of a player
    /// controller that describes a valid player is merged into the records,
    /// anything else changes nothing. Never fails.
    pub fn on_entity(&mut self, kind: DeltaKind, update: &EntityUpdate) -> (r: Result<
        (),
        MatchStreamError,
    >)
        ensures
            r is Ok,
            final(self)@ == merged(old(self)@, kind, *update),
    {
        proof {
            use_type_invariant(&*self);
        }
        if update.is_player_controller && (kind == DeltaKind::Create || kind == DeltaKind::Update) {
            if let Some(player) = Self::extract_player_data(update) {
                let hero_id = if player.hero_id > 0 {
                    player.hero_id
                } else {
                    match self.players.get(&player.account_id) {
                        Some(prev) => prev.hero_id,
                        None => 0,
                    }
                };
                let entry = MatchPlayer {
                    account_id: player.account_id,
                    steam_name: player.steam_name,
                    player_slot: player.player_slot,
                    team: player.team,
                    hero_id,
                };
                // The map is taken out while it changes and put back after.
                let mut players = HashMap::new();
                std::mem::swap(&mut self.players, &mut players);
                players.insert(entry.account_id, entry);
                std::mem::swap(&mut self.players, &mut players);
            }
        }
        Ok(())
    }

    /// Number of players observed so far.
    pub fn len(&self) -> (r: usize)
        ensures
            r == self@.dom().len(),
    {
        self.players.len()
    }

    /// The record stored for an account, if the account was observed.
    pub fn get(&self, account_id: u32) -> (r: Option<&MatchPlayer>)
        ensures
            r == (if self@.dom().contains(account_id) {
                Some(&self@[account_id])
            } else {
                None
            }),
    {
        self.players.get(&account_id)
    }

    /// The observed records, one per account, in the order in which the map
    /// is walked.
    pub fn players(&self) -> (r: Vec<MatchPlayer>)
        ensures
            lists_records(r@, self@),
    {
        proof {
            use_type_invariant(self);
        }
        let mut out: Vec<MatchPlayer> = Vec::new();
        for key in iter: self.players.keys()
            invariant
                out@.len() == iter.index(),
                iter.seq().len() == self.players@.dom().len(),
                iter.seq().no_duplicates(),
                iter.seq().unref().to_set() == self.players@.dom(),
                self.wf(),
                forall|i: int|
                    0 <= i < out@.len() ==> #[trigger] out@[i].account_id == *iter.seq()[i],
                forall|i: int|
                    0 <= i < out@.len() ==> self.players@.dom().contains(
                        #[trigger] out@[i].account_id,
                    ) && self.players@[out@[i].account_id] == out@[i],
                forall|i: int, j: int|
                    0 <= i < j < out@.len() ==> #[trigger] out@[i].account_id
                        != #[trigger] out@[j].account_id,
        {
            assert(iter.seq().unref()[iter.index()] == *key);
            assert(iter.seq().unref().to_set().contains(*key));
            assert(self.players@.dom().contains(*key));
            match self.players.get(key) {
                Some(p) => {
                    out.push(p.clone());
                },
                None => {},
            }
        }
        out
    }
}

/// `order` lists the records of `map`, each account once.
pub open spec fn lists_records(order: Seq<MatchPlayer>, map: Map<u32, MatchPlayer>) -> bool {
    &&& order.len() == map.dom().len()
    &&& forall|i: int|
        0 <= i < order.len() ==> map.dom().contains(#[trigger] order[i].account_id)
            && map[order[i].account_id] == order[i]
    &&& forall|i: int, j: int|
        0 <= i < j < order.len() ==> #[trigger] order[i].account_id != #[trigger] order[j].account_id
}

/// A list of the records of a map names every account of the map.
pub proof fn lemma_listed_covers(order: Seq<MatchPlayer>, map: Map<u32, MatchPlayer>)
    requires
        map.dom().finite(),
        lists_records(order, map),
    ensures
        forall|k: u32| #[trigger]
            map.dom().contains(k) ==> exists|i: int|
                0 <= i < order.len() && #[trigger] order[i].account_id == k,
{
    let ids = order.map_values(|p: MatchPlayer| p.account_id);
    assert(ids.no_duplicates());
    ids.unique_seq_to_set();
    vstd::seq_lib::seq_to_set_is_finite(ids);
    assert forall|k: u32| ids.to_set().contains(k) implies map.dom().contains(k) by {
        let i = choose|i: int| 0 <= i < ids.len() && ids[i] == k;
        assert(order[i].account_id == k);
    }
    assert(ids.to_set().subset_of(map.dom()));
    vstd::set_lib::lemma_subset_equality(ids.to_set(), map.dom());
    assert forall|k: u32| #[trigger] map.dom().contains(k) implies exists|i: int|
        0 <= i < order.len() && #[trigger] order[i].account_id == k by {
        assert(ids.to_set().contains(k));
        let i = choose|i: int| 0 <= i < ids.len() && ids[i] == k;
        assert(order[i].account_id == k);
    }
}

/// The map after the records of `records` have been merged in, first to last.
pub open spec fn upsert_all(map: Map<u32, MatchPlayer>, records: Seq<MatchPlayer>) -> Map<
    u32,
    MatchPlayer,
>
    decreases records.len(),
{
    if records.len() == 0 {
        map
    } else {
        upsert(upsert_all(map, records.drop_last()), records.last())
    }
}

/// The hero known after `records`, where `known` was known before them: the
/// last one among them that is not zero, or `known` if all are zero.
pub open spec fn last_known_hero(known: u32, records: Seq<MatchPlayer>) -> u32
    decreases records.len(),
{
    if records.len() == 0 {
        known
    } else if records.last().hero_id != 0 {
        records.last().hero_id
    } else {
        last_known_hero(known, records.drop_last())
    }
}

/// The hero stored for an account, `0` where the account is not in the map.
pub open spec fn known_hero(map: Map<u32, MatchPlayer>, account_id: u32) -> u32 {
    if map.dom().contains(account_id) {
        map[account_id].hero_id
    } else {
        0
    }
}

/// Merging keeps a map well formed.
pub proof fn lemma_merged_well_formed(
    map: Map<u32, MatchPlayer>,
    kind: DeltaKind,
    update: EntityUpdate,
)
    requires
        well_formed(map),
    ensures
        well_formed(merged(map, kind, update)),
{
}

/// Handling the same report twice leaves the map as handling it once does.
pub proof fn lemma_merge_idempotent(
    map: Map<u32, MatchPlayer>,
    kind: DeltaKind,
    update: EntityUpdate,
)
    ensures
        merged(merged(map, kind, update), kind, update) == merged(map, kind, update),
{
    let once = merged(map, kind, update);
    let twice = merged(once, kind, update);
    assert(twice =~= once);
}

/// After any non-empty run of records for one account, the hero stored for
/// that account is the last non-zero hero among them, or what was known
/// before if none of them knows a hero: a later zero never erases it.
pub proof fn lemma_hero_is_last_known(
    map: Map<u32, MatchPlayer>,
    account_id: u32,
    records: Seq<MatchPlayer>,
)
    requires
        records.len() > 0,
        forall|i: int| 0 <= i < records.len() ==> #[trigger] records[i].account_id == account_id,
    ensures
        upsert_all(map, records).dom().contains(account_id),
        upsert_all(map, records)[account_id].hero_id == last_known_hero(
            known_hero(map, account_id),
            records,
        ),
    decreases records.len(),
{
    let earlier = records.drop_last();
    let known = known_hero(map, account_id);
    assert(records.last() == records[records.len() - 1]);
    if earlier.len() > 0 {
        assert forall|i: int| 0 <= i < earlier.len() implies #[trigger] earlier[i].account_id
            == account_id by {
            assert(earlier[i] == records[i]);
        }
        lemma_hero_is_last_known(map, account_id, earlier);
    } else {
        assert(upsert_all(map, earlier) == map);
        assert(last_known_hero(known, earlier) == known);
    }
}

/// A report whose seat is beyond the last seat, whose team is neither amber
/// nor sapphire, whose name is the spectator's, or whose identity is account
/// zero, neither creates nor changes a record.
pub proof fn lemma_invalid_report_ignored(
    map: Map<u32, MatchPlayer>,
    kind: DeltaKind,
    update: EntityUpdate,
)
    requires
        ({
            ||| update.player_slot is Some && update.player_slot->Some_0 > MAX_PLAYER_SLOT
            ||| update.team is Some && update.team->Some_0 != TEAM_AMBER && update.team->Some_0
                != TEAM_SAPPHIRE
            ||| update.steam_name is Some && update.steam_name->Some_0@ == SPECTATOR_NAME@
            ||| update.steam_id is Some && account_of(update.steam_id->Some_0) == Some(0u32)
        }),
    ensures
        merged(map, kind, update) == map,
{
}

} // verus!
