//! Splitting the observed players into the two teams.

use crate::constants::{TEAM_AMBER, TEAM_SAPPHIRE};
use crate::error::MatchError;
use crate::types::{MatchData, MatchPlayer};
use crate::visitor::{lemma_listed_covers, lists_records, MatchDataVisitor};
use vstd::prelude::*;

verus! {

/// Membership of a team at a seat.
pub open spec fn in_team_at(team: u8, slot: int) -> spec_fn(MatchPlayer) -> bool {
    |p: MatchPlayer| p.team == team && p.player_slot == slot
}

/// Membership of a team.
pub open spec fn of_team(team: u8) -> spec_fn(MatchPlayer) -> bool {
    |p: MatchPlayer| p.team == team
}

/// The players of `team` seated from `lo` up to, not including, `hi`,
/// ascending by seat; players that share a seat keep the order they have in
/// `players`.
pub open spec fn team_range(players: Seq<MatchPlayer>, team: u8, lo: int, hi: int) -> Seq<
    MatchPlayer,
>
    decreases hi - lo,
{
    if hi <= lo {
        Seq::empty()
    } else {
        team_range(players, team, lo, hi - 1) + players.filter(in_team_at(team, hi - 1))
    }
}

/// The players of `team`, ascending by seat; players that share a seat keep
/// the order they have in `players`.
pub open spec fn team_by_slot(players: Seq<MatchPlayer>, team: u8) -> Seq<MatchPlayer> {
    team_range(players, team, 0, 256)
}

/// Ascending by seat.
pub open spec fn slots_ascend(team: Seq<MatchPlayer>) -> bool {
    forall|i: int, j: int|
        0 <= i <= j < team.len() ==> #[trigger] team[i].player_slot <= #[trigger] team[j].player_slot
}

/// No account occurs twice.
pub open spec fn accounts_differ(players: Seq<MatchPlayer>) -> bool {
    forall|i: int, j: int|
        0 <= i < j < players.len() ==> (#[trigger] players[i]).account_id != (
        #[trigger] players[j]).account_id
}

/// The account has a player on the list.
pub open spec fn on_list(list: Seq<MatchPlayer>, account_id: u32) -> bool {
    exists|i: int| 0 <= i < list.len() && (#[trigger] list[i]).account_id == account_id
}

/// Number of players whose hero is known.
pub open spec fn count_known(players: Seq<MatchPlayer>) -> nat {
    players.filter(|p: MatchPlayer| p.hero_id != 0).len()
}

/// Where there are no players, no team has any.
pub proof fn lemma_range_of_none(team: u8, lo: int, hi: int)
    ensures
        team_range(Seq::<MatchPlayer>::empty(), team, lo, hi) == Seq::<MatchPlayer>::empty(),
    decreases hi - lo,
{
    let none = Seq::<MatchPlayer>::empty();
    if hi > lo {
        lemma_range_of_none(team, lo, hi - 1);
        none.lemma_filter_len(in_team_at(team, hi - 1));
        assert(none + none.filter(in_team_at(team, hi - 1)) =~= none);
    }
}

/// Every player listed by `team_range` is one of `players`, belongs to the
/// team and sits within the range.
pub proof fn lemma_range_members(players: Seq<MatchPlayer>, team: u8, lo: int, hi: int)
    ensures
        forall|i: int|
            0 <= i < team_range(players, team, lo, hi).len() ==> {
                let p = #[trigger] team_range(players, team, lo, hi)[i];
                p.team == team && lo <= p.player_slot < hi && players.contains(p)
            },
    decreases hi - lo,
{
    if hi > lo {
        lemma_range_members(players, team, lo, hi - 1);
        let head = team_range(players, team, lo, hi - 1);
        let bucket = players.filter(in_team_at(team, hi - 1));
        assert forall|i: int| 0 <= i < (head + bucket).len() implies {
            let p = #[trigger] (head + bucket)[i];
            p.team == team && lo <= p.player_slot < hi && players.contains(p)
        } by {
            if i >= head.len() {
                let k = i - head.len();
                assert((head + bucket)[i] == bucket[k]);
                players.lemma_filter_pred(in_team_at(team, hi - 1), k);
                assert(bucket.contains(bucket[k]));
                players.lemma_filter_contains_rev(in_team_at(team, hi - 1), bucket[k]);
            } else {
                assert((head + bucket)[i] == head[i]);
            }
        }
    }
}

/// The players listed by `team_range` ascend by seat.
pub proof fn lemma_range_ascends(players: Seq<MatchPlayer>, team: u8, lo: int, hi: int)
    ensures
        slots_ascend(team_range(players, team, lo, hi)),
    decreases hi - lo,
{
    if hi > lo {
        lemma_range_ascends(players, team, lo, hi - 1);
        lemma_range_members(players, team, lo, hi - 1);
        lemma_range_members(players, team, lo, hi);
        let head = team_range(players, team, lo, hi - 1);
        let bucket = players.filter(in_team_at(team, hi - 1));
        let all = head + bucket;
        assert forall|i: int, j: int| 0 <= i <= j < all.len() implies #[trigger] all[i].player_slot
            <= #[trigger] all[j].player_slot by {
            if j < head.len() {
                assert(all[i] == head[i]);
                assert(all[j] == head[j]);
            } else {
                players.lemma_filter_pred(in_team_at(team, hi - 1), j - head.len());
                assert(all[j] == bucket[j - head.len()]);
            }
        }
    }
}

/// A range is its part below `mid` followed by its part from `mid` on.
pub proof fn lemma_range_split(players: Seq<MatchPlayer>, team: u8, lo: int, mid: int, hi: int)
    requires
        lo <= mid <= hi,
    ensures
        team_range(players, team, lo, hi) == team_range(players, team, lo, mid) + team_range(
            players,
            team,
            mid,
            hi,
        ),
    decreases hi - mid,
{
    let low = team_range(players, team, lo, mid);
    if hi == mid {
        assert(team_range(players, team, mid, hi) =~= Seq::<MatchPlayer>::empty());
        assert(low + Seq::<MatchPlayer>::empty() =~= low);
    } else {
        lemma_range_split(players, team, lo, mid, hi - 1);
        let bucket = players.filter(in_team_at(team, hi - 1));
        let high = team_range(players, team, mid, hi - 1);
        assert((low + high) + bucket =~= low + (high + bucket));
    }
}

/// A player of another team, or seated outside the range, does not show in
/// the range.
pub proof fn lemma_range_push_outside(
    players: Seq<MatchPlayer>,
    p: MatchPlayer,
    team: u8,
    lo: int,
    hi: int,
)
    requires
        !(p.team == team && lo <= p.player_slot < hi),
    ensures
        team_range(players.push(p), team, lo, hi) == team_range(players, team, lo, hi),
    decreases hi - lo,
{
    if hi > lo {
        lemma_range_push_outside(players, p, team, lo, hi - 1);
        players.lemma_filter_push(p, in_team_at(team, hi - 1));
    }
}

/// A player of the team who comes last in `players` stands in the team's
/// list behind everyone seated at or before the player's seat, and before
/// everyone seated after it; the others keep their places.
pub proof fn lemma_push_inserts(players: Seq<MatchPlayer>, p: MatchPlayer, team: u8)
    requires
        p.team == team,
    ensures
        team_by_slot(players, team) == team_range(players, team, 0, p.player_slot + 1)
            + team_range(players, team, p.player_slot + 1, 256),
        team_by_slot(players.push(p), team) == team_by_slot(players, team).insert(
            team_range(players, team, 0, p.player_slot + 1).len() as int,
            p,
        ),
{
    let seat = p.player_slot as int;
    let more = players.push(p);
    let below = team_range(players, team, 0, seat);
    let at = team_range(players, team, seat, seat + 1);
    let above = team_range(players, team, seat + 1, 256);
    lemma_range_split(players, team, 0, seat + 1, 256);
    lemma_range_split(players, team, 0, seat, seat + 1);
    lemma_range_split(more, team, 0, seat + 1, 256);
    lemma_range_split(more, team, 0, seat, seat + 1);
    lemma_range_push_outside(players, p, team, 0, seat);
    lemma_range_push_outside(players, p, team, seat + 1, 256);
    assert(team_range(more, team, seat, seat + 1) == at.push(p)) by {
        players.lemma_filter_push(p, in_team_at(team, seat));
        assert(team_range(players, team, seat, seat) =~= Seq::<MatchPlayer>::empty());
        assert(team_range(more, team, seat, seat) =~= Seq::<MatchPlayer>::empty());
        let bucket = players.filter(in_team_at(team, seat));
        assert(Seq::<MatchPlayer>::empty() + bucket.push(p) =~= (Seq::<MatchPlayer>::empty()
            + bucket).push(p));
    }
    assert((below + at.push(p)) + above =~= ((below + at) + above).insert(
        (below + at).len() as int,
        p,
    ));
}

/// The team's list holds exactly the players of the team, each as often as
/// `players` does.
pub proof fn lemma_team_is_permutation(players: Seq<MatchPlayer>, team: u8)
    ensures
        team_by_slot(players, team).to_multiset() == players.filter(of_team(team)).to_multiset(),
        team_by_slot(players, team).len() == players.filter(of_team(team)).len(),
    decreases players.len(),
{
    if players.len() == 0 {
        assert(players =~= Seq::<MatchPlayer>::empty());
        lemma_range_of_none(team, 0, 256);
        players.lemma_filter_len(of_team(team));
        assert(players.filter(of_team(team)) =~= Seq::<MatchPlayer>::empty());
    } else {
        let earlier = players.drop_last();
        let p = players.last();
        assert(players =~= earlier.push(p));
        lemma_team_is_permutation(earlier, team);
        earlier.lemma_filter_push(p, of_team(team));
        if p.team == team {
            lemma_push_inserts(earlier, p, team);
            let at = team_range(earlier, team, 0, p.player_slot + 1).len() as int;
            lemma_range_split(earlier, team, 0, p.player_slot + 1, 256);
            vstd::seq_lib::to_multiset_insert(team_by_slot(earlier, team), at, p);
            vstd::seq_lib::to_multiset_build(earlier.filter(of_team(team)), p);
        } else {
            lemma_range_push_outside(earlier, p, team, 0, 256);
        }
    }
}

/// Every player of the team is on the team's list.
pub proof fn lemma_team_holds_members(players: Seq<MatchPlayer>, team: u8, i: int)
    requires
        0 <= i < players.len(),
        players[i].team == team,
    ensures
        team_by_slot(players, team).contains(players[i]),
{
    lemma_team_is_permutation(players, team);
    players.lemma_filter_contains(of_team(team), i);
    vstd::seq_lib::to_multiset_contains(players.filter(of_team(team)), players[i]);
    vstd::seq_lib::to_multiset_contains(team_by_slot(players, team), players[i]);
}

/// Where no account occurs twice among the players, none occurs twice on a
/// team's list.
pub proof fn lemma_team_accounts_differ(players: Seq<MatchPlayer>, team: u8)
    requires
        accounts_differ(players),
    ensures
        accounts_differ(team_by_slot(players, team)),
    decreases players.len(),
{
    if players.len() == 0 {
        assert(players =~= Seq::<MatchPlayer>::empty());
        lemma_range_of_none(team, 0, 256);
    } else {
        let earlier = players.drop_last();
        let p = players.last();
        assert(players =~= earlier.push(p));
        assert(accounts_differ(earlier)) by {
            assert forall|i: int, j: int| 0 <= i < j < earlier.len() implies (
            #[trigger] earlier[i]).account_id != (#[trigger] earlier[j]).account_id by {
                assert(earlier[i] == players[i]);
                assert(earlier[j] == players[j]);
            }
        }
        lemma_team_accounts_differ(earlier, team);
        if p.team == team {
            let before = team_by_slot(earlier, team);
            let at = team_range(earlier, team, 0, p.player_slot + 1).len() as int;
            let after = before.insert(at, p);
            lemma_push_inserts(earlier, p, team);
            lemma_range_members(earlier, team, 0, 256);
            assert forall|m: int| 0 <= m < before.len() implies (#[trigger] before[m]).account_id
                != p.account_id by {
                assert(earlier.contains(before[m]));
                let n = choose|n: int| 0 <= n < earlier.len() && earlier[n] == before[m];
                assert(players[n] == before[m]);
                assert(players[players.len() - 1] == p);
            }
            assert forall|i: int, j: int| 0 <= i < j < after.len() implies (
            #[trigger] after[i]).account_id != (#[trigger] after[j]).account_id by {
                if i == at {
                    assert(after[j] == before[j - 1]);
                } else if j == at {
                    assert(after[i] == before[i]);
                } else {
                    let a = if i < at { i } else { i - 1 };
                    let b = if j < at { j } else { j - 1 };
                    assert(after[i] == before[a]);
                    assert(after[j] == before[b]);
                }
            }
        } else {
            lemma_range_push_outside(earlier, p, team, 0, 256);
        }
    }
}

/// Where every player is of one of two teams, the two teams' lists together
/// hold as many players as there are.
pub proof fn lemma_two_teams_hold_all(players: Seq<MatchPlayer>, one: u8, other: u8)
    requires
        one != other,
        forall|i: int|
            0 <= i < players.len() ==> (#[trigger] players[i]).team == one || players[i].team
                == other,
    ensures
        team_by_slot(players, one).len() + team_by_slot(players, other).len() == players.len(),
    decreases players.len(),
{
    lemma_team_is_permutation(players, one);
    lemma_team_is_permutation(players, other);
    if players.len() == 0 {
        assert(players =~= Seq::<MatchPlayer>::empty());
        lemma_range_of_none(one, 0, 256);
        lemma_range_of_none(other, 0, 256);
    } else {
        let earlier = players.drop_last();
        let p = players.last();
        assert(players =~= earlier.push(p));
        assert forall|i: int| 0 <= i < earlier.len() implies (#[trigger] earlier[i]).team == one
            || earlier[i].team == other by {
            assert(earlier[i] == players[i]);
        }
        assert(p == players[players.len() - 1]);
        lemma_two_teams_hold_all(earlier, one, other);
        lemma_team_is_permutation(earlier, one);
        lemma_team_is_permutation(earlier, other);
        earlier.lemma_filter_push(p, of_team(one));
        earlier.lemma_filter_push(p, of_team(other));
    }
}

/// The players of one team among `players`, ascending by seat. Players that
/// share a seat stay in the order of `players`.
pub fn filter_and_sort_team(players: &[MatchPlayer], team_id: u8) -> (team: Vec<MatchPlayer>)
    ensures
        team@ == team_by_slot(players@, team_id),
        slots_ascend(team@),
        team@.to_multiset() == players@.filter(of_team(team_id)).to_multiset(),
        forall|i: int|
            0 <= i < team@.len() ==> (#[trigger] team@[i]).team == team_id && players@.contains(
                team@[i],
            ),
{
    let mut team: Vec<MatchPlayer> = Vec::new();
    let mut i: usize = 0;
    proof {
        assert(players@.take(0) =~= Seq::<MatchPlayer>::empty());
        lemma_range_of_none(team_id, 0, 256);
    }
    while i < players.len()
        invariant
            i <= players.len(),
            team@ == team_by_slot(players@.take(i as int), team_id),
        decreases players.len() - i,
    {
        let p = &players[i];
        let ghost seen = players@.take(i as int);
        proof {
            assert(players@.take(i + 1) =~= seen.push(*p));
        }
        if p.team == team_id {
            let mut k: usize = team.len();
            while k > 0 && team[k - 1].player_slot > p.player_slot
                invariant
                    k <= team.len(),
                    forall|j: int| k <= j < team@.len() ==> (#[trigger] team@[j]).player_slot > p.player_slot,
                decreases k,
            {
                k -= 1;
            }
            proof {
                let seat = p.player_slot as int;
                let low = team_range(seen, team_id, 0, seat + 1);
                let high = team_range(seen, team_id, seat + 1, 256);
                lemma_push_inserts(seen, *p, team_id);
                lemma_range_members(seen, team_id, 0, seat + 1);
                lemma_range_members(seen, team_id, seat + 1, 256);
                if k < low.len() {
                    assert(team@[k as int] == low[k as int]);
                }
                if k > low.len() {
                    assert(team@[k - 1] == high[k - 1 - low.len()]);
                }
                assert(k == low.len());
            }
            team.insert(k, p.clone());
        } else {
            proof {
                lemma_range_push_outside(seen, *p, team_id, 0, 256);
            }
        }
        i += 1;
    }
    proof {
        assert(players@.take(players@.len() as int) =~= players@);
        lemma_range_members(players@, team_id, 0, 256);
        lemma_range_ascends(players@, team_id, 0, 256);
        lemma_team_is_permutation(players@, team_id);
    }
    team
}

/// Number of players of both teams whose hero is known.
pub fn count_players_with_heroes(match_data: &MatchData) -> (count: usize)
    requires
        match_data.amber_team@.len() + match_data.sapphire_team@.len() <= usize::MAX,
    ensures
        count == count_known(match_data.amber_team@) + count_known(match_data.sapphire_team@),
{
    let amber = count_known_in(&match_data.amber_team);
    let sapphire = count_known_in(&match_data.sapphire_team);
    amber + sapphire
}

fn count_known_in(players: &Vec<MatchPlayer>) -> (count: usize)
    ensures
        count == count_known(players@),
        count <= players@.len(),
{
    let mut count: usize = 0;
    let mut i: usize = 0;
    while i < players.len()
        invariant
            i <= players.len(),
            count <= i,
            count == count_known(players@.take(i as int)),
        decreases players.len() - i,
    {
        proof {
            let seen = players@.take(i as int);
            assert(players@.take(i + 1) =~= seen.push(players@[i as int]));
            seen.lemma_filter_push(players@[i as int], |p: MatchPlayer| p.hero_id != 0);
        }
        if players[i].hero_id > 0 {
            count += 1;
        }
        i += 1;
    }
    proof {
        assert(players@.take(players@.len() as int) =~= players@);
    }
    count
}

/// What `organize_match_data` returns for the records listed in `order`.
pub open spec fn organized(order: Seq<MatchPlayer>, data: MatchData) -> bool {
    &&& data.amber_team@ == team_by_slot(order, TEAM_AMBER)
    &&& data.sapphire_team@ == team_by_slot(order, TEAM_SAPPHIRE)
}

/// Assembles the result of a run: fails where no player was observed, else
/// splits the records by team and orders each team by seat. Every account
/// of the map is on one of the two lists, none is on a list twice or on both
/// lists, every player of a list belongs to its team, and where two players
/// of a team share a seat they come in the order in which the records are
/// walked.
pub fn organize_match_data(visitor: &MatchDataVisitor) -> (r: Result<MatchData, MatchError>)
    ensures
        r is Err <==> visitor@.dom().len() == 0,
        r is Err ==> r->Err_0 is NoPlayersFound,
        r is Ok ==> {
            let data = r->Ok_0;
            &&& exists|order: Seq<MatchPlayer>| lists_records(order, visitor@) && organized(order, data)
            &&& data.amber_team@.len() + data.sapphire_team@.len() == visitor@.dom().len()
            &&& slots_ascend(data.amber_team@)
            &&& slots_ascend(data.sapphire_team@)
            &&& accounts_differ(data.amber_team@)
            &&& accounts_differ(data.sapphire_team@)
            &&& forall|k: u32| #[trigger]
                visitor@.dom().contains(k) ==> on_list(data.amber_team@, k) || on_list(
                    data.sapphire_team@,
                    k,
                )
            &&& forall|i: int|
                0 <= i < data.amber_team@.len() ==> {
                    let p = #[trigger] data.amber_team@[i];
                    p.team == TEAM_AMBER && visitor@.dom().contains(p.account_id)
                        && visitor@[p.account_id] == p
                }
            &&& forall|i: int|
                0 <= i < data.sapphire_team@.len() ==> {
                    let p = #[trigger] data.sapphire_team@[i];
                    p.team == TEAM_SAPPHIRE && visitor@.dom().contains(p.account_id)
                        && visitor@[p.account_id] == p
                }
            &&& forall|i: int, j: int|
                0 <= i < data.amber_team@.len() && 0 <= j < data.sapphire_team@.len() ==> (
                #[trigger] data.amber_team@[i]).account_id != (
                #[trigger] data.sapphire_team@[j]).account_id
        },
{
    proof {
        use_type_invariant(visitor);
    }
    let players = visitor.players();
    if players.len() == 0 {
        return Err(MatchError::NoPlayersFound);
    }
    let amber_team = filter_and_sort_team(players.as_slice(), TEAM_AMBER);
    let sapphire_team = filter_and_sort_team(players.as_slice(), TEAM_SAPPHIRE);
    let data = MatchData { amber_team, sapphire_team };
    proof {
        assert(lists_records(players@, visitor@) && organized(players@, data));
        assert forall|i: int| 0 <= i < players@.len() implies (#[trigger] players@[i]).team
            == TEAM_AMBER || players@[i].team == TEAM_SAPPHIRE by {
            assert(visitor@.dom().contains(players@[i].account_id));
        }
        lemma_two_teams_hold_all(players@, TEAM_AMBER, TEAM_SAPPHIRE);
        lemma_team_accounts_differ(players@, TEAM_AMBER);
        lemma_team_accounts_differ(players@, TEAM_SAPPHIRE);
        lemma_listed_covers(players@, visitor@);
        assert forall|k: u32| #[trigger] visitor@.dom().contains(k) implies on_list(
            data.amber_team@,
            k,
        ) || on_list(data.sapphire_team@, k) by {
            let i = choose|i: int| 0 <= i < players@.len() && (#[trigger] players@[i]).account_id == k;
            let p = players@[i];
            let list = if p.team == TEAM_AMBER {
                data.amber_team@
            } else {
                data.sapphire_team@
            };
            lemma_team_holds_members(players@, p.team, i);
            let j = choose|j: int| 0 <= j < list.len() && list[j] == p;
            assert(list[j].account_id == k);
        }
    }
    Ok(data)
}

} // verus!
