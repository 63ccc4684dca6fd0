use deadlyze::assemble::{count_players_with_heroes, filter_and_sort_team, organize_match_data};
use deadlyze::error::MatchError;
use deadlyze::types::{MatchData, MatchPlayer};
use deadlyze::utils::STEAM_ID_BASE;
use deadlyze::visitor::{DeltaKind, EntityUpdate, MatchDataVisitor};

fn record(account_id: u32, name: &str, slot: u8, team: u8, hero_id: u32) -> MatchPlayer {
    MatchPlayer { account_id, steam_name: name.to_string(), player_slot: slot, team, hero_id }
}

fn observe(visitor: &mut MatchDataVisitor, account: u32, slot: u8, team: u8, hero: u32) {
    let event = EntityUpdate {
        is_player_controller: true,
        steam_id: Some(STEAM_ID_BASE + account as u64),
        steam_name: Some(format!("player{}", account)),
        player_slot: Some(slot),
        team: Some(team),
        hero_id: Some(hero),
    };
    visitor.on_entity(DeltaKind::Update, &event).unwrap();
}

#[test]
fn team_is_filtered_and_ordered_by_seat() {
    let players = vec![
        record(1, "a", 7, 2, 1),
        record(2, "b", 3, 3, 0),
        record(3, "c", 1, 2, 0),
        record(4, "d", 12, 2, 9),
        record(5, "e", 0, 3, 2),
    ];
    let amber = filter_and_sort_team(&players, 2);
    assert_eq!(amber, vec![record(3, "c", 1, 2, 0), record(1, "a", 7, 2, 1), record(4, "d", 12, 2, 9)]);
    let sapphire = filter_and_sort_team(&players, 3);
    assert_eq!(sapphire, vec![record(5, "e", 0, 3, 2), record(2, "b", 3, 3, 0)]);
    assert_eq!(filter_and_sort_team(&players, 1), Vec::<MatchPlayer>::new());
}

#[test]
fn shared_seats_keep_input_order() {
    let players = vec![
        record(1, "a", 4, 2, 0),
        record(2, "b", 2, 2, 0),
        record(3, "c", 4, 2, 0),
        record(4, "d", 2, 2, 0),
        record(5, "e", 255, 2, 0),
    ];
    let team = filter_and_sort_team(&players, 2);
    let ids: Vec<u32> = team.iter().map(|p| p.account_id).collect();
    assert_eq!(ids, vec![2, 4, 1, 3, 5]);
}

#[test]
fn empty_input_gives_empty_team() {
    assert_eq!(filter_and_sort_team(&[], 2), Vec::<MatchPlayer>::new());
}

#[test]
fn full_match_splits_six_and_six() {
    let mut visitor = MatchDataVisitor::new();
    for n in 1..=12u32 {
        let team = if n % 2 == 0 { 2 } else { 3 };
        observe(&mut visitor, 100 + n, (13 - n) as u8, team, n);
    }
    let data = organize_match_data(&visitor).unwrap();
    assert_eq!(data.amber_team.len(), 6);
    assert_eq!(data.sapphire_team.len(), 6);
    assert!(data.amber_team.iter().all(|p| p.team == 2));
    assert!(data.sapphire_team.iter().all(|p| p.team == 3));
    let amber_slots: Vec<u8> = data.amber_team.iter().map(|p| p.player_slot).collect();
    assert_eq!(amber_slots, vec![1, 3, 5, 7, 9, 11]);
    let sapphire_slots: Vec<u8> = data.sapphire_team.iter().map(|p| p.player_slot).collect();
    assert_eq!(sapphire_slots, vec![2, 4, 6, 8, 10, 12]);
    for a in data.amber_team.iter() {
        assert!(data.sapphire_team.iter().all(|s| s.account_id != a.account_id));
    }
    assert_eq!(count_players_with_heroes(&data), 12);
}

#[test]
fn partial_scan_still_assembles() {
    let mut visitor = MatchDataVisitor::new();
    observe(&mut visitor, 1, 5, 2, 0);
    observe(&mut visitor, 2, 1, 3, 4);
    observe(&mut visitor, 3, 2, 2, 8);
    observe(&mut visitor, 4, 9, 3, 0);
    observe(&mut visitor, 5, 3, 3, 6);
    let data = organize_match_data(&visitor).unwrap();
    assert_eq!(data.amber_team.len() + data.sapphire_team.len(), 5);
    let amber: Vec<u32> = data.amber_team.iter().map(|p| p.account_id).collect();
    assert_eq!(amber, vec![3, 1]);
    let sapphire: Vec<u32> = data.sapphire_team.iter().map(|p| p.account_id).collect();
    assert_eq!(sapphire, vec![2, 5, 4]);
    assert_eq!(count_players_with_heroes(&data), 3);
}

#[test]
fn no_players_is_an_error() {
    let visitor = MatchDataVisitor::new();
    assert_eq!(organize_match_data(&visitor), Err(MatchError::NoPlayersFound));
    assert_eq!(MatchError::NoPlayersFound.message(), "No players found");
}

#[test]
fn one_team_may_be_empty() {
    let mut visitor = MatchDataVisitor::new();
    observe(&mut visitor, 1, 5, 2, 0);
    let data = organize_match_data(&visitor).unwrap();
    assert_eq!(data.amber_team.len(), 1);
    assert!(data.sapphire_team.is_empty());
}

#[test]
fn heroes_are_counted_over_both_teams() {
    let data = MatchData {
        amber_team: vec![record(1, "a", 1, 2, 0), record(2, "b", 2, 2, 5)],
        sapphire_team: vec![record(3, "c", 1, 3, 7), record(4, "d", 2, 3, 0), record(5, "e", 3, 3, 1)],
    };
    assert_eq!(count_players_with_heroes(&data), 3);
    let none = MatchData { amber_team: vec![], sapphire_team: vec![] };
    assert_eq!(count_players_with_heroes(&none), 0);
}
