use deadlyze::assemble::organize_match_data;
use deadlyze::poller::{all_players_found, Outcome, Poller, RunAction, RunEvent, RunState};
use deadlyze::utils::STEAM_ID_BASE;
use deadlyze::visitor::{DeltaKind, EntityUpdate, MatchDataVisitor};

fn observe(visitor: &mut MatchDataVisitor, account: u32, slot: u8, team: u8, hero: u32) {
    let event = EntityUpdate {
        is_player_controller: true,
        steam_id: Some(STEAM_ID_BASE + account as u64),
        steam_name: Some(format!("player{}", account)),
        player_slot: Some(slot),
        team: Some(team),
        hero_id: Some(hero),
    };
    visitor.on_entity(DeltaKind::Update, &event).unwrap();
}

fn full_match() -> MatchDataVisitor {
    let mut visitor = MatchDataVisitor::new();
    for n in 1..=12u32 {
        observe(&mut visitor, n, n as u8, if n <= 6 { 2 } else { 3 }, 20 + n);
    }
    visitor
}

#[test]
fn twelve_players_with_heroes_are_complete() {
    assert!(all_players_found(&full_match()));
}

#[test]
fn eleven_players_are_not_complete() {
    let mut visitor = MatchDataVisitor::new();
    for n in 1..=11u32 {
        observe(&mut visitor, n, n as u8, 2, 20 + n);
    }
    assert!(!all_players_found(&visitor));
}

#[test]
fn one_unknown_hero_is_not_complete() {
    for missing in 1..=12u32 {
        let mut visitor = MatchDataVisitor::new();
        for n in 1..=12u32 {
            observe(&mut visitor, n, n as u8, 3, if n == missing { 0 } else { 20 + n });
        }
        assert!(!all_players_found(&visitor));
    }
}

#[test]
fn thirteen_players_are_not_complete() {
    let mut visitor = full_match();
    observe(&mut visitor, 13, 1, 2, 5);
    assert!(!all_players_found(&visitor));
}

#[test]
fn run_reaches_success_on_full_match() {
    let mut poller = Poller::new();
    let mut visitor = MatchDataVisitor::new();
    assert_eq!(poller.state(), RunState::Connecting);
    assert_eq!(poller.step(RunEvent::Connected, &visitor), RunAction::FetchPacket);
    assert_eq!(poller.state(), RunState::Decoding);
    for n in 1..=12u32 {
        assert_eq!(
            poller.step(RunEvent::PacketFetched, &visitor),
            RunAction::DecodePacket { report_progress: false }
        );
        observe(&mut visitor, n, n as u8, if n <= 6 { 2 } else { 3 }, 20 + n);
        let action = poller.step(RunEvent::PacketDecoded, &visitor);
        if n < 12 {
            assert_eq!(action, RunAction::FetchPacket);
            assert_eq!(poller.state(), RunState::Decoding);
        } else {
            assert_eq!(action, RunAction::Assemble);
        }
    }
    assert_eq!(poller.state(), RunState::Done(Outcome::Success));
    let data = organize_match_data(&visitor).unwrap();
    assert_eq!(data.amber_team.len(), 6);
    assert_eq!(data.sapphire_team.len(), 6);
}

#[test]
fn stream_end_gives_partial_result() {
    let mut poller = Poller::new();
    let mut visitor = MatchDataVisitor::new();
    poller.step(RunEvent::Connected, &visitor);
    for n in 1..=5u32 {
        poller.step(RunEvent::PacketFetched, &visitor);
        observe(&mut visitor, n, n as u8, 2, n);
        assert_eq!(poller.step(RunEvent::PacketDecoded, &visitor), RunAction::FetchPacket);
    }
    assert_eq!(poller.step(RunEvent::StreamEnded, &visitor), RunAction::Assemble);
    assert_eq!(poller.state(), RunState::Done(Outcome::Partial));
    let data = organize_match_data(&visitor).unwrap();
    assert_eq!(data.amber_team.len() + data.sapphire_team.len(), 5);
}

#[test]
fn stream_end_without_players_fails_assembly() {
    let mut poller = Poller::new();
    let visitor = MatchDataVisitor::new();
    poller.step(RunEvent::Connected, &visitor);
    assert_eq!(poller.step(RunEvent::StreamEnded, &visitor), RunAction::Assemble);
    assert_eq!(poller.state(), RunState::Done(Outcome::Partial));
    assert!(organize_match_data(&visitor).is_err());
}

#[test]
fn decode_and_fetch_failures_give_partial_result() {
    for event in [RunEvent::DecodeFailed, RunEvent::FetchFailed] {
        let mut poller = Poller::new();
        let visitor = full_match();
        poller.step(RunEvent::Connected, &visitor);
        poller.step(RunEvent::PacketFetched, &visitor);
        assert_eq!(poller.step(event, &visitor), RunAction::Assemble);
        assert_eq!(poller.state(), RunState::Done(Outcome::Partial));
    }
}

#[test]
fn failed_connection_aborts() {
    let mut poller = Poller::new();
    let visitor = MatchDataVisitor::new();
    assert_eq!(poller.step(RunEvent::ConnectFailed, &visitor), RunAction::Abort);
    assert_eq!(poller.state(), RunState::Failed);
    assert_eq!(poller.step(RunEvent::PacketFetched, &visitor), RunAction::Ignore);
    assert_eq!(poller.state(), RunState::Failed);
}

#[test]
fn events_out_of_place_are_ignored() {
    let mut poller = Poller::new();
    let visitor = full_match();
    assert_eq!(poller.step(RunEvent::PacketDecoded, &visitor), RunAction::Ignore);
    assert_eq!(poller.state(), RunState::Connecting);
    poller.step(RunEvent::Connected, &visitor);
    assert_eq!(poller.step(RunEvent::Connected, &visitor), RunAction::Ignore);
    assert_eq!(poller.step(RunEvent::PacketDecoded, &visitor), RunAction::Assemble);
    assert_eq!(poller.step(RunEvent::PacketDecoded, &visitor), RunAction::Ignore);
    assert_eq!(poller.state(), RunState::Done(Outcome::Success));
}

#[test]
fn progress_is_due_every_hundredth_packet() {
    let mut poller = Poller::new();
    let visitor = MatchDataVisitor::new();
    poller.step(RunEvent::Connected, &visitor);
    for n in 1..=350u32 {
        let action = poller.step(RunEvent::PacketFetched, &visitor);
        assert_eq!(action, RunAction::DecodePacket { report_progress: n % 100 == 0 });
        assert_eq!(poller.step(RunEvent::PacketDecoded, &visitor), RunAction::FetchPacket);
    }
}
