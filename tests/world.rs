use platformer_core::world::{
    bridge_piece, kill_zone_system, play_pickup_sound_system, score_display_text,
    setup_score_display_system, update_score_display_system, BridgePiece, CoinCollected,
    GamePhysicsLayer, PlayerBody,
};

fn player(entity: u64) -> PlayerBody {
    PlayerBody { entity, memberships: GamePhysicsLayer::Player.mask(), is_dead: false }
}

#[test]
fn kill_zone_kills_once() {
    let zones = vec![vec![9, 1], vec![1]];
    let mut players = vec![player(1), player(2)];
    let cues = kill_zone_system(&zones, &mut players);
    assert_eq!(cues, vec![1]);
    assert!(players[0].is_dead);
    assert_eq!(players[0].memberships, GamePhysicsLayer::Dead.mask());
    assert_eq!(players[1], player(2));
    let again = kill_zone_system(&zones, &mut players);
    assert!(again.is_empty());
    assert!(players[0].is_dead);
}

#[test]
fn kill_zone_without_overlap_does_nothing() {
    let mut players = vec![player(3)];
    let cues = kill_zone_system(&vec![vec![], vec![4]], &mut players);
    assert!(cues.is_empty());
    assert_eq!(players[0], player(3));
}

#[test]
fn layer_masks() {
    assert_eq!(GamePhysicsLayer::Ground.mask(), 1);
    assert_eq!(GamePhysicsLayer::Dead.mask(), 16);
}

#[test]
fn score_shows_last_total_and_cues_every_event() {
    let mut text = setup_score_display_system();
    let events = vec![CoinCollected { total_collected: 3 }, CoinCollected { total_collected: 7 }];
    update_score_display_system(&mut text, &events);
    assert_eq!(text, "You collected\n7 coins!");
    assert_eq!(play_pickup_sound_system(&events), 2);
}

#[test]
fn score_without_events_is_unchanged() {
    let mut text = setup_score_display_system();
    update_score_display_system(&mut text, &vec![]);
    assert_eq!(text, "You collected\n0 coins :(");
    assert_eq!(play_pickup_sound_system(&vec![]), 0);
}

#[test]
fn score_text_digits() {
    assert_eq!(score_display_text(0), "You collected\n0 coins!");
    assert_eq!(score_display_text(120), "You collected\n120 coins!");
    assert_eq!(score_display_text(u64::MAX), "You collected\n18446744073709551615 coins!");
}

#[test]
fn bridge_pieces_by_tag() {
    let t = |v: &[&str]| v.iter().map(|s| s.to_string()).collect::<Vec<String>>();
    assert_eq!(bridge_piece(&t(&["StartBridge"])), Some(BridgePiece::Start));
    assert_eq!(bridge_piece(&t(&["Other", "MiddleBridge"])), Some(BridgePiece::Middle));
    assert_eq!(bridge_piece(&t(&["EndBridge", "StartBridge"])), Some(BridgePiece::Start));
    assert_eq!(bridge_piece(&t(&["EndBridge"])), Some(BridgePiece::End));
    assert_eq!(bridge_piece(&t(&["Bridge"])), None);
    assert_eq!(bridge_piece(&vec![]), None);
}
