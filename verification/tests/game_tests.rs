use minigolf::GameState;

#[test]
fn new_game_starts_with_first_player_and_no_scores() {
    let state = GameState::new(4);
    assert_eq!(state.num_players, 4);
    assert_eq!(state.current_player, 0);
    assert_eq!(state.players.len(), 4);
    for player in &state.players {
        assert!(player.scores.is_empty());
    }
}

#[test]
fn record_hole_stores_score_and_passes_the_turn() {
    let mut state = GameState::new(4);
    let complete = state.record_hole(0, 3);
    assert!(!complete);
    assert_eq!(state.current_player, 1);
    assert_eq!(state.players[0].scores, vec![3]);
    assert!(state.players[1].scores.is_empty());
    assert!(state.players[2].scores.is_empty());
    assert!(state.players[3].scores.is_empty());
}

#[test]
fn record_hole_wraps_the_turn_and_reports_completion() {
    let mut state = GameState::new(2);
    assert!(!state.record_hole(0, 2));
    assert_eq!(state.current_player, 1);
    let complete = state.record_hole(1, 5);
    assert!(complete);
    assert_eq!(state.current_player, 0);
    assert_eq!(state.players[0].scores, vec![2]);
    assert_eq!(state.players[1].scores, vec![5]);
}

#[test]
fn completion_needs_exactly_one_score_per_player() {
    let mut state = GameState::new(2);
    assert!(!state.record_hole(0, 1));
    assert!(!state.record_hole(0, 4));
    // player 0 now has two scores, player 1 has one: not complete
    let complete = state.record_hole(1, 2);
    assert!(!complete);
    assert_eq!(state.players[0].scores, vec![1, 4]);
    assert_eq!(state.players[1].scores, vec![2]);
}

#[test]
fn single_player_game_completes_at_once() {
    let mut state = GameState::new(1);
    let complete = state.record_hole(0, 7);
    assert!(complete);
    assert_eq!(state.current_player, 0);
    assert_eq!(state.players[0].scores, vec![7]);
}
