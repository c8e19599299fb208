use tic_tac_toe::cli_args_processing::StartOrder;
use tic_tac_toe::playboard::{Playboard, PlayboardGridOptions};
use tic_tac_toe::session::{
    get_oponent_start_order, place_on_board, restart_game, AgreeOutcome, PlaceOutcome,
    ReceivedOutcome, SendOutcome, SessionState,
};

fn free_grid(len: usize) -> Vec<PlayboardGridOptions> {
    vec![PlayboardGridOptions::Free; len]
}

#[test]
fn test_get_oponent_start_order() {
    assert_eq!(get_oponent_start_order(StartOrder::First), StartOrder::Second);
    assert_eq!(get_oponent_start_order(StartOrder::Second), StartOrder::First);
}

#[test]
fn test_session_new_flags() {
    let first = SessionState::new(3, StartOrder::First).unwrap();
    assert!(first.is_app_running());
    assert!(first.is_game_running());
    assert!(first.is_my_turn());
    assert!(!first.is_new_game_requested_by_peer());
    assert!(!first.is_new_game_offered_by_me());
    assert_eq!(first.get_start_order(), StartOrder::First);
    assert_eq!(first.board_side(), 3);
    assert_eq!(first.board_snapshot(), free_grid(9));

    let second = SessionState::new(3, StartOrder::Second).unwrap();
    assert!(!second.is_my_turn());

    assert!(SessionState::new(4, StartOrder::First).is_err());
}

#[test]
fn test_out_of_turn_send_changes_nothing() {
    // A session that moves second, right after start: placing before any
    // remote message must be refused with no board mutation.
    let mut session = SessionState::new(3, StartOrder::Second).unwrap();
    let outcome = session.send_message(b"@(1,1)\n");
    assert_eq!(outcome, SendOutcome::RejectedNotYourTurn);
    assert_eq!(session.board_snapshot(), free_grid(9));
    assert!(!session.is_my_turn());
    assert!(session.is_game_running());
}

#[test]
fn test_send_after_game_end_is_refused() {
    let mut session = SessionState::new(3, StartOrder::First).unwrap();
    assert!(matches!(
        session.send_message(b"@(1,1)\n"),
        SendOutcome::SentPlace(PlaceOutcome::Placed { row: 1, col: 1 })
    ));
    session.process_received_data_meaning(b"@(2,2)\n");
    session.send_message(b"@(1,2)\n");
    session.process_received_data_meaning(b"@(2,1)\n");
    assert!(matches!(
        session.send_message(b"@(1,3)\n"),
        SendOutcome::SentPlace(PlaceOutcome::GameOver { row: 1, col: 3 })
    ));
    assert!(!session.is_game_running());
    // The finished game accepts no further placement line.
    let snapshot = session.board_snapshot();
    assert_eq!(session.send_message(b"@(3,3)\n"), SendOutcome::RejectedGameFinished);
    assert_eq!(session.board_snapshot(), snapshot);
}

#[test]
fn test_turn_alternation() {
    let mut session = SessionState::new(3, StartOrder::First).unwrap();
    assert!(session.is_my_turn());

    // A successful local placement hands the turn away.
    assert!(matches!(
        session.send_message(b"@(1,1)\n"),
        SendOutcome::SentPlace(PlaceOutcome::Placed { .. })
    ));
    assert!(!session.is_my_turn());

    // Nothing but a successful remote placement hands it back.
    assert_eq!(session.send_message(b"@(2,2)\n"), SendOutcome::RejectedNotYourTurn);
    assert!(!session.is_my_turn());
    assert_eq!(session.send_message(b"!hello\n"), SendOutcome::Sent);
    assert!(!session.is_my_turn());
    assert_eq!(session.new_game_request(b"play-again\n"), SendOutcome::Sent);
    assert!(!session.is_my_turn());
    // A remote placement on the occupied cell fails and flips nothing.
    assert!(matches!(
        session.process_received_data_meaning(b"@(1,1)\n"),
        ReceivedOutcome::RemotePlace(PlaceOutcome::Invalid { row: 1, col: 1 })
    ));
    assert!(!session.is_my_turn());
    // A successful remote placement makes it this session's turn again.
    assert!(matches!(
        session.process_received_data_meaning(b"@(2,2)\n"),
        ReceivedOutcome::RemotePlace(PlaceOutcome::Placed { row: 2, col: 2 })
    ));
    assert!(session.is_my_turn());
}

#[test]
fn test_local_rejected_placement_keeps_turn() {
    let mut session = SessionState::new(3, StartOrder::First).unwrap();
    // A malformed line reaches the wire but no mark is placed and the turn
    // stays here.
    assert!(matches!(
        session.send_message(b"@( , 2)\n"),
        SendOutcome::SentPlace(PlaceOutcome::Malformed)
    ));
    assert!(session.is_my_turn());
    assert_eq!(session.board_snapshot(), free_grid(9));
    // So does a placement on a cell outside the board.
    assert!(matches!(
        session.send_message(b"@(4,1)\n"),
        SendOutcome::SentPlace(PlaceOutcome::Invalid { row: 4, col: 1 })
    ));
    assert!(session.is_my_turn());
    // Coordinates are one-based on the wire: zero is outside the board.
    assert!(matches!(
        session.send_message(b"@(0,1)\n"),
        SendOutcome::SentPlace(PlaceOutcome::Invalid { row: 0, col: 1 })
    ));
    assert!(session.is_my_turn());
}

#[test]
fn test_agreement_without_request_is_a_no_op() {
    let mut session = SessionState::new(3, StartOrder::First).unwrap();
    session.send_message(b"@(1,1)\n");
    let snapshot = session.board_snapshot();

    let outcome = session.new_game_agreement(b"agree\n");
    assert_eq!(outcome, AgreeOutcome::Ignored);
    assert_eq!(session.board_snapshot(), snapshot);
    assert!(session.is_game_running());
    assert!(!session.is_new_game_requested_by_peer());
    assert!(!session.is_new_game_offered_by_me());
}

#[test]
fn test_agreement_with_pending_request_restarts() {
    let mut session = SessionState::new(3, StartOrder::First).unwrap();
    session.send_message(b"@(1,1)\n");

    assert_eq!(
        session.process_received_data_meaning(b"play-again\n"),
        ReceivedOutcome::RestartRequested
    );
    assert!(session.is_new_game_requested_by_peer());

    let outcome = session.new_game_agreement(b"agree\n");
    assert_eq!(outcome, AgreeOutcome::Restarted);
    assert_eq!(session.board_snapshot(), free_grid(9));
    assert!(session.is_game_running());
    assert!(!session.is_new_game_requested_by_peer());
    assert!(!session.is_new_game_offered_by_me());
}

#[test]
fn test_remote_agreement_needs_standing_offer() {
    let mut session = SessionState::new(3, StartOrder::First).unwrap();
    session.send_message(b"@(1,1)\n");
    let snapshot = session.board_snapshot();

    // An agreement from the peer without this session's own offer is
    // ignored.
    assert_eq!(
        session.process_received_data_meaning(b"agree\n"),
        ReceivedOutcome::Ignored
    );
    assert_eq!(session.board_snapshot(), snapshot);

    // With the offer standing it executes the restart.
    assert_eq!(session.new_game_request(b"play-again\n"), SendOutcome::Sent);
    assert!(session.is_new_game_offered_by_me());
    assert_eq!(
        session.process_received_data_meaning(b"agree\n"),
        ReceivedOutcome::RestartAgreed
    );
    assert_eq!(session.board_snapshot(), free_grid(9));
    assert!(session.is_game_running());
    assert!(!session.is_new_game_offered_by_me());
    assert!(!session.is_new_game_requested_by_peer());
}

#[test]
fn test_received_private_message() {
    let mut session = SessionState::new(3, StartOrder::First).unwrap();
    let outcome = session.process_received_data_meaning(b"!good luck\n");
    assert_eq!(
        outcome,
        ReceivedOutcome::PrivateMessage(b"good luck".to_vec())
    );
    assert_eq!(session.board_snapshot(), free_grid(9));
    assert!(session.is_my_turn());
}

#[test]
fn test_received_unknown_line_is_ignored() {
    let mut session = SessionState::new(3, StartOrder::First).unwrap();
    assert_eq!(
        session.process_received_data_meaning(b"chatter\n"),
        ReceivedOutcome::Ignored
    );
    assert_eq!(session.board_snapshot(), free_grid(9));
    assert!(session.is_game_running());
    assert!(session.is_my_turn());
}

#[test]
fn test_remote_win_clears_running_flag() {
    let mut session = SessionState::new(3, StartOrder::Second).unwrap();
    session.process_received_data_meaning(b"@(1,1)\n");
    session.send_message(b"@(2,2)\n");
    session.process_received_data_meaning(b"@(1,2)\n");
    session.send_message(b"@(2,1)\n");
    let outcome = session.process_received_data_meaning(b"@(1,3)\n");
    assert!(matches!(
        outcome,
        ReceivedOutcome::RemotePlace(PlaceOutcome::GameOver { row: 1, col: 3 })
    ));
    assert!(!session.is_game_running());
}

#[test]
fn test_stop_clears_app_flag_only() {
    let mut session = SessionState::new(3, StartOrder::First).unwrap();
    session.stop();
    assert!(!session.is_app_running());
    assert!(session.is_game_running());
    assert!(session.is_my_turn());
}

#[test]
fn test_place_on_board_malformed_keeps_board() {
    let mut playboard = Playboard::new(3).unwrap();
    let mut run_game = true;
    let outcome = place_on_board(b"@( , 2)", &mut playboard, &mut run_game, StartOrder::First);
    assert_eq!(outcome, PlaceOutcome::Malformed);
    assert_eq!(playboard.grid_snapshot(), free_grid(9));
    assert!(run_game);
}

#[test]
fn test_place_on_board_game_over_clears_flag() {
    let grid = vec![
        PlayboardGridOptions::X,
        PlayboardGridOptions::X,
        PlayboardGridOptions::Free,
        PlayboardGridOptions::O,
        PlayboardGridOptions::O,
        PlayboardGridOptions::Free,
        PlayboardGridOptions::Free,
        PlayboardGridOptions::Free,
        PlayboardGridOptions::Free,
    ];
    let mut playboard = Playboard::from_grid(grid, 3).unwrap();
    let mut run_game = true;
    let outcome = place_on_board(b"@(1,3)", &mut playboard, &mut run_game, StartOrder::First);
    assert_eq!(outcome, PlaceOutcome::GameOver { row: 1, col: 3 });
    assert!(!run_game);
}

#[test]
fn test_restart_game_resets_everything() {
    let grid = vec![PlayboardGridOptions::X; 9];
    let mut playboard = Playboard::from_grid(grid, 3).unwrap();
    let mut run_game = false;
    let mut new_game_req = true;
    let mut new_game_desirable = true;
    restart_game(
        &mut playboard,
        &mut run_game,
        &mut new_game_req,
        &mut new_game_desirable,
    );
    assert_eq!(playboard.grid_snapshot(), free_grid(9));
    assert!(run_game);
    assert!(!new_game_req);
    assert!(!new_game_desirable);
}
