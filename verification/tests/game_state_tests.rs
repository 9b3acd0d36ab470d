use block_game_clone_backend::action::Action;
use block_game_clone_backend::board::{Board, BoardCell};
use block_game_clone_backend::board_state::BoardState;
use block_game_clone_backend::game_mode::{GameMode, TwoPlayerMap};
use block_game_clone_backend::game_state::GameState;
use block_game_clone_backend::piece::PieceName;
use block_game_clone_backend::player::Player;
use block_game_clone_backend::rotation_axis::RotationAxis;
use block_game_clone_backend::v3::V3;

#[test]
fn test_multiple_actions() {
    let mut gs = GameState::new(GameMode::default());

    gs.apply_action(Action::SelectPiece(PieceName::Corner));
    gs.apply_action(Action::PreviewPiece(V3::new(0, 0, 0)));
    gs.apply_action(Action::PlayPreviewedPiece);

    println!("{:?}", gs);
}

#[test]
fn test_ai_move() {
    let mut gs = GameState::new(GameMode::VSGreedyAI(TwoPlayerMap::Pyramid));

    gs.apply_action(Action::MakeGreedyAIMove);
    println!("{:?}", gs.score);
    gs.apply_action(Action::MakeGreedyAIMove);
    println!("{:?}", gs.score);
}

#[test]
fn test_ai_vs_ai() {
    let mut gs = GameState::new(GameMode::VSGreedyAI(TwoPlayerMap::Pyramid));

    while !gs.game_ended {
        gs.make_greedy_ai_move();
        println!("made move");
    }
    println!("{:?}", gs.score);
}

#[test]
fn greedy_ai_test() {
    let mut game_state = GameState::new(GameMode::VSGreedyAI(TwoPlayerMap::Wall));
    println!("{:?}", game_state.score);

    game_state.apply_action(Action::SelectPiece(PieceName::OneByThree));
    game_state.apply_action(Action::PreviewPiece(V3::new(0, 0, 0)));
    game_state.apply_action(Action::PlayPreviewedPiece);
    game_state.apply_action(Action::MakeGreedyAIMove);

    println!("{:?}", game_state.score);
}

#[test]
fn print() {
    let mut gs = GameState::default();

    gs.apply_action(Action::SelectPiece(PieceName::Corner));

    gs.apply_action(Action::PreviewPiece(V3::new(0, 0, 0)));

    gs.apply_action(Action::PlayPreviewedPiece);

    println!("{:?}", gs);
}

#[test]
fn board_print() {
    let mut gs = GameState::default();

    gs.apply_action(Action::SelectPiece(PieceName::Corner));

    gs.apply_action(Action::PreviewPiece(V3::new(0, 0, 0)));

    gs.apply_action(Action::PlayPreviewedPiece);

    assert!(gs.score.p1 == 3);
    assert!(gs.score.p2 == 0);

    println!("{:?}", gs);
}

#[test]
fn score() {
    let b = BoardState::new(GameMode::TwoPlayer(TwoPlayerMap::Stairs));

    let score = b.calculate_score();
    println!("{:?}", score);
    assert_eq!(score.get(Player::P1), 0);
    assert_eq!(score.get(Player::P2), 0);
}

#[test]
fn scoring_single_topped_column() {
    // A vertical two-cube piece tops exactly one column for player one while
    // every other column stays empty: the score is one to nothing.
    let mut gs = GameState::default();
    gs.apply_action(Action::SelectPiece(PieceName::OneByTwo));
    gs.apply_action(Action::RotateSelectedPiece(RotationAxis::X));
    gs.apply_action(Action::PreviewPiece(V3::new(0, 1, 0)));
    gs.apply_action(Action::PlayPreviewedPiece);

    assert_eq!(gs.score.p1, 1);
    assert_eq!(gs.score.p2, 0);
}

#[test]
fn greedy_with_no_legal_move_passes() {
    // On a board with no empty cell the current player has zero legal
    // placements among all rotations and positions, so the greedy move is an
    // effective pass: the player toggles and the score is unchanged.
    let blocked = Board { cells: vec![BoardCell::OutOfBounds; 512], height_limits: vec![] };
    let mut gs = GameState::new(GameMode::VSGreedyAI(TwoPlayerMap::Tower));
    gs.board_state = BoardState { board: blocked, previewed_piece: None };
    let score_before = gs.score;

    gs.make_greedy_ai_move();

    assert_eq!(gs.player_state.current_player, Player::P2);
    assert_eq!(gs.score, score_before);
    assert!(gs.game_ended);
}

#[test]
fn greedy_picks_a_best_opening_move() {
    // On the empty tower board the best any four-cube piece can do is top
    // four distinct columns, so the opening greedy move scores exactly four.
    let mut gs = GameState::new(GameMode::VSGreedyAI(TwoPlayerMap::Tower));

    gs.apply_action(Action::MakeGreedyAIMove);

    assert_eq!(gs.score.p1, 4);
    assert_eq!(gs.score.p2, 0);
    assert_eq!(gs.player_state.current_player, Player::P2);
}

#[test]
fn pass_turn_toggles_and_keeps_board() {
    let mut gs = GameState::default();
    gs.apply_action(Action::SelectPiece(PieceName::OneByTwo));
    gs.apply_action(Action::PreviewPiece(V3::new(0, 0, 0)));
    gs.apply_action(Action::PassTurn);

    assert_eq!(gs.player_state.current_player, Player::P2);
    assert!(gs.board_state.previewed_piece.is_none());
    assert_eq!(gs.board_state.board.get(V3::new(0, 0, 0)), Some(BoardCell::Empty));
    // Both players still have every piece, so the fresh game is not over.
    assert!(!gs.game_ended);
}

#[test]
fn reset_clears_board_and_hands() {
    let mut gs = GameState::default();
    gs.apply_action(Action::SelectPiece(PieceName::OneByTwo));
    gs.apply_action(Action::PreviewPiece(V3::new(0, 0, 0)));
    gs.apply_action(Action::PlayPreviewedPiece);
    assert_eq!(gs.board_state.board.get(V3::new(0, 0, 0)), Some(BoardCell::Player(Player::P1)));

    gs.apply_action(Action::Reset);
    assert_eq!(gs.board_state.board.get(V3::new(0, 0, 0)), Some(BoardCell::Empty));
    assert_eq!(gs.player_state.current_player, Player::P1);
}

#[test]
fn set_origin_action_moves_selected_piece() {
    let mut gs = GameState::default();
    gs.apply_action(Action::SelectPiece(PieceName::OneByTwo));
    gs.apply_action(Action::SetSelectedPieceOrigin(V3::new(0, 0, 1)));
    // The re-originated piece now extends to negative z, so at the origin
    // column one cube lands outside the board.
    gs.apply_action(Action::PreviewPiece(V3::new(0, 0, 0)));
    let preview = gs.board_state.previewed_piece.as_ref().expect("preview stored");
    assert!(preview.iter().any(|c| c.error.is_some()));
}
