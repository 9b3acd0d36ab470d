use block_game_clone_backend::action::Action;
use block_game_clone_backend::board::{BoardCell, CubeError};
use block_game_clone_backend::game_state::GameState;
use block_game_clone_backend::piece::PieceName;
use block_game_clone_backend::player::Player;
use block_game_clone_backend::v3::V3;

#[test]
fn test_supported_y_0() {
    let mut gs = GameState::default();
    gs.apply_action(Action::SelectPiece(PieceName::OneByTwo));

    gs.apply_action(Action::PreviewPiece(V3::new(0, 0, 0)));

    if let Some(preview_piece) = gs.board_state.previewed_piece {
        assert!(preview_piece.iter().all(|c| c.error.is_none()));
    }
}

#[test]
fn test_supported_other_piece() {
    let mut gs = GameState::default();
    gs.apply_action(Action::SelectPiece(PieceName::OneByTwo));

    gs.apply_action(Action::PreviewPiece(V3::new(0, 0, 0)));

    if let Some(preview_piece) = &gs.board_state.previewed_piece {
        assert!(preview_piece.iter().all(|c| c.error.is_none()));
    }

    gs.apply_action(Action::PlayPreviewedPiece);

    gs.apply_action(Action::SelectPiece(PieceName::OneByTwo));

    gs.apply_action(Action::PreviewPiece(V3::new(0, 1, 0)));

    if let Some(a) = &gs.board_state.previewed_piece {
        assert!(a.iter().all(|c| c.error.is_none()));
    }
}

#[test]
fn test_supported_unsupported() {
    let mut gs = GameState::default();
    gs.apply_action(Action::SelectPiece(PieceName::OneByTwo));

    gs.apply_action(Action::PreviewPiece(V3::new(0, 1, 0)));

    if let Some(preview_piece) = &gs.board_state.previewed_piece {
        assert!(preview_piece.iter().any(|c| c.error == Some(CubeError::Unsupported)));
    }
}

/// attempts to place two pieces in the same position, should fail
#[test]
fn collision() {
    let mut gs = GameState::default();

    // place piece
    gs.apply_action(Action::SelectPiece(PieceName::OneByTwo));
    gs.apply_action(Action::PreviewPiece(V3::new(0, 0, 0)));
    gs.apply_action(Action::PlayPreviewedPiece);

    //attempts to place another piece at the same position
    gs.apply_action(Action::SelectPiece(PieceName::OneByTwo));
    gs.apply_action(Action::PreviewPiece(V3::new(0, 0, 0)));

    if let Some(preivew_cubes) = &gs.board_state.previewed_piece {
        println!("{:?}", preivew_cubes);
        assert!(preivew_cubes.iter().any(|cube| cube.error.is_some()));
    }
}

#[test]
fn collision_marks_every_covered_cube() {
    // Committing a legal two-cube placement and previewing the same placement
    // again reports a collision on both cubes.
    let mut gs = GameState::default();
    gs.apply_action(Action::SelectPiece(PieceName::OneByTwo));
    gs.apply_action(Action::PreviewPiece(V3::new(0, 0, 0)));
    gs.apply_action(Action::PlayPreviewedPiece);

    // The committed cubes are on the board.
    assert_eq!(gs.board_state.board.get(V3::new(0, 0, 0)), Some(BoardCell::Player(Player::P1)));
    assert_eq!(gs.board_state.board.get(V3::new(0, 0, 1)), Some(BoardCell::Player(Player::P1)));

    gs.apply_action(Action::SelectPiece(PieceName::OneByTwo));
    gs.apply_action(Action::PreviewPiece(V3::new(0, 0, 0)));
    let preview = gs.board_state.previewed_piece.as_ref().expect("preview stored");
    assert_eq!(preview.len(), 2);
    assert!(preview.iter().all(|c| c.error == Some(CubeError::Collision)));
}

#[test]
fn legal_placement_both_cubes_error_free() {
    // On the empty 4x5x4 tower board a two-cube piece at the origin column,
    // y = 0, previews with no error, and the commit writes both cells.
    let mut gs = GameState::default();
    gs.apply_action(Action::SelectPiece(PieceName::OneByTwo));
    gs.apply_action(Action::PreviewPiece(V3::new(0, 0, 0)));

    let preview = gs.board_state.previewed_piece.as_ref().expect("preview stored");
    assert_eq!(preview.len(), 2);
    assert!(preview.iter().all(|c| c.error.is_none()));

    gs.apply_action(Action::PlayPreviewedPiece);
    assert_eq!(gs.board_state.board.get(V3::new(0, 0, 0)), Some(BoardCell::Player(Player::P1)));
    assert_eq!(gs.board_state.board.get(V3::new(0, 0, 1)), Some(BoardCell::Player(Player::P1)));
}

#[test]
fn out_of_bounds_beyond_column_limit() {
    // The tower board has five columns per row: a one-by-four laid from
    // z = 2 runs past the last column and that cube reports out of bounds.
    let mut gs = GameState::default();
    gs.apply_action(Action::SelectPiece(PieceName::OneByFour));
    gs.apply_action(Action::PreviewPiece(V3::new(0, 0, 2)));

    let preview = gs.board_state.previewed_piece.as_ref().expect("preview stored");
    assert_eq!(preview.len(), 4);
    assert!(preview.iter().any(|c| c.error == Some(CubeError::OutOfBounds)));
}

#[test]
fn touch_rule_empty_board_passes() {
    // On an empty board any legal-shape placement passes the touch check:
    // no cube carries the not-touching error.
    let mut gs = GameState::default();
    gs.apply_action(Action::SelectPiece(PieceName::Corner));
    gs.apply_action(Action::PreviewPiece(V3::new(1, 0, 1)));
    let preview = gs.board_state.previewed_piece.as_ref().expect("preview stored");
    assert!(preview.iter().all(|c| c.error != Some(CubeError::NotTouchingPiece)));
}

#[test]
fn touch_rule_second_player_must_touch() {
    // Once exactly one player has played, the opponent's placement must touch
    // that player's cubes or every cube is rejected with the touch error.
    let mut gs = GameState::default();
    gs.apply_action(Action::SelectPiece(PieceName::OneByTwo));
    gs.apply_action(Action::PreviewPiece(V3::new(0, 0, 0)));
    gs.apply_action(Action::PlayPreviewedPiece);

    // Player two previews far from player one's cubes: rejected wholesale.
    gs.apply_action(Action::SelectPiece(PieceName::OneByTwo));
    gs.apply_action(Action::PreviewPiece(V3::new(3, 0, 3)));
    let rejected = gs.board_state.previewed_piece.as_ref().expect("preview stored");
    assert!(rejected.iter().all(|c| c.error == Some(CubeError::NotTouchingPiece)));

    // Player two previews adjacent to player one's cubes: accepted.
    gs.apply_action(Action::SelectPiece(PieceName::OneByTwo));
    gs.apply_action(Action::PreviewPiece(V3::new(1, 0, 0)));
    let accepted = gs.board_state.previewed_piece.as_ref().expect("preview stored");
    assert!(accepted.iter().all(|c| c.error.is_none()));
}

#[test]
fn preview_is_deterministic() {
    // The legality pipeline is a pure function of board, player, piece and
    // position: previewing twice yields the identical annotated list.
    let mut gs = GameState::default();
    gs.apply_action(Action::SelectPiece(PieceName::Z));
    gs.apply_action(Action::PreviewPiece(V3::new(1, 0, 1)));
    let first: Vec<_> = gs
        .board_state
        .previewed_piece
        .as_ref()
        .expect("preview stored")
        .iter()
        .map(|c| (c.player, c.position, c.error))
        .collect();

    gs.apply_action(Action::PreviewPiece(V3::new(1, 0, 1)));
    let second: Vec<_> = gs
        .board_state
        .previewed_piece
        .as_ref()
        .expect("preview stored")
        .iter()
        .map(|c| (c.player, c.position, c.error))
        .collect();

    assert_eq!(first, second);
}

#[test]
fn commit_is_atomic() {
    // A preview with an errored cube commits nothing: every touched cell is
    // unchanged and the turn does not pass.
    let mut gs = GameState::default();
    gs.apply_action(Action::SelectPiece(PieceName::OneByTwo));
    gs.apply_action(Action::PreviewPiece(V3::new(0, 1, 0)));
    let preview = gs.board_state.previewed_piece.as_ref().expect("preview stored");
    assert!(preview.iter().any(|c| c.error.is_some()));

    gs.apply_action(Action::PlayPreviewedPiece);
    assert_eq!(gs.board_state.board.get(V3::new(0, 1, 0)), Some(BoardCell::Empty));
    assert_eq!(gs.board_state.board.get(V3::new(0, 1, 1)), Some(BoardCell::Empty));
    assert_eq!(gs.player_state.current_player, Player::P1);

    // A fully error-free preview commits every cube.
    gs.apply_action(Action::SelectPiece(PieceName::OneByTwo));
    gs.apply_action(Action::PreviewPiece(V3::new(0, 0, 0)));
    gs.apply_action(Action::PlayPreviewedPiece);
    assert_eq!(gs.board_state.board.get(V3::new(0, 0, 0)), Some(BoardCell::Player(Player::P1)));
    assert_eq!(gs.board_state.board.get(V3::new(0, 0, 1)), Some(BoardCell::Player(Player::P1)));
    assert_eq!(gs.player_state.current_player, Player::P2);
}

#[test]
fn ground_always_supports() {
    // Every coordinate at y = 0 is supported, whatever the occupancy.
    let mut gs = GameState::default();
    for x in 0..4 {
        for z in 0..5 {
            assert!(gs.board_state.board.supports(&V3::new(x, 0, z)));
        }
    }
    gs.apply_action(Action::SelectPiece(PieceName::OneByTwo));
    gs.apply_action(Action::PreviewPiece(V3::new(0, 0, 0)));
    gs.apply_action(Action::PlayPreviewedPiece);
    assert!(gs.board_state.board.supports(&V3::new(0, 0, 0)));
}
