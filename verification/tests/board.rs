//! Move legality and board-mutation behavior.

use chess::chess::{Board, Class, Color, Error};

fn invalid_move_reason(r: Result<(), Error>) -> String {
    match r {
        Err(Error::InvalidMove(m)) => m,
        other => panic!("expected InvalidMove, got {:?}", other),
    }
}

fn snapshot(board: &Board) -> (Vec<Option<chess::chess::Piece>>, Color, usize, usize) {
    let mut grid = Vec::new();
    for file in 0..8 {
        for rank in 0..8 {
            grid.push(board.get_piece(file, rank));
        }
    }
    (
        grid,
        board.turn(),
        board.halfmove_clock(),
        board.fullmove_number(),
    )
}

#[test]
fn pawn_double_advance_sets_en_passant_and_move_count() {
    let mut board = Board::default_board().unwrap();
    board.move_piece("e2e4").unwrap();
    assert!(board.is_en_passant(4, 2));
    let pawn = board.get_piece(4, 3).unwrap();
    assert_eq!(pawn.class, Class::Pawn);
    assert_eq!(pawn.color, Color::White);
    assert_eq!(pawn.moves, 1);
    assert_eq!(board.get_piece(4, 1), None);
    assert_eq!(board.turn(), Color::Black);
}

#[test]
fn pawn_diagonal_capture_succeeds() {
    let mut board = Board::default_board().unwrap();
    board.move_piece("e2e4").unwrap();
    board.move_piece("d7d5").unwrap();
    board.move_piece("e4d5").unwrap();
    let pawn = board.get_piece(3, 4).unwrap();
    assert_eq!(pawn.color, Color::White);
    assert_eq!(pawn.class, Class::Pawn);
    assert_eq!(board.get_piece(4, 3), None);
}

#[test]
fn pawn_diagonal_slide_without_capture_fails() {
    let mut board = Board::default_board().unwrap();
    board.move_piece("e2e4").unwrap();
    board.move_piece("d7d5").unwrap();
    // Diagonal move to an empty square that is not the en-passant target.
    let reason = invalid_move_reason(board.move_piece("e4f5"));
    assert_eq!(reason, "Pawn can not move diagonally");
}

#[test]
fn pawn_cannot_move_backward() {
    let mut board = Board::default_board().unwrap();
    board.move_piece("e2e4").unwrap();
    board.move_piece("e7e5").unwrap();
    let reason = invalid_move_reason(board.move_piece("e4e3"));
    assert_eq!(reason, "Pawn can only move forward");
}

#[test]
fn pawn_first_move_distance_message_is_specific() {
    let mut board = Board::default_board().unwrap();
    let reason = invalid_move_reason(board.move_piece("e2e5"));
    assert_eq!(
        reason,
        "Pawn can only move one or two squares forward on the first move, attempted to move 3 squares"
    );
}

#[test]
fn pawn_single_step_only_after_first_move() {
    let mut board = Board::default_board().unwrap();
    board.move_piece("e2e3").unwrap();
    board.move_piece("a7a6").unwrap();
    let reason = invalid_move_reason(board.move_piece("e3e5"));
    assert_eq!(reason, "Pawn can only move one square forward");
}

#[test]
fn en_passant_capture_removes_bypassed_pawn() {
    let mut board = Board::default_board().unwrap();
    board.move_piece("e2e4").unwrap();
    board.move_piece("a7a6").unwrap();
    board.move_piece("e4e5").unwrap();
    board.move_piece("d7d5").unwrap();
    assert!(board.is_en_passant(3, 5));
    board.move_piece("e5d6").unwrap();
    // The bypassed black pawn on d5 is gone; the capturer stands on d6.
    assert_eq!(board.get_piece(3, 4), None);
    let pawn = board.get_piece(3, 5).unwrap();
    assert_eq!(pawn.color, Color::White);
}

#[test]
fn kingside_castle_relocates_rook_and_king() {
    let mut board = Board::default_board().unwrap();
    for mv in ["e2e4", "e7e5", "g1f3", "b8c6", "f1b5", "g8f6", "e1g1"] {
        board.move_piece(mv).unwrap();
    }
    let king = board.get_piece(6, 0).unwrap();
    assert_eq!(king.class, Class::King);
    assert_eq!(king.color, Color::White);
    let rook = board.get_piece(5, 0).unwrap();
    assert_eq!(rook.class, Class::Rook);
    assert_eq!(rook.color, Color::White);
    assert_eq!(board.get_piece(4, 0), None);
    assert_eq!(board.get_piece(7, 0), None);
}

#[test]
fn queenside_castle_relocates_rook_and_king() {
    let mut board = Board::default_board().unwrap();
    for mv in [
        "d2d4", "d7d5", "c1f4", "a7a6", "b1c3", "b7b6", "d1d3", "c7c6", "e1c1",
    ] {
        board.move_piece(mv).unwrap();
    }
    let king = board.get_piece(2, 0).unwrap();
    assert_eq!(king.class, Class::King);
    let rook = board.get_piece(3, 0).unwrap();
    assert_eq!(rook.class, Class::Rook);
    assert_eq!(board.get_piece(0, 0), None);
    assert_eq!(board.get_piece(4, 0), None);
}

#[test]
fn plain_king_step_onto_g_file_drags_the_corner_piece() {
    // A king arriving on the g-file relocates the corner occupant of that
    // rank unconditionally; for a plain one-square step the dragged piece
    // lands on the king's origin and is then cleared away with it.
    let mut board = Board::new().unwrap();
    board.from_fen("8/8/8/8/8/5K1R/8/8 w - - 0 1").unwrap();
    board.move_piece("f3g3").unwrap();
    let king = board.get_piece(6, 2).unwrap();
    assert_eq!(king.class, Class::King);
    assert_eq!(board.get_piece(5, 2), None);
    assert_eq!(board.get_piece(7, 2), None);
}

#[test]
fn en_passant_target_expires_after_one_move() {
    let mut board = Board::default_board().unwrap();
    board.move_piece("e2e4").unwrap();
    assert!(board.is_en_passant(4, 2));
    board.move_piece("b8c6").unwrap();
    for file in 0..8 {
        for rank in 0..8 {
            assert!(!board.is_en_passant(file, rank));
        }
    }
}

#[test]
fn castle_fails_after_king_moved() {
    let mut board = Board::default_board().unwrap();
    for mv in ["e2e4", "e7e5", "g1f3", "b8c6", "f1b5", "g8f6", "e1e2", "a7a6", "e2e1", "b7b6"] {
        board.move_piece(mv).unwrap();
    }
    let reason = invalid_move_reason(board.move_piece("e1g1"));
    assert_eq!(reason, "King can only move one square in any direction");
}

#[test]
fn moving_from_empty_square_fails() {
    let mut board = Board::default_board().unwrap();
    let reason = invalid_move_reason(board.move_piece("e4e5"));
    assert_eq!(reason, "No piece on square");
}

#[test]
fn moving_opponent_piece_fails() {
    let mut board = Board::default_board().unwrap();
    let reason = invalid_move_reason(board.move_piece("e7e5"));
    assert_eq!(reason, "Not your piece");
}

#[test]
fn failed_validation_leaves_board_unchanged() {
    let mut board = Board::default_board().unwrap();
    board.move_piece("e2e4").unwrap();
    let before = snapshot(&board);
    for attempt in ["e4e3", "e2e4", "a1a5", "b1b3", "d8d5", "c1c2", "zzzz", "e9e4"] {
        assert!(board.move_piece(attempt).is_err());
        assert_eq!(snapshot(&board), before);
    }
}

#[test]
fn capturing_own_piece_fails() {
    let mut board = Board::default_board().unwrap();
    let reason = invalid_move_reason(board.move_piece("a1a2"));
    assert_eq!(reason, "Can't capture your own piece");
}

#[test]
fn knight_shape_is_enforced() {
    let mut board = Board::default_board().unwrap();
    board.move_piece("g1f3").unwrap();
    board.move_piece("b8c6").unwrap();
    let reason = invalid_move_reason(board.move_piece("f3f5"));
    assert_eq!(
        reason,
        "Knight can only move two squares forward and one square sideways, or two squares sideways and one square forward"
    );
}

#[test]
fn rook_blocked_path_fails() {
    let mut board = Board::default_board().unwrap();
    let reason = invalid_move_reason(board.move_piece("a1a4"));
    assert_eq!(reason, "Rook can not move through pieces");
}

#[test]
fn rook_blocked_by_enemy_piece_fails_the_same_way() {
    let mut board = Board::default_board().unwrap();
    board.move_piece("a2a4").unwrap();
    board.move_piece("a7a5").unwrap();
    board.move_piece("a1a3").unwrap();
    board.move_piece("h7h6").unwrap();
    // The enemy pawn on a5 blocks the white rook's way up the a-file.
    let reason = invalid_move_reason(board.move_piece("a3a7"));
    assert_eq!(reason, "Rook can not move through pieces");
}

#[test]
fn rook_geometry_is_enforced() {
    let mut board = Board::default_board().unwrap();
    let reason = invalid_move_reason(board.move_piece("a1b3"));
    assert_eq!(reason, "Rook can only move horizontally or vertically");
}

#[test]
fn bishop_blocked_path_fails() {
    let mut board = Board::default_board().unwrap();
    let reason = invalid_move_reason(board.move_piece("c1e3"));
    assert_eq!(reason, "Bishop can not move through pieces");
}

#[test]
fn bishop_geometry_is_enforced() {
    let mut board = Board::default_board().unwrap();
    let reason = invalid_move_reason(board.move_piece("c1c3"));
    assert_eq!(reason, "Bishop can only move diagonally");
}

#[test]
fn queen_blocked_path_fails() {
    let mut board = Board::default_board().unwrap();
    let reason = invalid_move_reason(board.move_piece("d1d3"));
    assert_eq!(reason, "Queen can not move through pieces");
}

#[test]
fn queen_geometry_is_enforced() {
    let mut board = Board::default_board().unwrap();
    let reason = invalid_move_reason(board.move_piece("d1e3"));
    assert_eq!(
        reason,
        "Queen can only move horizontally, vertically, or diagonally"
    );
}

#[test]
fn clocks_track_captures_and_pawn_moves() {
    let mut board = Board::default_board().unwrap();
    board.move_piece("e2e4").unwrap();
    assert_eq!(board.halfmove_clock(), 0);
    assert_eq!(board.fullmove_number(), 1);
    board.move_piece("b8c6").unwrap();
    assert_eq!(board.halfmove_clock(), 1);
    assert_eq!(board.fullmove_number(), 2);
    board.move_piece("g1f3").unwrap();
    assert_eq!(board.halfmove_clock(), 2);
    board.move_piece("c6d4").unwrap();
    assert_eq!(board.halfmove_clock(), 3);
    board.move_piece("f3d4").unwrap();
    // A capture resets the clock.
    assert_eq!(board.halfmove_clock(), 0);
}

#[test]
fn history_text_records_accepted_moves() {
    let mut board = Board::default_board().unwrap();
    board.move_piece("e2e4").unwrap();
    board.move_piece("e7e5").unwrap();
    assert!(board.move_piece("e4e3").is_err());
    assert_eq!(board.history_text(), "e2e4 e7e5 ");
}

#[test]
fn reset_empties_the_board() {
    let mut board = Board::default_board().unwrap();
    board.move_piece("e2e4").unwrap();
    board.reset().unwrap();
    for file in 0..8 {
        for rank in 0..8 {
            assert_eq!(board.get_piece(file, rank), None);
        }
    }
    assert_eq!(board.turn(), Color::White);
    assert_eq!(board.history_text(), "");
}

#[test]
fn replay_runs_against_a_fresh_empty_board() {
    // A reset board is empty, so the first replayed token finds no piece:
    // a faithful rendering of the load path.
    let mut board = Board::default_board().unwrap();
    let reason = match board.replay("e2e4 e7e5 ") {
        Err(Error::InvalidMove(m)) => m,
        other => panic!("expected InvalidMove, got {:?}", other),
    };
    assert_eq!(reason, "No piece on square");
    for file in 0..8 {
        for rank in 0..8 {
            assert_eq!(board.get_piece(file, rank), None);
        }
    }
}

#[test]
fn replay_of_blank_text_resets_and_succeeds() {
    let mut board = Board::default_board().unwrap();
    board.replay("").unwrap();
    assert_eq!(board.get_piece(4, 0), None);
    assert_eq!(board.turn(), Color::White);
}
