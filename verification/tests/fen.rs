//! Position-encoding behavior: the six-field starting-position string.

use chess::chess::{Board, Class, Color, Error, Piece, DEFAULT_BOARD};

fn letter_at(board: &Board, file: usize, rank: usize) -> String {
    match board.get_piece(file, rank) {
        Some(p) => p.to_fen(),
        None => " ".to_string(),
    }
}

#[test]
fn default_board_reproduces_standard_layout() {
    let board = Board::default_board().unwrap();
    let expected = [
        "RNBQKBNR", // rank 1, files a-h
        "PPPPPPPP",
        "        ",
        "        ",
        "        ",
        "        ",
        "pppppppp",
        "rnbqkbnr", // rank 8
    ];
    for rank in 0..8 {
        let mut row = String::new();
        for file in 0..8 {
            row.push_str(&letter_at(&board, file, rank));
        }
        assert_eq!(row, expected[rank]);
    }
}

#[test]
fn default_board_state_fields() {
    let board = Board::default_board().unwrap();
    assert_eq!(board.turn(), Color::White);
    assert_eq!(board.halfmove_clock(), 0);
    assert_eq!(board.fullmove_number(), 1);
    for file in 0..8 {
        for rank in 0..8 {
            assert!(!board.is_en_passant(file, rank));
        }
    }
}

#[test]
fn default_board_pieces_start_unmoved() {
    let board = Board::default_board().unwrap();
    for file in 0..8 {
        for rank in [0, 1, 6, 7] {
            let p = board.get_piece(file, rank).unwrap();
            assert_eq!(p.moves, 0);
        }
    }
}

#[test]
fn piece_letters() {
    assert_eq!(Piece::new(Class::Pawn, Color::White).to_fen(), "P");
    assert_eq!(Piece::new(Class::Knight, Color::Black).to_fen(), "n");
    assert_eq!(Piece::new(Class::Queen, Color::White).to_fen(), "Q");
    assert_eq!(Piece::new(Class::King, Color::Black).to_fen(), "k");
    assert_eq!(Piece::new(Class::Bishop, Color::White).to_fen(), "B");
    assert_eq!(Piece::new(Class::Rook, Color::Black).to_fen(), "r");
}

#[test]
fn from_fen_reads_side_to_move_and_en_passant() {
    let mut board = Board::new().unwrap();
    board
        .from_fen("rnbqkbnr/pppppppp/8/8/4P3/8/PPPP1PPP/RNBQKBNR b KQkq e3 0 1")
        .unwrap();
    assert_eq!(board.turn(), Color::Black);
    assert!(board.is_en_passant(4, 2));
}

#[test]
fn from_fen_reads_clocks() {
    let mut board = Board::new().unwrap();
    board
        .from_fen("8/8/8/8/8/8/8/8 w - - 13 42")
        .unwrap();
    assert_eq!(board.halfmove_clock(), 13);
    assert_eq!(board.fullmove_number(), 42);
}

#[test]
fn from_fen_accepts_plus_signed_clock() {
    // The numeric fields are read the way the standard unsigned parse
    // reads them, which admits a leading plus sign.
    let mut board = Board::new().unwrap();
    board.from_fen("8/8/8/8/8/8/8/8 w - - +7 1").unwrap();
    assert_eq!(board.halfmove_clock(), 7);
}

#[test]
fn from_fen_missing_fields() {
    let mut board = Board::new().unwrap();
    let cases = [
        ("8", "missing start"),
        ("8 w", "missing castling"),
        ("8 w KQkq", "missing en passant"),
        ("8 w KQkq -", "missing halfmove"),
        ("8 w KQkq - 0", "missing fullmove"),
    ];
    for (input, detail) in cases {
        match board.from_fen(input) {
            Err(Error::InvalidFen(d)) => assert_eq!(d, detail),
            other => panic!("expected InvalidFen for {:?}, got {:?}", input, other),
        }
    }
}

#[test]
fn from_fen_invalid_fields() {
    let mut board = Board::new().unwrap();
    let cases = [
        ("8 x KQkq - 0 1", "invalid start"),
        ("8 w KQkq z3 0 1", "invalid en passant file"),
        ("8 w KQkq e4 0 1", "invalid en passant rank"),
        ("8 w KQkq e 0 1", "missing en passant rank"),
        ("8 w KQkq - x 1", "invalid halfmove clock"),
        ("8 w KQkq - 0 x", "invalid fullmove number"),
        ("z7 w KQkq - 0 1", "invalid piece"),
        ("8P w KQkq - 0 1", "invalid placement"),
    ];
    for (input, detail) in cases {
        match board.from_fen(input) {
            Err(Error::InvalidFen(d)) => assert_eq!(d, detail),
            other => panic!("expected InvalidFen for {:?}, got {:?}", input, other),
        }
    }
}

#[test]
fn from_fen_overflowing_clock_is_rejected() {
    let mut board = Board::new().unwrap();
    match board.from_fen("8/8/8/8/8/8/8/8 w - - 18446744073709551616 1") {
        Err(Error::InvalidFen(d)) => assert_eq!(d, "invalid halfmove clock"),
        other => panic!("expected InvalidFen, got {:?}", other),
    }
    let mut board = Board::new().unwrap();
    board
        .from_fen("8/8/8/8/8/8/8/8 w - - 18446744073709551615 1")
        .unwrap();
    assert_eq!(board.halfmove_clock(), usize::MAX);
}

#[test]
fn from_fen_failure_leaves_fresh_board() {
    let mut board = Board::default_board().unwrap();
    assert!(board.from_fen("8 w KQkq").is_err());
    for file in 0..8 {
        for rank in 0..8 {
            assert_eq!(board.get_piece(file, rank), None);
        }
    }
    assert_eq!(board.turn(), Color::White);
}

#[test]
fn default_board_string_is_standard() {
    assert_eq!(
        DEFAULT_BOARD,
        "rnbqkbnr/pppppppp/8/8/8/8/PPPPPPPP/RNBQKBNR w KQkq - 0 1"
    );
}
