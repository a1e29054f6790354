//! Coordinate-notation codec behavior.

use chess::chess::Error;
use chess::mover::Move;

#[test]
fn decode_simple_move() {
    let m = Move::decode("e2e4").unwrap();
    assert_eq!(m.from_file, 4);
    assert_eq!(m.from_rank, 1);
    assert_eq!(m.to_file, 4);
    assert_eq!(m.to_rank, 3);
}

#[test]
fn decode_is_case_insensitive() {
    let lower = Move::decode("e2e4").unwrap();
    let upper = Move::decode("E2E4").unwrap();
    assert_eq!(lower, upper);
}

#[test]
fn decode_corners() {
    let m = Move::decode("a1h8").unwrap();
    assert_eq!(m.from_file, 0);
    assert_eq!(m.from_rank, 0);
    assert_eq!(m.to_file, 7);
    assert_eq!(m.to_rank, 7);
}

#[test]
fn decode_rejects_wrong_length() {
    assert!(matches!(Move::decode(""), Err(Error::InvalidInput)));
    assert!(matches!(Move::decode("e2e"), Err(Error::InvalidInput)));
    assert!(matches!(Move::decode("e2e44"), Err(Error::InvalidInput)));
}

#[test]
fn decode_rejects_unreadable_characters() {
    assert!(matches!(Move::decode("e2 4"), Err(Error::InvalidInput)));
    assert!(matches!(Move::decode("!2e4"), Err(Error::InvalidInput)));
}

#[test]
fn decode_rejects_off_board_squares() {
    match Move::decode("i2e4") {
        Err(Error::InvalidMove(m)) => assert_eq!(m, "Move is out of bounds"),
        other => panic!("expected out-of-bounds error, got {:?}", other),
    }
    match Move::decode("e9e4") {
        Err(Error::InvalidMove(m)) => assert_eq!(m, "Move is out of bounds"),
        other => panic!("expected out-of-bounds error, got {:?}", other),
    }
}

#[test]
fn encode_is_inverse_of_decode() {
    for s in ["e2e4", "a1h8", "h7h5", "b8c6", "d4d5"] {
        let m = Move::decode(s).unwrap();
        assert_eq!(m.encode(), s);
    }
}

#[test]
fn encode_normalizes_case() {
    let m = Move::decode("E2E4").unwrap();
    assert_eq!(m.encode(), "e2e4");
}

#[test]
fn move_new_and_encode() {
    let m = Move::new(0, 0, 7, 7);
    assert_eq!(m.encode(), "a1h8");
}

#[test]
fn distance_is_taxicab() {
    let m = Move::decode("e2e4").unwrap();
    assert_eq!(m.distance(), 2);
    let m = Move::decode("e4d5").unwrap();
    assert_eq!(m.distance(), 2);
    let m = Move::decode("a1h8").unwrap();
    assert_eq!(m.distance(), 14);
}
