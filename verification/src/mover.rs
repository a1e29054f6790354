//! Coordinate-notation codec and the move-legality engine.
//!
//! A move is a pair of squares, decoded from a 4-character coordinate
//! string such as `e2e4` (file letter a-h, rank digit 1-8, case-insensitive
//! on the letters). Legality is judged per piece class against a read-only
//! board snapshot: geometry, path blocking, turn ownership, and
//! same-color-capture prevention — no king-safety evaluation of any kind.

use vstd::prelude::*;
use vstd::string::StrSliceExecFns;
use vstd::string::StringExecFns;

use crate::chess::{Board, BoardView, Class, Color, Error, Piece};

verus! {

/// A proposed move: origin and destination squares, 0-based.
#[derive(Debug, Copy, Clone, PartialEq, Eq, Structural)]
pub struct Move {
    pub from_file: usize,
    pub from_rank: usize,
    pub to_file: usize,
    pub to_rank: usize,
}

/// The absolute difference of two coordinates.
pub open spec fn dist(a: int, b: int) -> int {
    if a >= b {
        a - b
    } else {
        b - a
    }
}

/// The code point of `c` with an ASCII uppercase letter folded to lowercase.
pub open spec fn lower_code(c: char) -> int {
    if 65 <= c as int <= 90 {
        c as int + 32
    } else {
        c as int
    }
}

/// The 0-based file index a notation letter stands for ('a' = 0).
pub open spec fn file_index_of(c: char) -> int {
    lower_code(c) - 97
}

/// The 0-based rank index a notation digit stands for ('1' = 0).
pub open spec fn rank_index_of(c: char) -> int {
    c as int - 49
}

/// The four characters can all be read as coordinates (no index is
/// negative); the indices may still lie off the board.
pub open spec fn notation_shape_ok(s: Seq<char>) -> bool {
    &&& s.len() == 4
    &&& file_index_of(s[0]) >= 0
    &&& rank_index_of(s[1]) >= 0
    &&& file_index_of(s[2]) >= 0
    &&& rank_index_of(s[3]) >= 0
}

/// The string is a valid 4-character notation: readable and on the board.
pub open spec fn notation_ok(s: Seq<char>) -> bool {
    &&& notation_shape_ok(s)
    &&& file_index_of(s[0]) <= 7
    &&& rank_index_of(s[1]) <= 7
    &&& file_index_of(s[2]) <= 7
    &&& rank_index_of(s[3]) <= 7
}

/// The move a valid notation denotes.
pub open spec fn decoded_move(s: Seq<char>) -> Move {
    Move {
        from_file: file_index_of(s[0]) as usize,
        from_rank: rank_index_of(s[1]) as usize,
        to_file: file_index_of(s[2]) as usize,
        to_rank: rank_index_of(s[3]) as usize,
    }
}

/// What `decode` returns for each input: the decoded move for a valid
/// notation, `InvalidMove` when a readable coordinate lies off the board,
/// and `InvalidInput` for anything that is not 4 readable characters.
pub open spec fn decode_spec(s: Seq<char>) -> Result<Move, crate::chess::ErrView> {
    if !notation_shape_ok(s) {
        Err(crate::chess::ErrView::InvalidInput)
    } else if !notation_ok(s) {
        Err(crate::chess::ErrView::InvalidMove("Move is out of bounds"@))
    } else {
        Ok(decoded_move(s))
    }
}

/// The notation letter for a file index.
pub open spec fn file_char(f: int) -> char {
    if f == 0 {
        'a'
    } else if f == 1 {
        'b'
    } else if f == 2 {
        'c'
    } else if f == 3 {
        'd'
    } else if f == 4 {
        'e'
    } else if f == 5 {
        'f'
    } else if f == 6 {
        'g'
    } else {
        'h'
    }
}

/// The notation digit for a rank index.
pub open spec fn rank_char(r: int) -> char {
    if r == 0 {
        '1'
    } else if r == 1 {
        '2'
    } else if r == 2 {
        '3'
    } else if r == 3 {
        '4'
    } else if r == 4 {
        '5'
    } else if r == 5 {
        '6'
    } else if r == 6 {
        '7'
    } else {
        '8'
    }
}

/// The 4-character notation a move encodes to.
pub open spec fn encode_spec(m: Move) -> Seq<char> {
    seq![
        file_char(m.from_file as int),
        rank_char(m.from_rank as int),
        file_char(m.to_file as int),
        rank_char(m.to_rank as int),
    ]
}

/// A character with its ASCII uppercase letters folded to lowercase.
pub open spec fn lower_char(c: char) -> char {
    match c {
        'A' => 'a',
        'B' => 'b',
        'C' => 'c',
        'D' => 'd',
        'E' => 'e',
        'F' => 'f',
        'G' => 'g',
        'H' => 'h',
        _ => c,
    }
}

/// Folds an ASCII uppercase letter's code point to lowercase.
fn fold_lower(v: u32) -> (r: u32)
    requires
        v <= 0x10FFFF,
    ensures
        r == (if 65 <= v <= 90 {
            v + 32
        } else {
            v as int
        }),
{
    if 65 <= v && v <= 90 {
        v + 32
    } else {
        v
    }
}

impl Move {
    /// A move between the given squares.
    pub fn new(from_file: usize, from_rank: usize, to_file: usize, to_rank: usize) -> (r: Move)
        ensures
            r == (Move { from_file, from_rank, to_file, to_rank }),
    {
        Move { from_file, from_rank, to_file, to_rank }
    }

    /// Both squares lie on the board.
    pub open spec fn in_bounds(self) -> bool {
        &&& self.from_file < 8
        &&& self.from_rank < 8
        &&& self.to_file < 8
        &&& self.to_rank < 8
    }

    /// Parses a 4-character coordinate string, case-insensitively.
    pub fn decode(s: &str) -> (r: Result<Move, Error>)
        ensures
            match decode_spec(s@) {
                Ok(m) => r matches Ok(d) && d == m,
                Err(e) => r matches Err(err) && err@ == e,
            },
            r matches Ok(m) ==> m.in_bounds(),
    {
        let n = s.unicode_len();
        if n != 4 {
            return Err(Error::InvalidInput);
        }
        let v0 = fold_lower(s.get_char(0) as u32);
        let v1 = s.get_char(1) as u32;
        let v2 = fold_lower(s.get_char(2) as u32);
        let v3 = s.get_char(3) as u32;
        if v0 < 97 || v1 < 49 || v2 < 97 || v3 < 49 {
            return Err(Error::InvalidInput);
        }
        let from_file = (v0 - 97) as usize;
        let from_rank = (v1 - 49) as usize;
        let to_file = (v2 - 97) as usize;
        let to_rank = (v3 - 49) as usize;
        if from_file > 7 || from_rank > 7 || to_file > 7 || to_rank > 7 {
            return Err(Error::InvalidMove("Move is out of bounds".to_owned()));
        }
        Ok(Move { from_file, from_rank, to_file, to_rank })
    }

    /// Writes the move as a 4-character lowercase coordinate string, the
    /// exact inverse of [`Move::decode`] on valid notations.
    pub fn encode(&self) -> (r: String)
        requires
            self.in_bounds(),
        ensures
            r@ == encode_spec(*self),
    {
        let mut out = String::new();
        out.append(file_str(self.from_file));
        out.append(rank_str(self.from_rank));
        out.append(file_str(self.to_file));
        out.append(rank_str(self.to_rank));
        proof {
            assert(out@ =~= encode_spec(*self));
        }
        out
    }

    /// The taxicab length of the move: `|file delta| + |rank delta|`.
    pub fn distance(&self) -> (r: usize)
        requires
            self.in_bounds(),
        ensures
            r == dist(self.from_file as int, self.to_file as int) + dist(
                self.from_rank as int,
                self.to_rank as int,
            ),
    {
        let file_distance = if self.from_file >= self.to_file {
            self.from_file - self.to_file
        } else {
            self.to_file - self.from_file
        };
        let rank_distance = if self.from_rank >= self.to_rank {
            self.from_rank - self.to_rank
        } else {
            self.to_rank - self.from_rank
        };
        file_distance + rank_distance
    }
}

/// The one-character string for a file index.
fn file_str(f: usize) -> (r: &'static str)
    requires
        f < 8,
    ensures
        r@ =~= seq![file_char(f as int)],
{
    proof {
        reveal_strlit("a");
        reveal_strlit("b");
        reveal_strlit("c");
        reveal_strlit("d");
        reveal_strlit("e");
        reveal_strlit("f");
        reveal_strlit("g");
        reveal_strlit("h");
    }
    match f {
        0 => "a",
        1 => "b",
        2 => "c",
        3 => "d",
        4 => "e",
        5 => "f",
        6 => "g",
        _ => "h",
    }
}

/// The one-character string for a rank index.
fn rank_str(r: usize) -> (s: &'static str)
    requires
        r < 8,
    ensures
        s@ =~= seq![rank_char(r as int)],
{
    proof {
        reveal_strlit("1");
        reveal_strlit("2");
        reveal_strlit("3");
        reveal_strlit("4");
        reveal_strlit("5");
        reveal_strlit("6");
        reveal_strlit("7");
        reveal_strlit("8");
    }
    match r {
        0 => "1",
        1 => "2",
        2 => "3",
        3 => "4",
        4 => "5",
        5 => "6",
        6 => "7",
        _ => "8",
    }
}

/// Relates an executable validation result to its specification: success
/// for `Ok`, and an `InvalidMove` carrying exactly the specified reason
/// for `Err`.
pub open spec fn reflects(r: Result<(), Error>, s: Result<(), Seq<char>>) -> bool {
    match s {
        Ok(_) => r is Ok,
        Err(msg) => r matches Err(e) && e matches Error::InvalidMove(t) && t@ == msg,
    }
}

/// No piece stands strictly between ranks `r1` and `r2` on `file`.
pub open spec fn vertical_clear(b: BoardView, file: int, r1: int, r2: int) -> bool {
    forall|r: int|
        (if r1 <= r2 {
            r1 < r < r2
        } else {
            r2 < r < r1
        }) ==> (#[trigger] b.at(file, r)) is None
}

/// No piece stands strictly between files `f1` and `f2` on `rank`.
pub open spec fn horizontal_clear(b: BoardView, rank: int, f1: int, f2: int) -> bool {
    forall|f: int|
        (if f1 <= f2 {
            f1 < f < f2
        } else {
            f2 < f < f1
        }) ==> (#[trigger] b.at(f, rank)) is None
}

/// The coordinate reached after `i` steps from `from` toward `to`
/// (stepping away from `from` when the two are equal, as a walk that never
/// runs must still name its squares).
pub open spec fn diag_step(from: int, to: int, i: int) -> int {
    if to > from {
        from + i
    } else {
        from - i
    }
}

/// No piece stands on the diagonal strictly between origin and destination.
pub open spec fn diagonal_clear(b: BoardView, ff: int, fr: int, tf: int, tr: int) -> bool {
    forall|i: int|
        1 <= i < dist(ff, tf) ==> b.at(diag_step(ff, tf, i), diag_step(fr, tr, i)) is None
}

/// The distance-specific reason for a first pawn move of an illegal length.
pub open spec fn pawn_first_move_msg(d: int) -> Seq<char> {
    if d == 0 {
        "Pawn can only move one or two squares forward on the first move, attempted to move 0 squares"@
    } else if d == 3 {
        "Pawn can only move one or two squares forward on the first move, attempted to move 3 squares"@
    } else if d == 4 {
        "Pawn can only move one or two squares forward on the first move, attempted to move 4 squares"@
    } else if d == 5 {
        "Pawn can only move one or two squares forward on the first move, attempted to move 5 squares"@
    } else if d == 6 {
        "Pawn can only move one or two squares forward on the first move, attempted to move 6 squares"@
    } else if d == 7 {
        "Pawn can only move one or two squares forward on the first move, attempted to move 7 squares"@
    } else {
        Seq::empty()
    }
}

/// Pawn rule: strictly forward; one square, or two on the piece's first
/// move; diagonal exactly when capturing, except onto the en-passant target.
pub open spec fn validate_pawn_spec(m: Move, b: BoardView) -> Result<(), Seq<char>> {
    let ff = m.from_file as int;
    let fr = m.from_rank as int;
    let tf = m.to_file as int;
    let tr = m.to_rank as int;
    let p = b.at(ff, fr)->Some_0;
    if p.color == Color::White && tr < fr {
        Err("Pawn can only move forward"@)
    } else if p.color == Color::Black && tr > fr {
        Err("Pawn can only move forward"@)
    } else if p.moves == 0 && (dist(tr, fr) > 2 || dist(tr, fr) < 1) {
        Err(pawn_first_move_msg(dist(tr, fr)))
    } else if p.moves != 0 && dist(tr, fr) != 1 {
        Err("Pawn can only move one square forward"@)
    } else {
        let enemy_target = b.at(tf, tr) matches Some(t) && t.color != p.color;
        if enemy_target {
            if dist(tf, ff) != 1 {
                Err("Pawn can only capture diagonally"@)
            } else {
                Ok(())
            }
        } else {
            if b.is_ep(tf, tr) {
                Ok(())
            } else if dist(tf, ff) != 0 {
                Err("Pawn can not move diagonally"@)
            } else {
                Ok(())
            }
        }
    }
}

/// Knight rule: the (file, rank) distance pair is (2, 1) or (1, 2).
pub open spec fn validate_knight_spec(m: Move) -> Result<(), Seq<char>> {
    let df = dist(m.from_file as int, m.to_file as int);
    let dr = dist(m.from_rank as int, m.to_rank as int);
    if (df == 2 && dr == 1) || (df == 1 && dr == 2) {
        Ok(())
    } else {
        Err(
            "Knight can only move two squares forward and one square sideways, or two squares sideways and one square forward"@,
        )
    }
}

/// Bishop rule: equal file and rank distance, and a clear diagonal strictly
/// between the endpoints. Destination occupancy is not judged here.
pub open spec fn validate_bishop_spec(m: Move, b: BoardView) -> Result<(), Seq<char>> {
    let ff = m.from_file as int;
    let fr = m.from_rank as int;
    let tf = m.to_file as int;
    let tr = m.to_rank as int;
    if dist(ff, tf) != dist(fr, tr) {
        Err("Bishop can only move diagonally"@)
    } else if !diagonal_clear(b, ff, fr, tf, tr) {
        Err("Bishop can not move through pieces"@)
    } else {
        Ok(())
    }
}

/// Rook rule: a single rank or file, clear strictly between the endpoints.
pub open spec fn validate_rook_spec(m: Move, b: BoardView) -> Result<(), Seq<char>> {
    let ff = m.from_file as int;
    let fr = m.from_rank as int;
    let tf = m.to_file as int;
    let tr = m.to_rank as int;
    if ff != tf && fr != tr {
        Err("Rook can only move horizontally or vertically"@)
    } else if ff == tf && !vertical_clear(b, ff, fr, tr) {
        Err("Rook can not move through pieces"@)
    } else if ff != tf && !horizontal_clear(b, fr, ff, tf) {
        Err("Rook can not move through pieces"@)
    } else {
        Ok(())
    }
}

/// Queen rule: rook-or-bishop geometry, with the straight line judged
/// before the diagonal, and the matching path clear.
pub open spec fn validate_queen_spec(m: Move, b: BoardView) -> Result<(), Seq<char>> {
    let ff = m.from_file as int;
    let fr = m.from_rank as int;
    let tf = m.to_file as int;
    let tr = m.to_rank as int;
    if ff != tf && fr != tr && dist(ff, tf) != dist(fr, tr) {
        Err("Queen can only move horizontally, vertically, or diagonally"@)
    } else if ff == tf && !vertical_clear(b, ff, fr, tr) {
        Err("Queen can not move through pieces"@)
    } else if ff != tf && fr == tr && !horizontal_clear(b, fr, ff, tf) {
        Err("Queen can not move through pieces"@)
    } else if ff != tf && fr != tr && !diagonal_clear(b, ff, fr, tf, tr) {
        Err("Queen can not move through pieces"@)
    } else {
        Ok(())
    }
}

/// One of the four castling patterns matches in full: correct color and
/// origin/destination pair, an unmoved king, the corresponding unmoved
/// rook, and every square strictly between king and rook empty. The
/// declarative castling-rights flags play no part here.
pub open spec fn castle_pattern(m: Move, b: BoardView, p: Piece) -> bool {
    let ff = m.from_file as int;
    let fr = m.from_rank as int;
    let tf = m.to_file as int;
    let tr = m.to_rank as int;
    ||| (p.color == Color::White && p.moves == 0 && ff == 4 && fr == 0 && tf == 6 && tr == 0
        && (b.at(7, 0) matches Some(rk) && rk.class == Class::Rook && rk.color == Color::White
        && rk.moves == 0) && b.at(5, 0) is None && b.at(6, 0) is None)
    ||| (p.color == Color::White && p.moves == 0 && ff == 4 && fr == 0 && tf == 2 && tr == 0
        && (b.at(0, 0) matches Some(rk) && rk.class == Class::Rook && rk.color == Color::White
        && rk.moves == 0) && b.at(1, 0) is None && b.at(2, 0) is None && b.at(3, 0) is None)
    ||| (p.color == Color::Black && p.moves == 0 && ff == 4 && fr == 7 && tf == 6 && tr == 7
        && (b.at(7, 7) matches Some(rk) && rk.class == Class::Rook && rk.color == Color::Black
        && rk.moves == 0) && b.at(5, 7) is None && b.at(6, 7) is None)
    ||| (p.color == Color::Black && p.moves == 0 && ff == 4 && fr == 7 && tf == 2 && tr == 7
        && (b.at(0, 7) matches Some(rk) && rk.class == Class::Rook && rk.color == Color::Black
        && rk.moves == 0) && b.at(1, 7) is None && b.at(2, 7) is None && b.at(3, 7) is None)
}

/// King rule: any full castling pattern succeeds outright; otherwise at
/// most one square in any direction. No check detection exists in this
/// engine, so castling never asks whether the king is, or passes through,
/// an attacked square.
pub open spec fn validate_king_spec(m: Move, b: BoardView) -> Result<(), Seq<char>> {
    let p = b.at(m.from_file as int, m.from_rank as int)->Some_0;
    if castle_pattern(m, b, p) {
        Ok(())
    } else if dist(m.from_file as int, m.to_file as int) > 1 || dist(
        m.from_rank as int,
        m.to_rank as int,
    ) > 1 {
        Err("King can only move one square in any direction"@)
    } else {
        Ok(())
    }
}

/// Full legality judgment, short-circuiting in order: a piece must stand on
/// the origin; it must belong to the side to move; its class rule must
/// accept the move; and the destination must not hold a piece of the
/// mover's own color (judged last, uniformly, castling included).
pub open spec fn validate_spec(m: Move, b: BoardView) -> Result<(), Seq<char>> {
    match b.at(m.from_file as int, m.from_rank as int) {
        None => Err("No piece on square"@),
        Some(p) => if p.color != b.turn {
            Err("Not your piece"@)
        } else {
            let cr = match p.class {
                Class::Pawn => validate_pawn_spec(m, b),
                Class::Knight => validate_knight_spec(m),
                Class::Bishop => validate_bishop_spec(m, b),
                Class::Rook => validate_rook_spec(m, b),
                Class::Queen => validate_queen_spec(m, b),
                Class::King => validate_king_spec(m, b),
            };
            if cr is Err {
                cr
            } else if b.at(m.to_file as int, m.to_rank as int) matches Some(t) && t.color
                == b.turn {
                Err("Can't capture your own piece"@)
            } else {
                Ok(())
            }
        },
    }
}

/// Walks the squares strictly between two ranks of one file and reports
/// whether they are all empty.
fn clear_vertical(board: &Board, file: usize, fr: usize, tr: usize) -> (r: bool)
    requires
        board.wf(),
        file < 8,
        fr < 8,
        tr < 8,
    ensures
        r == vertical_clear(board@, file as int, fr as int, tr as int),
{
    let (lo, hi) = if fr <= tr {
        (fr, tr)
    } else {
        (tr, fr)
    };
    let mut rank = lo + 1;
    while rank < hi
        invariant
            board.wf(),
            file < 8,
            hi < 8,
            lo < rank,
            lo == if fr <= tr { fr } else { tr },
            hi == if fr <= tr { tr } else { fr },
            forall|k: int| lo < k < rank ==> board@.at(file as int, k) is None,
        decreases hi - rank,
    {
        if board.get_piece(file, rank).is_some() {
            proof {
                assert(board@.at(file as int, rank as int) is Some);
                assert(lo < rank < hi);
                assert(!vertical_clear(board@, file as int, fr as int, tr as int));
            }
            return false;
        }
        rank += 1;
    }
    true
}

/// Walks the squares strictly between two files of one rank and reports
/// whether they are all empty.
fn clear_horizontal(board: &Board, rank: usize, ff: usize, tf: usize) -> (r: bool)
    requires
        board.wf(),
        rank < 8,
        ff < 8,
        tf < 8,
    ensures
        r == horizontal_clear(board@, rank as int, ff as int, tf as int),
{
    let (lo, hi) = if ff <= tf {
        (ff, tf)
    } else {
        (tf, ff)
    };
    let mut file = lo + 1;
    while file < hi
        invariant
            board.wf(),
            rank < 8,
            hi < 8,
            lo < file,
            lo == if ff <= tf { ff } else { tf },
            hi == if ff <= tf { tf } else { ff },
            forall|k: int| lo < k < file ==> board@.at(k, rank as int) is None,
        decreases hi - file,
    {
        if board.get_piece(file, rank).is_some() {
            proof {
                assert(board@.at(file as int, rank as int) is Some);
                assert(lo < file < hi);
                assert(!horizontal_clear(board@, rank as int, ff as int, tf as int));
            }
            return false;
        }
        file += 1;
    }
    true
}

/// Walks the squares strictly between the endpoints of a diagonal and
/// reports whether they are all empty.
fn clear_diagonal(board: &Board, ff: usize, fr: usize, tf: usize, tr: usize) -> (r: bool)
    requires
        board.wf(),
        ff < 8,
        fr < 8,
        tf < 8,
        tr < 8,
        dist(ff as int, tf as int) == dist(fr as int, tr as int),
    ensures
        r == diagonal_clear(board@, ff as int, fr as int, tf as int, tr as int),
{
    let d = if tf > ff {
        tf - ff
    } else {
        ff - tf
    };
    let mut i: usize = 1;
    while i < d
        invariant
            board.wf(),
            ff < 8,
            fr < 8,
            tf < 8,
            tr < 8,
            d == dist(ff as int, tf as int),
            d == dist(fr as int, tr as int),
            1 <= i,
            forall|j: int|
                1 <= j < i ==> board@.at(
                    diag_step(ff as int, tf as int, j),
                    diag_step(fr as int, tr as int, j),
                ) is None,
        decreases d - i,
    {
        let f = if tf > ff {
            ff + i
        } else {
            ff - i
        };
        let r = if tr > fr {
            fr + i
        } else {
            fr - i
        };
        if board.get_piece(f, r).is_some() {
            assert(board@.at(
                diag_step(ff as int, tf as int, i as int),
                diag_step(fr as int, tr as int, i as int),
            ) is Some);
            return false;
        }
        i += 1;
    }
    true
}

impl Move {
    /// Judges this move as a pawn move of the piece on the origin square.
    fn validate_pawn(&self, board: &Board) -> (r: Result<(), Error>)
        requires
            board.wf(),
            self.in_bounds(),
            board@.at(self.from_file as int, self.from_rank as int) is Some,
        ensures
            reflects(r, validate_pawn_spec(*self, board@)),
    {
        let piece = board.get_piece(self.from_file, self.from_rank).unwrap();

        if matches!(piece.color, Color::White) && self.to_rank < self.from_rank {
            return Err(Error::InvalidMove("Pawn can only move forward".to_owned()));
        }
        if matches!(piece.color, Color::Black) && self.to_rank > self.from_rank {
            return Err(Error::InvalidMove("Pawn can only move forward".to_owned()));
        }

        let rank_distance = if self.to_rank >= self.from_rank {
            self.to_rank - self.from_rank
        } else {
            self.from_rank - self.to_rank
        };
        let file_distance = if self.to_file >= self.from_file {
            self.to_file - self.from_file
        } else {
            self.from_file - self.to_file
        };

        if piece.moves == 0 {
            if rank_distance > 2 || rank_distance < 1 {
                return Err(Error::InvalidMove(pawn_first_move_msg_str(rank_distance)));
            }
        } else {
            if rank_distance != 1 {
                return Err(Error::InvalidMove("Pawn can only move one square forward".to_owned()));
            }
        }

        let enemy_target = match board.get_piece(self.to_file, self.to_rank) {
            Some(t) => !(t.color == piece.color),
            None => false,
        };

        if enemy_target {
            if file_distance != 1 {
                return Err(Error::InvalidMove("Pawn can only capture diagonally".to_owned()));
            }
        } else {
            if board.is_en_passant(self.to_file, self.to_rank) {
                return Ok(());
            }
            if file_distance != 0 {
                return Err(Error::InvalidMove("Pawn can not move diagonally".to_owned()));
            }
        }

        Ok(())
    }

    /// Judges this move as a knight move; the board plays no part.
    pub fn validate_knight(&self, _board: &Board) -> (r: Result<(), Error>)
        requires
            self.in_bounds(),
        ensures
            reflects(r, validate_knight_spec(*self)),
    {
        let file_distance = if self.to_file >= self.from_file {
            self.to_file - self.from_file
        } else {
            self.from_file - self.to_file
        };
        let rank_distance = if self.to_rank >= self.from_rank {
            self.to_rank - self.from_rank
        } else {
            self.from_rank - self.to_rank
        };

        if file_distance == 2 && rank_distance == 1 {
            return Ok(());
        }
        if file_distance == 1 && rank_distance == 2 {
            return Ok(());
        }

        Err(
            Error::InvalidMove(
                "Knight can only move two squares forward and one square sideways, or two squares sideways and one square forward".to_owned(),
            ),
        )
    }

    /// Judges this move as a bishop move: a diagonal with no piece strictly
    /// between the endpoints.
    pub fn validate_bishop(&self, board: &Board) -> (r: Result<(), Error>)
        requires
            board.wf(),
            self.in_bounds(),
        ensures
            reflects(r, validate_bishop_spec(*self, board@)),
    {
        let file_distance = if self.to_file >= self.from_file {
            self.to_file - self.from_file
        } else {
            self.from_file - self.to_file
        };
        let rank_distance = if self.to_rank >= self.from_rank {
            self.to_rank - self.from_rank
        } else {
            self.from_rank - self.to_rank
        };

        if file_distance != rank_distance {
            return Err(Error::InvalidMove("Bishop can only move diagonally".to_owned()));
        }

        if !clear_diagonal(board, self.from_file, self.from_rank, self.to_file, self.to_rank) {
            return Err(Error::InvalidMove("Bishop can not move through pieces".to_owned()));
        }

        Ok(())
    }

    /// Judges this move as a rook move: a single rank or file with no piece
    /// strictly between the endpoints.
    pub fn validate_rook(&self, board: &Board) -> (r: Result<(), Error>)
        requires
            board.wf(),
            self.in_bounds(),
        ensures
            reflects(r, validate_rook_spec(*self, board@)),
    {
        if self.from_file != self.to_file && self.from_rank != self.to_rank {
            return Err(
                Error::InvalidMove("Rook can only move horizontally or vertically".to_owned()),
            );
        }

        if self.from_file == self.to_file {
            if !clear_vertical(board, self.from_file, self.from_rank, self.to_rank) {
                return Err(Error::InvalidMove("Rook can not move through pieces".to_owned()));
            }
        } else {
            if !clear_horizontal(board, self.from_rank, self.from_file, self.to_file) {
                return Err(Error::InvalidMove("Rook can not move through pieces".to_owned()));
            }
        }

        Ok(())
    }

    /// Judges this move as a queen move: straight-line geometry is checked
    /// before the diagonal, and the matching path must be clear.
    pub fn validate_queen(&self, board: &Board) -> (r: Result<(), Error>)
        requires
            board.wf(),
            self.in_bounds(),
        ensures
            reflects(r, validate_queen_spec(*self, board@)),
    {
        let file_distance = if self.to_file >= self.from_file {
            self.to_file - self.from_file
        } else {
            self.from_file - self.to_file
        };
        let rank_distance = if self.to_rank >= self.from_rank {
            self.to_rank - self.from_rank
        } else {
            self.from_rank - self.to_rank
        };

        if self.from_file != self.to_file && self.from_rank != self.to_rank && file_distance
            != rank_distance {
            return Err(
                Error::InvalidMove(
                    "Queen can only move horizontally, vertically, or diagonally".to_owned(),
                ),
            );
        }

        if self.from_file == self.to_file {
            if !clear_vertical(board, self.from_file, self.from_rank, self.to_rank) {
                return Err(Error::InvalidMove("Queen can not move through pieces".to_owned()));
            }
        } else if self.from_rank == self.to_rank {
            if !clear_horizontal(board, self.from_rank, self.from_file, self.to_file) {
                return Err(Error::InvalidMove("Queen can not move through pieces".to_owned()));
            }
        } else {
            if !clear_diagonal(board, self.from_file, self.from_rank, self.to_file, self.to_rank) {
                return Err(Error::InvalidMove("Queen can not move through pieces".to_owned()));
            }
        }

        Ok(())
    }

    /// Judges this move as a king move: the four castling patterns are
    /// tried first, each short-circuiting to success when it matches in
    /// full; otherwise the move may span at most one square per axis.
    pub fn validate_king(&self, board: &Board) -> (r: Result<(), Error>)
        requires
            board.wf(),
            self.in_bounds(),
            board@.at(self.from_file as int, self.from_rank as int) is Some,
        ensures
            reflects(r, validate_king_spec(*self, board@)),
    {
        let piece = board.get_piece(self.from_file, self.from_rank).unwrap();

        // White kingside castle.
        if matches!(piece.color, Color::White) && piece.moves == 0 && self.from_file == 4
            && self.from_rank == 0 && self.to_file == 6 && self.to_rank == 0 {
            if let Some(rook) = board.get_piece(7, 0) {
                if matches!(rook.class, Class::Rook) && matches!(rook.color, Color::White)
                    && rook.moves == 0 {
                    if board.get_piece(5, 0).is_none() && board.get_piece(6, 0).is_none() {
                        return Ok(());
                    }
                }
            }
        }

        // White queenside castle.
        if matches!(piece.color, Color::White) && piece.moves == 0 && self.from_file == 4
            && self.from_rank == 0 && self.to_file == 2 && self.to_rank == 0 {
            if let Some(rook) = board.get_piece(0, 0) {
                if matches!(rook.class, Class::Rook) && matches!(rook.color, Color::White)
                    && rook.moves == 0 {
                    if board.get_piece(1, 0).is_none() && board.get_piece(2, 0).is_none()
                        && board.get_piece(3, 0).is_none() {
                        return Ok(());
                    }
                }
            }
        }

        // Black kingside castle.
        if matches!(piece.color, Color::Black) && piece.moves == 0 && self.from_file == 4
            && self.from_rank == 7 && self.to_file == 6 && self.to_rank == 7 {
            if let Some(rook) = board.get_piece(7, 7) {
                if matches!(rook.class, Class::Rook) && matches!(rook.color, Color::Black)
                    && rook.moves == 0 {
                    if board.get_piece(5, 7).is_none() && board.get_piece(6, 7).is_none() {
                        return Ok(());
                    }
                }
            }
        }

        // Black queenside castle.
        if matches!(piece.color, Color::Black) && piece.moves == 0 && self.from_file == 4
            && self.from_rank == 7 && self.to_file == 2 && self.to_rank == 7 {
            if let Some(rook) = board.get_piece(0, 7) {
                if matches!(rook.class, Class::Rook) && matches!(rook.color, Color::Black)
                    && rook.moves == 0 {
                    if board.get_piece(1, 7).is_none() && board.get_piece(2, 7).is_none()
                        && board.get_piece(3, 7).is_none() {
                        return Ok(());
                    }
                }
            }
        }

        let file_distance = if self.to_file >= self.from_file {
            self.to_file - self.from_file
        } else {
            self.from_file - self.to_file
        };
        let rank_distance = if self.to_rank >= self.from_rank {
            self.to_rank - self.from_rank
        } else {
            self.from_rank - self.to_rank
        };

        if file_distance > 1 || rank_distance > 1 {
            return Err(
                Error::InvalidMove("King can only move one square in any direction".to_owned()),
            );
        }

        Ok(())
    }

    /// Judges this move against the board, short-circuiting on the first
    /// failure: occupancy of the origin, turn ownership, the class rule,
    /// and finally same-color-capture prevention. Takes the board read-only,
    /// so a failed (or successful) validation cannot change any state.
    pub fn validate(&self, board: &Board) -> (r: Result<(), Error>)
        requires
            board.wf(),
            self.in_bounds(),
        ensures
            reflects(r, validate_spec(*self, board@)),
    {
        let piece = match board.get_piece(self.from_file, self.from_rank) {
            Some(p) => p,
            None => {
                return Err(Error::InvalidMove("No piece on square".to_owned()));
            },
        };

        if !(piece.color == board.turn()) {
            return Err(Error::InvalidMove("Not your piece".to_owned()));
        }

        let class_result = match piece.class {
            Class::Pawn => self.validate_pawn(board),
            Class::Knight => self.validate_knight(board),
            Class::Bishop => self.validate_bishop(board),
            Class::Rook => self.validate_rook(board),
            Class::Queen => self.validate_queen(board),
            Class::King => self.validate_king(board),
        };
        match class_result {
            Ok(()) => (),
            Err(e) => {
                return Err(e);
            },
        }

        if let Some(t) = board.get_piece(self.to_file, self.to_rank) {
            if t.color == board.turn() {
                return Err(Error::InvalidMove("Can't capture your own piece".to_owned()));
            }
        }

        Ok(())
    }
}

/// The distance-specific first-move reason, as a runtime string.
fn pawn_first_move_msg_str(d: usize) -> (r: String)
    requires
        d <= 7,
        d == 0 || d >= 3,
    ensures
        r@ == pawn_first_move_msg(d as int),
{
    let s: &str = match d {
        0 => "Pawn can only move one or two squares forward on the first move, attempted to move 0 squares",
        3 => "Pawn can only move one or two squares forward on the first move, attempted to move 3 squares",
        4 => "Pawn can only move one or two squares forward on the first move, attempted to move 4 squares",
        5 => "Pawn can only move one or two squares forward on the first move, attempted to move 5 squares",
        6 => "Pawn can only move one or two squares forward on the first move, attempted to move 6 squares",
        _ => "Pawn can only move one or two squares forward on the first move, attempted to move 7 squares",
    };
    s.to_owned()
}

/// Law: a move from an empty square is rejected for exactly that reason,
/// whatever else the move looks like.
pub proof fn lemma_empty_origin_rejected(m: Move, b: BoardView)
    requires
        b.at(m.from_file as int, m.from_rank as int) is None,
    ensures
        validate_spec(m, b) == Err::<(), Seq<char>>("No piece on square"@),
{
}

/// Law: a move of a piece that does not belong to the side to move is
/// rejected for exactly that reason, whatever the piece or the squares.
pub proof fn lemma_wrong_color_rejected(m: Move, b: BoardView)
    requires
        b.at(m.from_file as int, m.from_rank as int) matches Some(p) && p.color != b.turn,
    ensures
        validate_spec(m, b) == Err::<(), Seq<char>>("Not your piece"@),
{
}

/// Law: a rook move along a rank or file whose path holds any piece,
/// of either color, fails with the rook's path-blocked reason.
pub proof fn lemma_blocked_rook_rejected(m: Move, b: BoardView)
    requires
        (m.from_file == m.to_file && !vertical_clear(
            b,
            m.from_file as int,
            m.from_rank as int,
            m.to_rank as int,
        )) || (m.from_file != m.to_file && m.from_rank == m.to_rank && !horizontal_clear(
            b,
            m.from_rank as int,
            m.from_file as int,
            m.to_file as int,
        )),
    ensures
        validate_rook_spec(m, b) == Err::<(), Seq<char>>("Rook can not move through pieces"@),
{
}

/// Law: a bishop move of equal file and rank distance whose diagonal holds
/// any piece, of either color, fails with the bishop's path-blocked reason.
pub proof fn lemma_blocked_bishop_rejected(m: Move, b: BoardView)
    requires
        dist(m.from_file as int, m.to_file as int) == dist(m.from_rank as int, m.to_rank as int),
        !diagonal_clear(b, m.from_file as int, m.from_rank as int, m.to_file as int, m.to_rank as int),
    ensures
        validate_bishop_spec(m, b) == Err::<(), Seq<char>>("Bishop can not move through pieces"@),
{
}

/// Law: a queen move of rook or bishop geometry whose matching path holds
/// any piece, of either color, fails with the queen's path-blocked reason.
pub proof fn lemma_blocked_queen_rejected(m: Move, b: BoardView)
    requires
        (m.from_file == m.to_file && !vertical_clear(
            b,
            m.from_file as int,
            m.from_rank as int,
            m.to_rank as int,
        )) || (m.from_file != m.to_file && m.from_rank == m.to_rank && !horizontal_clear(
            b,
            m.from_rank as int,
            m.from_file as int,
            m.to_file as int,
        )) || (m.from_file != m.to_file && m.from_rank != m.to_rank && dist(
            m.from_file as int,
            m.to_file as int,
        ) == dist(m.from_rank as int, m.to_rank as int) && !diagonal_clear(
            b,
            m.from_file as int,
            m.from_rank as int,
            m.to_file as int,
            m.to_rank as int,
        )),
    ensures
        validate_queen_spec(m, b) == Err::<(), Seq<char>>("Queen can not move through pieces"@),
{
}

/// Law: decoding a valid 4-character notation and encoding the result gives
/// back the lowercase-normalized notation.
pub proof fn lemma_decode_encode_identity(s: Seq<char>)
    requires
        notation_ok(s),
    ensures
        encode_spec(decoded_move(s)) == s.map_values(|c: char| lower_char(c)),
{
    let t = s.map_values(|c: char| lower_char(c));
    assert(file_char(file_index_of(s[0])) == lower_char(s[0]));
    assert(rank_char(rank_index_of(s[1])) == lower_char(s[1]));
    assert(file_char(file_index_of(s[2])) == lower_char(s[2]));
    assert(rank_char(rank_index_of(s[3])) == lower_char(s[3]));
    assert(encode_spec(decoded_move(s)) =~= t);
}

} // verus!
