//! Core board state: piece and error types, the 8x8 grid, and the
//! mutation protocol that applies an already-validated move.
//!
//! The board is modelled by [`BoardView`], a ghost record of the grid (a
//! sequence of 64 optional pieces, indexed by `file * 8 + rank`), the side
//! to move, the four declarative castling-rights flags, the en-passant
//! target, the two clocks, and the move history. Every executable method
//! states its effect against that model.

use vstd::prelude::*;
use vstd::string::StrSliceExecFns;

use crate::mover::Move;

verus! {

/// The standard starting-position string.
pub const DEFAULT_BOARD: &'static str ="rnbqkbnr/pppppppp/8/8/8/8/PPPPPPPP/RNBQKBNR w KQkq - 0 1";

/// An error surfaced to the caller. Every variant is recoverable: a failed
/// move or parse leaves the board as the contract of the failing method
/// states.
#[derive(Debug, PartialEq, Eq)]
pub enum Error {
    /// The input string does not even have the shape of a command or move.
    InvalidInput,
    /// A starting-position string failed to parse; the detail names the field.
    InvalidFen(String),
    /// A move failed legality validation; the reason is human-readable.
    InvalidMove(String),
    /// Persistence failed; the detail is the low-level cause.
    SaveFailed(String),
}

/// Ghost mirror of [`Error`], with string payloads as character sequences.
pub ghost enum ErrView {
    InvalidInput,
    InvalidFen(Seq<char>),
    InvalidMove(Seq<char>),
    SaveFailed(Seq<char>),
}

impl View for Error {
    type V = ErrView;

    open spec fn view(&self) -> ErrView {
        match self {
            Error::InvalidInput => ErrView::InvalidInput,
            Error::InvalidFen(d) => ErrView::InvalidFen(d@),
            Error::InvalidMove(d) => ErrView::InvalidMove(d@),
            Error::SaveFailed(d) => ErrView::SaveFailed(d@),
        }
    }
}

/// The kind of a chess piece.
#[derive(Debug, Copy, Clone, PartialEq, Eq, Structural)]
pub enum Class {
    Pawn,
    Knight,
    Bishop,
    Rook,
    Queen,
    King,
}

/// The side a piece belongs to.
#[derive(Debug, Copy, Clone, PartialEq, Eq, Structural)]
pub enum Color {
    White,
    Black,
}

/// A piece on the board: its class, its color, and how many times it has
/// been relocated since it was placed. Pieces are plain values; identity is
/// positional (the piece *at* a square).
#[derive(Debug, Copy, Clone, PartialEq, Eq, Structural)]
pub struct Piece {
    pub class: Class,
    pub color: Color,
    pub moves: usize,
}

/// The placement letter for a piece of the given class and color:
/// uppercase for White, lowercase for Black.
pub open spec fn piece_letter(class: Class, color: Color) -> char {
    match class {
        Class::Pawn => if color == Color::White { 'P' } else { 'p' },
        Class::Knight => if color == Color::White { 'N' } else { 'n' },
        Class::Bishop => if color == Color::White { 'B' } else { 'b' },
        Class::Rook => if color == Color::White { 'R' } else { 'r' },
        Class::Queen => if color == Color::White { 'Q' } else { 'q' },
        Class::King => if color == Color::White { 'K' } else { 'k' },
    }
}

impl Piece {
    /// A freshly placed piece, with a zero relocation count.
    pub fn new(class: Class, color: Color) -> (r: Piece)
        ensures
            r == (Piece { class, color, moves: 0 }),
    {
        Piece { class, color, moves: 0 }
    }

    /// The one-letter placement encoding of this piece.
    pub fn to_fen(&self) -> (r: String)
        ensures
            r@ =~= seq![piece_letter(self.class, self.color)],
    {
        proof {
            reveal_strlit("P");
            reveal_strlit("p");
            reveal_strlit("N");
            reveal_strlit("n");
            reveal_strlit("B");
            reveal_strlit("b");
            reveal_strlit("R");
            reveal_strlit("r");
            reveal_strlit("Q");
            reveal_strlit("q");
            reveal_strlit("K");
            reveal_strlit("k");
        }
        let s: &str = match (self.class, self.color) {
            (Class::Pawn, Color::White) => "P",
            (Class::Pawn, Color::Black) => "p",
            (Class::Knight, Color::White) => "N",
            (Class::Knight, Color::Black) => "n",
            (Class::Bishop, Color::White) => "B",
            (Class::Bishop, Color::Black) => "b",
            (Class::Rook, Color::White) => "R",
            (Class::Rook, Color::Black) => "r",
            (Class::Queen, Color::White) => "Q",
            (Class::Queen, Color::Black) => "q",
            (Class::King, Color::White) => "K",
            (Class::King, Color::Black) => "k",
        };
        s.to_owned()
    }
}

/// Ghost model of the whole board state.
#[verifier::ext_equal]
pub ghost struct BoardView {
    /// The 64 squares, indexed by `file * 8 + rank`.
    pub squares: Seq<Option<Piece>>,
    /// Whose turn it is.
    pub turn: Color,
    /// Pieces captured so far, in capture order (bookkeeping only).
    pub captured: Seq<Piece>,
    /// The accepted move notations, in acceptance order.
    pub moves: Seq<Seq<char>>,
    /// Declarative castling rights, set at construction and never updated
    /// by play; the live castling check goes by move counts instead.
    pub white_kingside: bool,
    pub white_queenside: bool,
    pub black_kingside: bool,
    pub black_queenside: bool,
    /// The square a two-square-advancing pawn skipped over, if the previous
    /// move was such an advance.
    pub en_passant: Option<(int, int)>,
    /// Plies since the last capture or pawn move (tracked, never enforced).
    pub halfmove_clock: int,
    /// Incremented after each Black move.
    pub fullmove_number: int,
}

impl BoardView {
    /// The grid has 64 squares and any en-passant target lies on the board,
    /// on a rank a skipped square can have.
    pub open spec fn wf(self) -> bool {
        &&& self.squares.len() == 64
        &&& match self.en_passant {
            Some(t) => 0 <= t.0 < 8 && 1 <= t.1 <= 6,
            None => true,
        }
    }

    /// The piece at the given square.
    pub open spec fn at(self, file: int, rank: int) -> Option<Piece> {
        self.squares[file * 8 + rank]
    }

    /// Whether the given square is the current en-passant target.
    pub open spec fn is_ep(self, file: int, rank: int) -> bool {
        self.en_passant == Some((file, rank))
    }

    /// The state of a fresh board: empty grid, White to move, all castling
    /// rights set, no en-passant target, clocks at their start values.
    pub open spec fn empty() -> BoardView {
        BoardView {
            squares: Seq::new(64, |i: int| None),
            turn: Color::White,
            captured: Seq::empty(),
            moves: Seq::empty(),
            white_kingside: true,
            white_queenside: true,
            black_kingside: true,
            black_queenside: true,
            en_passant: None,
            halfmove_clock: 0,
            fullmove_number: 1,
        }
    }
}

/// An en-passant target as the model records it.
pub open spec fn ep_view(e: Option<(usize, usize)>) -> Option<(int, int)> {
    match e {
        Some(t) => Some((t.0 as int, t.1 as int)),
        None => None,
    }
}

/// The side that moves after `c`.
pub open spec fn flip(c: Color) -> Color {
    if c == Color::White {
        Color::Black
    } else {
        Color::White
    }
}

/// Every piece on the board has a relocation count the machine can still
/// increment.
pub open spec fn counts_bounded(b: BoardView) -> bool {
    forall|f: int, r: int|
        0 <= f < 8 && 0 <= r < 8 && (#[trigger] b.at(f, r)) is Some ==> b.at(
            f,
            r,
        )->Some_0.moves < usize::MAX
}

/// The successor state an accepted move produces, mirroring the mutation
/// order of [`Board::move_piece`]: the halfmove clock first rises by one
/// and then resets to zero on any of its triggers (an en-passant hit, a
/// direct capture, a pawn move); an en-passant hit removes whatever stands
/// one rank behind the target (White mover) or ahead of it (Black mover),
/// if anything does; a direct capture records the occupant; a pawn
/// two-square advance records the skipped square as the new en-passant
/// target while every other move clears it; a king arriving on the g- or
/// c-file drags the corner occupant of that rank to the rook's castling
/// square; finally the mover lands with its count incremented, its origin
/// clears, the notation enters the history, and the turn flips (raising
/// the fullmove number after a Black move).
pub open spec fn apply_move_spec(b: BoardView, m: Move, note: Seq<char>) -> BoardView {
    let ff = m.from_file as int;
    let fr = m.from_rank as int;
    let tf = m.to_file as int;
    let tr = m.to_rank as int;
    let piece = b.at(ff, fr)->Some_0;
    let hm1 = b.halfmove_clock + 1;
    // En-passant hit.
    let cap_rank = if piece.color == Color::White {
        tr - 1
    } else {
        tr + 1
    };
    let ep_fires = b.is_ep(tf, tr) && b.at(tf, cap_rank) is Some;
    let squares1 = if ep_fires {
        b.squares.update(tf * 8 + cap_rank, None)
    } else {
        b.squares
    };
    let captured1 = if ep_fires {
        b.captured.push(b.at(tf, cap_rank)->Some_0)
    } else {
        b.captured
    };
    let hm2 = if ep_fires {
        0
    } else {
        hm1
    };
    // Direct capture.
    let target = squares1[tf * 8 + tr];
    let captured2 = if target is Some {
        captured1.push(target->Some_0)
    } else {
        captured1
    };
    let hm3 = if target is Some {
        0
    } else {
        hm2
    };
    // Pawn bookkeeping.
    let hm4 = if piece.class == Class::Pawn {
        0
    } else {
        hm3
    };
    let ep2 = if piece.class == Class::Pawn && crate::mover::dist(fr, tr) == 2 {
        Some(
            (
                tf,
                if piece.color == Color::White {
                    tr - 1
                } else {
                    tr + 1
                },
            ),
        )
    } else {
        None
    };
    // Castling rook relocation.
    let squares2 = if piece.class == Class::King && tf == 6 && squares1[7 * 8 + tr] is Some {
        squares1.update(5 * 8 + tr, squares1[7 * 8 + tr]).update(7 * 8 + tr, None)
    } else if piece.class == Class::King && tf == 2 && squares1[0 * 8 + tr] is Some {
        squares1.update(3 * 8 + tr, squares1[0 * 8 + tr]).update(0 * 8 + tr, None)
    } else {
        squares1
    };
    // The mover lands.
    let moved = Piece { class: piece.class, color: piece.color, moves: (piece.moves + 1) as usize };
    let squares3 = squares2.update(tf * 8 + tr, Some(moved)).update(ff * 8 + fr, None);
    BoardView {
        squares: squares3,
        turn: flip(b.turn),
        captured: captured2,
        moves: b.moves.push(note),
        en_passant: ep2,
        halfmove_clock: hm4,
        fullmove_number: if b.turn == Color::Black {
            b.fullmove_number + 1
        } else {
            b.fullmove_number
        },
        ..b
    }
}

/// What `move_piece` does for each input: the decode error, the validation
/// error (with the board untouched), or the applied successor state.
pub open spec fn move_piece_spec(b: BoardView, s: Seq<char>) -> Result<BoardView, ErrView> {
    match crate::mover::decode_spec(s) {
        Err(e) => Err(e),
        Ok(m) => match crate::mover::validate_spec(m, b) {
            Err(msg) => Err(ErrView::InvalidMove(msg)),
            Ok(_) => Ok(apply_move_spec(b, m, s)),
        },
    }
}

/// Every counter of the state is at most `k` (the clocks allowing their
/// start values): the shape preserved by one applied move per unit of `k`.
pub open spec fn bounded_by(b: BoardView, k: int) -> bool {
    &&& b.halfmove_clock <= k
    &&& b.fullmove_number <= k + 1
    &&& forall|f: int, r: int|
        0 <= f < 8 && 0 <= r < 8 && (#[trigger] b.at(f, r)) is Some ==> b.at(
            f,
            r,
        )->Some_0.moves <= k
}

/// Applying one move raises no counter by more than one.
pub proof fn lemma_apply_bounded(b: BoardView, m: Move, note: Seq<char>, k: int)
    requires
        b.wf(),
        m.in_bounds(),
        b.at(m.from_file as int, m.from_rank as int) is Some,
        bounded_by(b, k),
        k >= 0,
    ensures
        bounded_by(apply_move_spec(b, m, note), k + 1),
{
    let nb = apply_move_spec(b, m, note);
    let ff = m.from_file as int;
    let fr = m.from_rank as int;
    let tf = m.to_file as int;
    let tr = m.to_rank as int;
    assert forall|f: int, r: int|
        0 <= f < 8 && 0 <= r < 8 && (#[trigger] nb.at(f, r)) is Some implies nb.at(
        f,
        r,
    )->Some_0.moves <= k + 1 by {
        assert(b.at(f, r) is Some ==> b.at(f, r)->Some_0.moves <= k);
        assert(b.at(ff, fr)->Some_0.moves <= k);
        assert(b.at(7, tr) is Some ==> b.at(7, tr)->Some_0.moves <= k);
        assert(b.at(0, tr) is Some ==> b.at(0, tr)->Some_0.moves <= k);
        let cap_rank = if b.at(ff, fr)->Some_0.color == Color::White {
            tr - 1
        } else {
            tr + 1
        };
        assert(0 <= cap_rank < 8 ==> (b.at(tf, cap_rank) is Some ==> b.at(
            tf,
            cap_rank,
        )->Some_0.moves <= k));
    }
}

/// The replay of a sequence of tokens against a board: empty tokens are
/// skipped, each other token is decoded, validated, and applied in order,
/// and the first failure stops the replay where it stands, yielding the
/// state the successful prefix produced along with the error.
pub open spec fn replay_tokens(b: BoardView, toks: Seq<Seq<char>>) -> (BoardView, Option<ErrView>)
    decreases toks.len(),
{
    if toks.len() == 0 {
        (b, None)
    } else if toks[0].len() == 0 {
        replay_tokens(b, toks.drop_first())
    } else {
        match move_piece_spec(b, toks[0]) {
            Ok(v) => replay_tokens(v, toks.drop_first()),
            Err(e) => (b, Some(e)),
        }
    }
}

/// The persisted form of a move history: each notation in acceptance
/// order, each followed by a single space.
pub open spec fn joined_notes(ms: Seq<Seq<char>>) -> Seq<char>
    decreases ms.len(),
{
    if ms.len() == 0 {
        Seq::<char>::empty()
    } else {
        joined_notes(ms.drop_last()) + ms.last() + " "@
    }
}

/// The board: an 8x8 grid of optional pieces plus turn, castling rights,
/// en-passant target, clocks, and the replay log. Mutated exclusively
/// through [`Board::move_piece`]; a move is validated before any mutation,
/// so a rejected move changes nothing.
pub struct Board {
    pub(crate) pieces: Vec<Option<Piece>>,
    pub(crate) turn: Color,
    pub(crate) captured: Vec<Piece>,
    pub(crate) moves: Vec<String>,

    pub(crate) white_can_castle_kingside: bool,
    pub(crate) white_can_castle_queenside: bool,

    pub(crate) black_can_castle_kingside: bool,
    pub(crate) black_can_castle_queenside: bool,

    pub(crate) en_passant: Option<(usize, usize)>,

    pub(crate) halfmove_clock: usize,
    pub(crate) fullmove_number: usize,
}

impl View for Board {
    type V = BoardView;

    closed spec fn view(&self) -> BoardView {
        BoardView {
            squares: self.pieces@,
            turn: self.turn,
            captured: self.captured@,
            moves: self.moves.deep_view(),
            white_kingside: self.white_can_castle_kingside,
            white_queenside: self.white_can_castle_queenside,
            black_kingside: self.black_can_castle_kingside,
            black_queenside: self.black_can_castle_queenside,
            en_passant: ep_view(self.en_passant),
            halfmove_clock: self.halfmove_clock as int,
            fullmove_number: self.fullmove_number as int,
        }
    }
}

impl Board {
    /// The model is well-formed (see [`BoardView::wf`]).
    pub open spec fn wf(&self) -> bool {
        self@.wf()
    }

    /// Creates an empty board. Construction never fails; the `Result` is
    /// part of the public shape.
    pub fn new() -> (r: Result<Board, Error>)
        ensures
            r matches Ok(b) && b@ == BoardView::empty(),
    {
        let mut pieces: Vec<Option<Piece>> = Vec::new();
        let mut i: usize = 0;
        while i < 64
            invariant
                i <= 64,
                pieces@ =~= Seq::new(i as nat, |j: int| None::<Piece>),
            decreases 64 - i,
        {
            pieces.push(None);
            i += 1;
        }
        let board = Board {
            pieces,
            turn: Color::White,
            captured: Vec::new(),
            moves: Vec::new(),
            white_can_castle_kingside: true,
            white_can_castle_queenside: true,
            black_can_castle_kingside: true,
            black_can_castle_queenside: true,
            en_passant: None,
            halfmove_clock: 0,
            fullmove_number: 1,
        };
        proof {
            assert(board@ =~= BoardView::empty());
        }
        Ok(board)
    }

    /// Removes whatever occupies the given square.
    pub(crate) fn clear_piece(&mut self, file: usize, rank: usize)
        requires
            old(self).wf(),
            file < 8,
            rank < 8,
        ensures
            final(self)@ == (BoardView {
                squares: old(self)@.squares.update(file * 8 + rank, None),
                ..old(self)@
            }),
            final(self).wf(),
    {
        self.pieces.set(file * 8 + rank, None);
    }

    /// Places a piece on the given square, replacing any occupant.
    pub(crate) fn set_piece(&mut self, piece: Piece, file: usize, rank: usize)
        requires
            old(self).wf(),
            file < 8,
            rank < 8,
        ensures
            final(self)@ == (BoardView {
                squares: old(self)@.squares.update(file * 8 + rank, Some(piece)),
                ..old(self)@
            }),
            final(self).wf(),
    {
        self.pieces.set(file * 8 + rank, Some(piece));
    }

    /// The piece at the given square, if any.
    pub fn get_piece(&self, file: usize, rank: usize) -> (r: Option<Piece>)
        requires
            self.wf(),
            file < 8,
            rank < 8,
        ensures
            r == self@.at(file as int, rank as int),
    {
        self.pieces[file * 8 + rank]
    }

    /// Whether the given square is the current en-passant target.
    pub fn is_en_passant(&self, file: usize, rank: usize) -> (r: bool)
        ensures
            r == self@.is_ep(file as int, rank as int),
    {
        match self.en_passant {
            Some((f, r)) => file == f && rank == r,
            None => false,
        }
    }

    /// Whose turn it is.
    pub fn turn(&self) -> (r: Color)
        ensures
            r == self@.turn,
    {
        self.turn
    }

    /// Replaces the whole state with freshly parsed fields and empty
    /// capture and history logs.
    pub(crate) fn install(
        &mut self,
        pieces: Vec<Option<Piece>>,
        turn: Color,
        wk: bool,
        wq: bool,
        bk: bool,
        bq: bool,
        en_passant: Option<(usize, usize)>,
        halfmove_clock: usize,
        fullmove_number: usize,
    )
        requires
            pieces@.len() == 64,
            match en_passant {
                Some(t) => t.0 < 8 && 1 <= t.1 <= 6,
                None => true,
            },
        ensures
            final(self)@ == (BoardView {
                squares: pieces@,
                turn,
                captured: Seq::empty(),
                moves: Seq::empty(),
                white_kingside: wk,
                white_queenside: wq,
                black_kingside: bk,
                black_queenside: bq,
                en_passant: ep_view(en_passant),
                halfmove_clock: halfmove_clock as int,
                fullmove_number: fullmove_number as int,
            }),
            final(self).wf(),
    {
        *self =
        Board {
            pieces,
            turn,
            captured: Vec::new(),
            moves: Vec::new(),
            white_can_castle_kingside: wk,
            white_can_castle_queenside: wq,
            black_can_castle_kingside: bk,
            black_can_castle_queenside: bq,
            en_passant,
            halfmove_clock,
            fullmove_number,
        };
        proof {
            assert(self.moves.deep_view() =~= Seq::<Seq<char>>::empty());
            assert(self@ =~= (BoardView {
                squares: self.pieces@,
                turn,
                captured: Seq::empty(),
                moves: Seq::empty(),
                white_kingside: wk,
                white_queenside: wq,
                black_kingside: bk,
                black_queenside: bq,
                en_passant: ep_view(en_passant),
                halfmove_clock: halfmove_clock as int,
                fullmove_number: fullmove_number as int,
            }));
        }
    }

    /// Plies since the last capture or pawn move.
    pub fn halfmove_clock(&self) -> (r: usize)
        ensures
            r == self@.halfmove_clock,
    {
        self.halfmove_clock
    }

    /// The fullmove number, incremented after each Black move.
    pub fn fullmove_number(&self) -> (r: usize)
        ensures
            r == self@.fullmove_number,
    {
        self.fullmove_number
    }

    /// Decodes, validates, and applies one move given in coordinate
    /// notation. Validation happens before any mutation, so a rejected
    /// move leaves the board exactly as it was; an accepted move performs
    /// the whole state change described by [`apply_move_spec`] and appends
    /// the notation to the history.
    pub fn move_piece(&mut self, data: &str) -> (r: Result<(), Error>)
        requires
            old(self).wf(),
            old(self)@.halfmove_clock < usize::MAX,
            old(self)@.fullmove_number < usize::MAX,
            counts_bounded(old(self)@),
        ensures
            final(self).wf(),
            match move_piece_spec(old(self)@, data@) {
                Ok(v) => r is Ok && final(self)@ == v,
                Err(e) => (r matches Err(err) && err@ == e) && final(self)@ == old(self)@,
            },
    {
        let m = match Move::decode(data) {
            Ok(m) => m,
            Err(e) => {
                return Err(e);
            },
        };

        match m.validate(self) {
            Ok(()) => (),
            Err(e) => {
                return Err(e);
            },
        }

        let ghost b0 = self@;
        let ghost note = data@;

        self.halfmove_clock = self.halfmove_clock + 1;

        let mut piece = self.get_piece(m.from_file, m.from_rank).unwrap();

        // An en-passant hit removes the pawn standing behind the target
        // square (if a piece stands there at all; nothing is removed from
        // an empty square).
        if self.is_en_passant(m.to_file, m.to_rank) {
            let rank = match piece.color {
                Color::White => m.to_rank - 1,
                Color::Black => m.to_rank + 1,
            };
            if let Some(bypassed) = self.get_piece(m.to_file, rank) {
                self.halfmove_clock = 0;
                self.captured.push(bypassed);
                self.clear_piece(m.to_file, rank);
            }
        }

        let target = self.get_piece(m.to_file, m.to_rank);
        if let Some(capture) = target {
            self.halfmove_clock = 0;
            self.captured.push(capture);
        }

        // A pawn move resets the clock; a two-square advance records the
        // skipped square as the en-passant target, and every other move
        // clears the target.
        if matches!(piece.class, Class::Pawn) {
            self.halfmove_clock = 0;
            let rank_distance = if m.to_rank >= m.from_rank {
                m.to_rank - m.from_rank
            } else {
                m.from_rank - m.to_rank
            };
            if rank_distance == 2 {
                let rank = match piece.color {
                    Color::White => m.to_rank - 1,
                    Color::Black => m.to_rank + 1,
                };
                self.en_passant = Some((m.to_file, rank));
            } else {
                self.en_passant = None;
            }
        } else {
            self.en_passant = None;
        }

        // A king arriving on the g- or c-file relocates the piece on the
        // corner of that rank to the rook's castling square, relying on
        // validation having gated true castling.
        if matches!(piece.class, Class::King) {
            if m.to_file == 6 {
                if let Some(rook) = self.get_piece(7, m.to_rank) {
                    self.set_piece(rook, 5, m.to_rank);
                    self.clear_piece(7, m.to_rank);
                }
            } else if m.to_file == 2 {
                if let Some(rook) = self.get_piece(0, m.to_rank) {
                    self.set_piece(rook, 3, m.to_rank);
                    self.clear_piece(0, m.to_rank);
                }
            }
        }

        piece.moves = piece.moves + 1;
        self.set_piece(piece, m.to_file, m.to_rank);
        self.clear_piece(m.from_file, m.from_rank);

        self.moves.push(data.to_owned());

        if matches!(self.turn, Color::Black) {
            self.fullmove_number = self.fullmove_number + 1;
            self.turn = Color::White;
        } else {
            self.turn = Color::Black;
        }

        proof {
            assert(self.moves.deep_view() =~= b0.moves.push(note));
            assert(self@ =~= apply_move_spec(b0, m, note));
        }

        Ok(())
    }

    /// The accepted move notations joined for persistence: each history
    /// entry followed by a single space.
    pub fn history_text(&self) -> (r: String)
        ensures
            r@ == joined_notes(self@.moves),
    {
        let mut out = String::new();
        let n = self.moves.len();
        let mut i: usize = 0;
        proof {
            assert(self@.moves.take(0) =~= Seq::<Seq<char>>::empty());
        }
        while i < n
            invariant
                i <= n,
                n == self@.moves.len(),
                n == self.moves@.len(),
                out@ == joined_notes(self@.moves.take(i as int)),
                self@.moves == self.moves.deep_view(),
            decreases n - i,
        {
            let mv: &String = &self.moves[i];
            out.append(mv.as_str());
            out.append(" ");
            proof {
                assert(self@.moves.take(i + 1).drop_last() =~= self@.moves.take(i as int));
                assert(self@.moves.take(i + 1).last() == self@.moves[i as int]);
            }
            i += 1;
        }
        proof {
            assert(self@.moves.take(n as int) =~= self@.moves);
        }
        out
    }

    /// Replays a whole persisted move list against a freshly reset (empty)
    /// board: the text is split on single spaces, empty tokens are skipped,
    /// and each remaining token runs through decode, validate, and apply in
    /// order. The first invalid token aborts the load where it stands; the
    /// board keeps the state the successfully replayed prefix produced
    /// (there is no rollback of the whole load).
    pub fn replay(&mut self, text: &str) -> (r: Result<(), Error>)
        ensures
            final(self).wf(),
            final(self)@ == replay_tokens(
                BoardView::empty(),
                crate::text::split_spec(text@, ' '),
            ).0,
            match replay_tokens(BoardView::empty(), crate::text::split_spec(text@, ' ')).1 {
                None => r is Ok,
                Some(e) => r matches Err(err) && err@ == e,
            },
    {
        match self.reset() {
            Ok(()) => (),
            Err(e) => {
                return Err(e);
            },
        }
        let ghost target = replay_tokens(BoardView::empty(), crate::text::split_spec(text@, ' '));
        let n = text.unicode_len();
        let mut start: usize = 0;
        let mut i: usize = 0;
        proof {
            assert(text@.skip(0) =~= text@);
        }
        while i < n
            invariant
                self.wf(),
                n == text@.len(),
                start <= i <= n,
                forall|j: int| start <= j < i ==> text@[j] != ' ',
                bounded_by(self@, self@.moves.len() as int),
                4 * self@.moves.len() <= start,
                target == replay_tokens(BoardView::empty(), crate::text::split_spec(text@, ' ')),
                target == replay_tokens(
                    self@,
                    crate::text::split_spec(text@.skip(start as int), ' '),
                ),
            decreases n - i,
        {
            let c = text.get_char(i);
            if c == ' ' {
                let tok = text.substring_char(start, i);
                let ghost toks = crate::text::split_spec(text@.skip(start as int), ' ');
                let ghost rest = crate::text::split_spec(text@.skip(i + 1), ' ');
                proof {
                    crate::text::lemma_split_step(text@, ' ', start as int, i as int);
                    assert(toks == seq![tok@] + rest);
                    assert(toks[0] == tok@);
                    assert(toks.drop_first() =~= rest);
                }
                if tok.unicode_len() > 0 {
                    let ghost prev = self@;
                    match self.move_piece(tok) {
                        Ok(()) => {
                            proof {
                                let m = crate::mover::decoded_move(tok@);
                                lemma_apply_bounded(prev, m, tok@, prev.moves.len() as int);
                                assert(target == replay_tokens(self@, rest));
                            }
                        },
                        Err(e) => {
                            proof {
                                assert(target == (self@, Some(e@)));
                            }
                            return Err(e);
                        },
                    }
                } else {
                    proof {
                        assert(target == replay_tokens(self@, rest));
                    }
                }
                start = i + 1;
            }
            i += 1;
        }
        let tok = text.substring_char(start, n);
        let ghost toks = crate::text::split_spec(text@.skip(start as int), ' ');
        proof {
            crate::text::lemma_split_last(text@, ' ', start as int);
            assert(toks == seq![tok@]);
            assert(toks[0] == tok@);
            assert(toks.drop_first() =~= Seq::<Seq<char>>::empty());
        }
        if tok.unicode_len() > 0 {
            let ghost prev = self@;
            match self.move_piece(tok) {
                Ok(()) => {
                    proof {
                        assert(replay_tokens(self@, Seq::<Seq<char>>::empty()) == (
                        self@,
                        None::<ErrView>,
                        ));
                        assert(target == (self@, None::<ErrView>));
                    }
                },
                Err(e) => {
                    proof {
                        assert(target == (self@, Some(e@)));
                    }
                    return Err(e);
                },
            }
        } else {
            proof {
                assert(replay_tokens(self@, Seq::<Seq<char>>::empty()) == (
                self@,
                None::<ErrView>,
                ));
                assert(target == (self@, None::<ErrView>));
            }
        }
        Ok(())
    }

    /// Discards the whole state and starts over with an empty board.
    pub fn reset(&mut self) -> (r: Result<(), Error>)
        ensures
            r is Ok,
            final(self)@ == BoardView::empty(),
            final(self).wf(),
    {
        *self = Board::new()?;
        Ok(())
    }
}

} // verus!
