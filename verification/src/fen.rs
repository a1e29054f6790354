//! Position encoding: parsing the six-field starting-position string into
//! a fresh board.
//!
//! The fields are: piece placement (ranks top to bottom, separated by `/`,
//! digits standing for runs of empty squares), side to move (`w`/`b`),
//! castling rights (a subset of `KQkq`, or `-`), en-passant target (`-` or
//! an algebraic square on rank 3 or 6), halfmove clock, and fullmove
//! number. The clock fields accept any machine-word value; upper bounds
//! are deliberately unchecked. A parse failure leaves the board as a fresh
//! empty board (the fresh board is always constructed first, and fields
//! are committed only after every field has parsed).

use vstd::prelude::*;
use vstd::string::StrSliceExecFns;

use crate::chess::{Board, BoardView, Class, Color, Error, ErrView, Piece};
use crate::text;

verus! {

/// The piece a placement letter stands for: uppercase White, lowercase
/// Black, `{P,N,B,R,Q,K}` by class, anything else unrecognized.
pub open spec fn piece_of_char(c: char) -> Option<Piece> {
    match c {
        'P' => Some(Piece { class: Class::Pawn, color: Color::White, moves: 0 }),
        'N' => Some(Piece { class: Class::Knight, color: Color::White, moves: 0 }),
        'B' => Some(Piece { class: Class::Bishop, color: Color::White, moves: 0 }),
        'R' => Some(Piece { class: Class::Rook, color: Color::White, moves: 0 }),
        'Q' => Some(Piece { class: Class::Queen, color: Color::White, moves: 0 }),
        'K' => Some(Piece { class: Class::King, color: Color::White, moves: 0 }),
        'p' => Some(Piece { class: Class::Pawn, color: Color::Black, moves: 0 }),
        'n' => Some(Piece { class: Class::Knight, color: Color::Black, moves: 0 }),
        'b' => Some(Piece { class: Class::Bishop, color: Color::Black, moves: 0 }),
        'r' => Some(Piece { class: Class::Rook, color: Color::Black, moves: 0 }),
        'q' => Some(Piece { class: Class::Queen, color: Color::Black, moves: 0 }),
        'k' => Some(Piece { class: Class::King, color: Color::Black, moves: 0 }),
        _ => None,
    }
}

/// Law: the placement letter of every class and color reads back as the
/// piece it was written from.
pub proof fn lemma_piece_letter_round_trip(class: Class, color: Color)
    ensures
        piece_of_char(crate::chess::piece_letter(class, color)) == Some(
            Piece { class, color, moves: 0 },
        ),
{
}

/// One placement row applied to the grid, left to right: a digit advances
/// the file by its value (files cap at the row width: once off the row a
/// letter is a placement error), a recognized letter places its piece and
/// advances one file, an unrecognized letter fails the parse.
pub open spec fn place_row(
    sq: Seq<Option<Piece>>,
    row: Seq<char>,
    file: int,
    rank: int,
) -> Result<Seq<Option<Piece>>, Seq<char>>
    decreases row.len(),
{
    if row.len() == 0 {
        Ok(sq)
    } else {
        let c = row[0];
        if text::is_digit(c) {
            let f2 = if file < 8 {
                file + text::digit_val(c)
            } else {
                file
            };
            place_row(sq, row.drop_first(), f2, rank)
        } else {
            match piece_of_char(c) {
                None => Err("invalid piece"@),
                Some(p) => if file >= 8 {
                    Err("invalid placement"@)
                } else {
                    place_row(sq.update(file * 8 + rank, Some(p)), row.drop_first(), file + 1, rank)
                },
            }
        }
    }
}

/// All placement rows applied top to bottom, starting at the top rank and
/// stopping at the bottom one (rows past the eighth write the bottom rank
/// again, as the rank index saturates at zero).
pub open spec fn place_rows(
    sq: Seq<Option<Piece>>,
    rows: Seq<Seq<char>>,
    rank: int,
) -> Result<Seq<Option<Piece>>, Seq<char>>
    decreases rows.len(),
{
    if rows.len() == 0 {
        Ok(sq)
    } else {
        match place_row(sq, rows[0], 0, rank) {
            Err(e) => Err(e),
            Ok(sq2) => place_rows(
                sq2,
                rows.drop_first(),
                if rank > 0 {
                    rank - 1
                } else {
                    0
                },
            ),
        }
    }
}

/// The file an en-passant letter stands for.
pub open spec fn ep_file_of(c: char) -> Option<int> {
    match c {
        'a' => Some(0),
        'b' => Some(1),
        'c' => Some(2),
        'd' => Some(3),
        'e' => Some(4),
        'f' => Some(5),
        'g' => Some(6),
        'h' => Some(7),
        _ => None,
    }
}

/// The rank an en-passant digit stands for; only the two skipped ranks
/// are meaningful.
pub open spec fn ep_rank_of(c: char) -> Option<int> {
    match c {
        '3' => Some(2),
        '6' => Some(5),
        _ => None,
    }
}

/// The en-passant field: `-` for no target, else a file letter and a rank
/// digit read from the first two characters (anything after them is
/// ignored).
pub open spec fn parse_ep(part: Seq<char>) -> Result<Option<(int, int)>, Seq<char>> {
    if part.len() == 1 && part[0] == '-' {
        Ok(None)
    } else if part.len() < 1 {
        Err("missing en passant file"@)
    } else {
        match ep_file_of(part[0]) {
            None => Err("invalid en passant file"@),
            Some(f) => if part.len() < 2 {
                Err("missing en passant rank"@)
            } else {
                match ep_rank_of(part[1]) {
                    None => Err("invalid en passant rank"@),
                    Some(r) => Ok(Some((f, r))),
                }
            },
        }
    }
}

/// Whether `c` occurs anywhere in `s`.
pub open spec fn contains_char(s: Seq<char>, c: char) -> bool {
    exists|i: int| 0 <= i < s.len() && s[i] == c
}

/// What parsing a whole position string yields: the board state for a
/// well-formed string, or the detail naming the first missing or invalid
/// field, in the order side-to-move, castling, en-passant, halfmove,
/// fullmove, and placement last.
pub open spec fn from_fen_spec(s: Seq<char>) -> Result<BoardView, Seq<char>> {
    let parts = text::split_spec(s, ' ');
    if parts.len() < 2 {
        Err("missing start"@)
    } else if !(parts[1].len() == 1 && (parts[1][0] == 'w' || parts[1][0] == 'b')) {
        Err("invalid start"@)
    } else if parts.len() < 3 {
        Err("missing castling"@)
    } else if parts.len() < 4 {
        Err("missing en passant"@)
    } else if parse_ep(parts[3]) is Err {
        Err(parse_ep(parts[3])->Err_0)
    } else if parts.len() < 5 {
        Err("missing halfmove"@)
    } else if text::parse_usize_spec(parts[4]) is None {
        Err("invalid halfmove clock"@)
    } else if parts.len() < 6 {
        Err("missing fullmove"@)
    } else if text::parse_usize_spec(parts[5]) is None {
        Err("invalid fullmove number"@)
    } else {
        match place_rows(Seq::new(64, |i: int| None), text::split_spec(parts[0], '/'), 7) {
            Err(e) => Err(e),
            Ok(sq) => Ok(
                BoardView {
                    squares: sq,
                    turn: if parts[1][0] == 'w' {
                        Color::White
                    } else {
                        Color::Black
                    },
                    captured: Seq::empty(),
                    moves: Seq::empty(),
                    white_kingside: contains_char(parts[2], 'K'),
                    white_queenside: contains_char(parts[2], 'Q'),
                    black_kingside: contains_char(parts[2], 'k'),
                    black_queenside: contains_char(parts[2], 'q'),
                    en_passant: parse_ep(parts[3])->Ok_0,
                    halfmove_clock: text::parse_usize_spec(parts[4])->Some_0,
                    fullmove_number: text::parse_usize_spec(parts[5])->Some_0,
                },
            ),
        }
    }
}

/// Whether `s` is exactly the one-character string `c`.
fn is_char_str(s: &str, c: char) -> (r: bool)
    ensures
        r == (s@.len() == 1 && s@[0] == c),
{
    s.unicode_len() == 1 && s.get_char(0) == c
}

/// Scans `s` for `c`.
fn str_contains_char(s: &str, c: char) -> (r: bool)
    ensures
        r == contains_char(s@, c),
{
    let n = s.unicode_len();
    let mut i: usize = 0;
    while i < n
        invariant
            i <= n,
            n == s@.len(),
            forall|j: int| 0 <= j < i ==> s@[j] != c,
        decreases n - i,
    {
        if s.get_char(i) == c {
            return true;
        }
        i += 1;
    }
    false
}

/// The piece a placement letter stands for, at runtime.
fn piece_from_char(c: char) -> (r: Option<Piece>)
    ensures
        r == piece_of_char(c),
{
    match c {
        'P' => Some(Piece::new(Class::Pawn, Color::White)),
        'N' => Some(Piece::new(Class::Knight, Color::White)),
        'B' => Some(Piece::new(Class::Bishop, Color::White)),
        'R' => Some(Piece::new(Class::Rook, Color::White)),
        'Q' => Some(Piece::new(Class::Queen, Color::White)),
        'K' => Some(Piece::new(Class::King, Color::White)),
        'p' => Some(Piece::new(Class::Pawn, Color::Black)),
        'n' => Some(Piece::new(Class::Knight, Color::Black)),
        'b' => Some(Piece::new(Class::Bishop, Color::Black)),
        'r' => Some(Piece::new(Class::Rook, Color::Black)),
        'q' => Some(Piece::new(Class::Queen, Color::Black)),
        'k' => Some(Piece::new(Class::King, Color::Black)),
        _ => None,
    }
}

/// Reads the en-passant field.
fn parse_ep_field(part: &str) -> (r: Result<Option<(usize, usize)>, Error>)
    ensures
        match parse_ep(part@) {
            Ok(ep) => r matches Ok(e) && crate::chess::ep_view(e) == ep,
            Err(d) => r matches Err(err) && err@ == ErrView::InvalidFen(d),
        },
{
    let n = part.unicode_len();
    if n == 1 && part.get_char(0) == '-' {
        return Ok(None);
    }
    if n == 0 {
        return Err(Error::InvalidFen("missing en passant file".to_owned()));
    }
    let f: usize = match part.get_char(0) {
        'a' => 0,
        'b' => 1,
        'c' => 2,
        'd' => 3,
        'e' => 4,
        'f' => 5,
        'g' => 6,
        'h' => 7,
        _ => {
            return Err(Error::InvalidFen("invalid en passant file".to_owned()));
        },
    };
    if n < 2 {
        return Err(Error::InvalidFen("missing en passant rank".to_owned()));
    }
    let rk: usize = match part.get_char(1) {
        '3' => 2,
        '6' => 5,
        _ => {
            return Err(Error::InvalidFen("invalid en passant rank".to_owned()));
        },
    };
    Ok(Some((f, rk)))
}

impl Board {
    /// Parses a whole starting-position string into this board. The board
    /// is rebuilt from scratch: on success it holds exactly the parsed
    /// state, and on failure it is left as a fresh empty board (never a
    /// half-populated one).
    pub fn from_fen(&mut self, data: &str) -> (r: Result<(), Error>)
        ensures
            final(self).wf(),
            match from_fen_spec(data@) {
                Ok(v) => r is Ok && final(self)@ == v,
                Err(d) => (r matches Err(e) && e@ == ErrView::InvalidFen(d)) && final(self)@
                    == BoardView::empty(),
            },
    {
        *self = Board::new()?;

        let parts = crate::text::split_str(data, ' ');

        if parts.len() < 2 {
            return Err(Error::InvalidFen("missing start".to_owned()));
        }
        let turn_part: &str = parts[1];
        proof {
            assert(turn_part@ == text::split_spec(data@, ' ')[1]);
        }
        let turn = if is_char_str(turn_part, 'w') {
            Color::White
        } else if is_char_str(turn_part, 'b') {
            Color::Black
        } else {
            return Err(Error::InvalidFen("invalid start".to_owned()));
        };

        if parts.len() < 3 {
            return Err(Error::InvalidFen("missing castling".to_owned()));
        }
        let castling: &str = parts[2];
        proof {
            assert(castling@ == text::split_spec(data@, ' ')[2]);
        }
        let wk = str_contains_char(castling, 'K');
        let wq = str_contains_char(castling, 'Q');
        let bk = str_contains_char(castling, 'k');
        let bq = str_contains_char(castling, 'q');

        if parts.len() < 4 {
            return Err(Error::InvalidFen("missing en passant".to_owned()));
        }
        let ep_part: &str = parts[3];
        proof {
            assert(ep_part@ == text::split_spec(data@, ' ')[3]);
        }
        let en_passant = match parse_ep_field(ep_part) {
            Ok(e) => e,
            Err(err) => {
                return Err(err);
            },
        };

        if parts.len() < 5 {
            return Err(Error::InvalidFen("missing halfmove".to_owned()));
        }
        let hm_part: &str = parts[4];
        proof {
            assert(hm_part@ == text::split_spec(data@, ' ')[4]);
        }
        let halfmove = match crate::text::parse_usize(hm_part) {
            Some(v) => v,
            None => {
                return Err(Error::InvalidFen("invalid halfmove clock".to_owned()));
            },
        };

        if parts.len() < 6 {
            return Err(Error::InvalidFen("missing fullmove".to_owned()));
        }
        let fm_part: &str = parts[5];
        proof {
            assert(fm_part@ == text::split_spec(data@, ' ')[5]);
        }
        let fullmove = match crate::text::parse_usize(fm_part) {
            Some(v) => v,
            None => {
                return Err(Error::InvalidFen("invalid fullmove number".to_owned()));
            },
        };

        let placement: &str = parts[0];
        proof {
            assert(placement@ == text::split_spec(data@, ' ')[0]);
        }
        let rows = crate::text::split_str(placement, '/');
        let ghost rows_dv = text::split_spec(placement@, '/');
        let ghost fs = from_fen_spec(data@);
        let ghost mk: spec_fn(Seq<Option<Piece>>) -> BoardView = |sq: Seq<Option<Piece>>|
            BoardView {
                squares: sq,
                turn: if text::split_spec(data@, ' ')[1][0] == 'w' {
                    Color::White
                } else {
                    Color::Black
                },
                captured: Seq::empty(),
                moves: Seq::empty(),
                white_kingside: contains_char(text::split_spec(data@, ' ')[2], 'K'),
                white_queenside: contains_char(text::split_spec(data@, ' ')[2], 'Q'),
                black_kingside: contains_char(text::split_spec(data@, ' ')[2], 'k'),
                black_queenside: contains_char(text::split_spec(data@, ' ')[2], 'q'),
                en_passant: parse_ep(text::split_spec(data@, ' ')[3])->Ok_0,
                halfmove_clock: text::parse_usize_spec(text::split_spec(data@, ' ')[4])->Some_0,
                fullmove_number: text::parse_usize_spec(text::split_spec(data@, ' ')[5])->Some_0,
            };
        proof {
            assert(fs == (match place_rows(Seq::new(64, |j: int| None::<Piece>), rows_dv, 7) {
                Err(e) => Err::<BoardView, Seq<char>>(e),
                Ok(sq) => Ok(mk(sq)),
            }));
        }

        let mut grid: Vec<Option<Piece>> = Vec::new();
        let mut k: usize = 0;
        while k < 64
            invariant
                k <= 64,
                grid@ =~= Seq::new(k as nat, |j: int| None::<Piece>),
            decreases 64 - k,
        {
            grid.push(None);
            k += 1;
        }
        proof {
            assert(grid@ =~= Seq::new(64, |j: int| None::<Piece>));
            assert(rows_dv.skip(0) =~= rows_dv);
        }

        let mut rank: usize = 7;
        let mut row_idx: usize = 0;
        while row_idx < rows.len()
            invariant
                self.wf(),
                self@ == BoardView::empty(),
                row_idx <= rows.len(),
                rank <= 7,
                rows.deep_view() == rows_dv,
                grid@.len() == 64,
                fs == from_fen_spec(data@),
                fs == (match place_rows(Seq::new(64, |j: int| None::<Piece>), rows_dv, 7) {
                    Err(e) => Err::<BoardView, Seq<char>>(e),
                    Ok(sq) => Ok(mk(sq)),
                }),
                place_rows(Seq::new(64, |j: int| None::<Piece>), rows_dv, 7) == place_rows(
                    grid@,
                    rows_dv.skip(row_idx as int),
                    rank as int,
                ),
            decreases rows.len() - row_idx,
        {
            let row: &str = rows[row_idx];
            proof {
                assert(row@ == rows_dv[row_idx as int]);
            }
            let ghost grid0 = grid@;
            let rlen = row.unicode_len();
            let mut file: usize = 0;
            let mut ci: usize = 0;
            proof {
                assert(row@.skip(0) =~= row@);
            }
            while ci < rlen
                invariant
                    self.wf(),
                    self@ == BoardView::empty(),
                    ci <= rlen,
                    rlen == row@.len(),
                    file <= 16,
                    rank <= 7,
                    grid@.len() == 64,
                    fs == from_fen_spec(data@),
                    fs == (match place_rows(Seq::new(64, |j: int| None::<Piece>), rows_dv, 7) {
                        Err(e) => Err::<BoardView, Seq<char>>(e),
                        Ok(sq) => Ok(mk(sq)),
                    }),
                    place_row(grid0, row@, 0, rank as int) == place_row(
                        grid@,
                        row@.skip(ci as int),
                        file as int,
                        rank as int,
                    ),
                    place_rows(Seq::new(64, |j: int| None::<Piece>), rows_dv, 7) == place_rows(
                        grid0,
                        rows_dv.skip(row_idx as int),
                        rank as int,
                    ),
                    row_idx < rows_dv.len(),
                    row@ == rows_dv[row_idx as int],
                decreases rlen - ci,
            {
                let c = row.get_char(ci);
                proof {
                    assert(row@.skip(ci as int)[0] == row@[ci as int]);
                    assert(row@.skip(ci as int).drop_first() =~= row@.skip(ci + 1));
                }
                let v = c as u32;
                if 48 <= v && v <= 57 {
                    let count = (v - 48) as usize;
                    if file < 8 {
                        file = file + count;
                    }
                } else {
                    let piece = match piece_from_char(c) {
                        Some(p) => p,
                        None => {
                            proof {
                                assert(place_rows(
                                    Seq::new(64, |j: int| None::<Piece>),
                                    rows_dv,
                                    7,
                                ) == Err::<Seq<Option<Piece>>, Seq<char>>("invalid piece"@));
                            }
                            return Err(Error::InvalidFen("invalid piece".to_owned()));
                        },
                    };
                    if file >= 8 {
                        proof {
                            assert(place_rows(Seq::new(64, |j: int| None::<Piece>), rows_dv, 7)
                                == Err::<Seq<Option<Piece>>, Seq<char>>("invalid placement"@));
                        }
                        return Err(Error::InvalidFen("invalid placement".to_owned()));
                    }
                    grid.set(file * 8 + rank, Some(piece));
                    file = file + 1;
                }
                ci += 1;
            }
            proof {
                assert(row@.skip(rlen as int) =~= Seq::<char>::empty());
                assert(place_row(grid0, row@, 0, rank as int) == Ok::<Seq<Option<Piece>>, Seq<char>>(
                    grid@,
                ));
                assert(rows_dv.skip(row_idx as int).drop_first() =~= rows_dv.skip(row_idx + 1));
            }
            if rank > 0 {
                rank -= 1;
            }
            row_idx += 1;
        }
        let ghost grid_final = grid@;
        proof {
            assert(rows_dv.skip(rows_dv.len() as int) =~= Seq::<Seq<char>>::empty());
            assert(place_rows(Seq::new(64, |j: int| None::<Piece>), rows_dv, 7) == Ok::<
                Seq<Option<Piece>>,
                Seq<char>,
            >(grid_final));
        }

        self.install(grid, turn, wk, wq, bk, bq, en_passant, halfmove, fullmove);

        proof {
            assert(self@ =~= mk(grid_final));
        }

        Ok(())
    }

    /// Creates a board holding the standard starting position.
    pub fn default_board() -> (r: Result<Board, Error>)
        ensures
            match from_fen_spec(crate::chess::DEFAULT_BOARD@) {
                Ok(v) => r matches Ok(b) && b@ == v && b.wf(),
                Err(d) => r matches Err(e) && e@ == ErrView::InvalidFen(d),
            },
    {
        let mut board = Board::new()?;
        board.from_fen(crate::chess::DEFAULT_BOARD)?;
        Ok(board)
    }
}

} // verus!
