//! Positions from their description in Forsyth-Edwards notation. The text is
//! read by the `pfen` crate; what it found is then laid out on a board.

use vstd::prelude::*;
use vstd::string::StrSliceExecFns;
use pfen::{Pfen, PfenError};
use crate::bit::on_board;
use crate::board::{check_xy, Board};
use crate::color::Color;
use crate::error::BoardError;
use crate::moves::Castling;
use crate::piece::{Piece, PieceKind};

verus! {

/// Why a text does not describe a position.
#[derive(Clone, Copy, Debug, PartialEq, Eq, Hash, Structural)]
pub enum FenError {
    /// The first field has too few rows.
    TooFewRows,
    /// The first field has too many rows.
    TooManyRows,
    /// A row describes more than eight squares.
    RowTooLong,
    /// A row describes fewer than eight squares.
    RowTooShort,
    /// The character stands for no piece.
    InvalidPiece(char),
    /// The second field names no side.
    InvalidColor,
    /// The third field names no castling rights.
    InvalidCastling,
    /// The fourth field names no en-passant target.
    InvalidEnPassant,
    /// The fifth field is no number.
    InvalidHalfmove,
    /// The sixth field is no number.
    InvalidFullmove,
    /// The text has fewer than six fields; the number says how many were found.
    TooFewSegments(usize),
    /// The text has more than six fields.
    TooManySegments(usize),
}

/// What a description of a position says: `board[y][x]` is the piece on
/// `(x, y)`, and beside the pieces the side to move, the castling rights, the
/// en-passant target and the two clocks.
#[derive(Clone, Copy, Debug, PartialEq, Eq)]
pub struct Fen {
    pub board: [[Option<Piece>; 8]; 8],
    pub turn: Color,
    pub castling: Castling,
    pub en_passant: Option<(u8, u8)>,
    pub halfmove: u32,
    pub fullmove: u32,
}

/// What `pfen::parse` hands back for a text it accepts.
#[verifier::external_type_specification]
#[verifier::external_body]
pub struct ExPfen(Pfen);

/// What `pfen::parse` hands back for a text it refuses.
#[verifier::external_type_specification]
#[verifier::external_body]
pub struct ExPfenError<'a>(PfenError<'a>);

/// What `pfen::parse` makes of a text.
pub uninterp spec fn parsed(text: Seq<char>) -> Result<Fen, FenError>;

/// What a value of `pfen::Pfen` holds.
pub uninterp spec fn fields(p: Pfen) -> Fen;

/// Which fault a value of `pfen::PfenError` names.
pub uninterp spec fn failure(e: PfenError) -> FenError;

/// How far a text has been looked through: the number of spaces seen, up to 5;
/// within the first field the number of slashes seen, up to 8, and the number
/// of squares that the current row has filled, up to 8; the number of
/// characters of the fourth field, up to 2, and whether one of them takes four
/// bytes; and whether a piece letter stood where its row was already full
/// (`crowded`) or below the eighth row (`deep`).
#[derive(Clone, Copy, Debug, PartialEq, Eq, Structural)]
pub struct Scan {
    pub field: u8,
    pub row: u8,
    pub width: u8,
    pub target_chars: u8,
    pub target_wide: bool,
    pub crowded: bool,
    pub deep: bool,
}

/// Whether the character is one of the twelve piece letters.
pub open spec fn is_piece_letter(c: char) -> bool {
    c == 'p' || c == 'n' || c == 'b' || c == 'r' || c == 'q' || c == 'k' || c == 'P' || c == 'N'
        || c == 'B' || c == 'R' || c == 'Q' || c == 'K'
}

/// The number of free squares that a digit from `1` to `8` stands for; zero
/// for any other character.
pub open spec fn gap_width(c: char) -> u8 {
    if '1' <= c && c <= '8' {
        (c as u32 - '0' as u32) as u8
    } else {
        0
    }
}

/// `a + b`, but no more than `cap`.
pub open spec fn capped(a: u8, b: u8, cap: u8) -> u8 {
    if a + b >= cap {
        cap
    } else {
        (a + b) as u8
    }
}

/// The state before any character.
pub open spec fn scan_start() -> Scan {
    Scan {
        field: 0,
        row: 0,
        width: 0,
        target_chars: 0,
        target_wide: false,
        crowded: false,
        deep: false,
    }
}

/// The state after one more character.
pub open spec fn scan_step(st: Scan, c: char) -> Scan {
    if c == ' ' {
        Scan { field: capped(st.field, 1, 5), ..st }
    } else if st.field == 0 {
        if c == '/' {
            Scan { row: capped(st.row, 1, 8), width: 0, ..st }
        } else if is_piece_letter(c) {
            Scan {
                width: capped(st.width, 1, 8),
                crowded: st.crowded || st.width >= 8,
                deep: st.deep || st.row >= 8,
                ..st
            }
        } else {
            Scan { width: capped(st.width, gap_width(c), 8), ..st }
        }
    } else if st.field == 3 {
        Scan {
            target_chars: capped(st.target_chars, 1, 2),
            target_wide: st.target_wide || c as u32 >= 0x10000,
            ..st
        }
    } else {
        st
    }
}

/// The state after every character of the text.
pub open spec fn scan(text: Seq<char>) -> Scan
    decreases text.len(),
{
    if text.len() == 0 {
        scan_start()
    } else {
        scan_step(scan(text.drop_last()), text.last())
    }
}

/// What is wrong with a text before it is read, if anything: in a text of six
/// fields or more, a piece letter below the eighth row of the first field or
/// a piece letter in a row that is already full; in any text, a fourth field
/// that is a single character of four bytes.
pub open spec fn refused(text: Seq<char>) -> Option<FenError> {
    let st = scan(text);
    if st.field >= 5 && st.deep {
        Some(FenError::TooManyRows)
    } else if st.field >= 5 && st.crowded {
        Some(FenError::RowTooLong)
    } else if st.target_chars == 1 && st.target_wide {
        Some(FenError::InvalidEnPassant)
    } else {
        None
    }
}

/// Calls `pfen::parse`. The text must pass `refused`: `pfen::parse` reads the
/// five fields after the first before it lays out the rows, and panics on an
/// en-passant field that is one character of four bytes, and then on a piece
/// letter in a ninth row or in a row that holds eight squares already.
/// The result depends on the text alone; it is named by `parsed`, over what the
/// value holds (`fields`) or which fault the error names (`failure`).
#[verifier::external_body]
fn parse_text<'a>(text: &'a str) -> (r: Result<Pfen, PfenError<'a>>)
    requires
        refused(text@) is None,
    ensures
        parsed(text@) == (match r {
            Ok(p) => Ok::<Fen, FenError>(fields(p)),
            Err(e) => Err::<Fen, FenError>(failure(e)),
        }),
{
    pfen::parse(text)
}

/// Reads the piece on `(x, y)` out of a `pfen::Pfen`: the field `board[y][x]`,
/// with the kind and the side of the piece given in this library's types.
#[verifier::external_body]
fn placed(p: &Pfen, x: usize, y: usize) -> (r: Option<Piece>)
    requires
        x < 8,
        y < 8,
    ensures
        r == fields(*p).board[y as int][x as int],
{
    let q = p.board[y][x]?;
    let kind = match q.kind {
        pfen::PieceKind::Pawn => PieceKind::Pawn,
        pfen::PieceKind::Knight => PieceKind::Knight,
        pfen::PieceKind::Bishop => PieceKind::Bishop,
        pfen::PieceKind::Rook => PieceKind::Rook,
        pfen::PieceKind::Queen => PieceKind::Queen,
        pfen::PieceKind::King => PieceKind::King,
    };
    let color = match q.color {
        pfen::Color::White => Color::White,
        pfen::Color::Black => Color::Black,
    };
    Some(Piece { kind, color })
}

/// Reads the side to move out of a `pfen::Pfen`: the field `turn`.
#[verifier::external_body]
fn turn_of(p: &Pfen) -> (r: Color)
    ensures
        r == fields(*p).turn,
{
    match p.turn {
        pfen::Color::White => Color::White,
        pfen::Color::Black => Color::Black,
    }
}

/// Reads the castling rights out of a `pfen::Pfen`: the four flags of the
/// field `castling`.
#[verifier::external_body]
fn castling_of(p: &Pfen) -> (r: Castling)
    ensures
        r == fields(*p).castling,
{
    Castling {
        white_kingside: p.castling.white_kingside,
        white_queenside: p.castling.white_queenside,
        black_kingside: p.castling.black_kingside,
        black_queenside: p.castling.black_queenside,
    }
}

/// Reads the en-passant target and the two clocks out of a `pfen::Pfen`: the
/// fields `en_passant`, `halfmove` and `fullmove`.
#[verifier::external_body]
fn counters_of(p: &Pfen) -> (r: (Option<(u8, u8)>, u32, u32))
    ensures
        r == (fields(*p).en_passant, fields(*p).halfmove, fields(*p).fullmove),
{
    (p.en_passant, p.halfmove, p.fullmove)
}

/// Tells the variants of `pfen::PfenError` apart. The texts that some of them
/// carry are left behind; a character or a count is kept.
#[verifier::external_body]
fn failure_of(e: &PfenError) -> (r: FenError)
    ensures
        r == failure(*e),
{
    match e {
        PfenError::TooFewRows(_) => FenError::TooFewRows,
        PfenError::TooManyRows(_) => FenError::TooManyRows,
        PfenError::RowTooLong(_) => FenError::RowTooLong,
        PfenError::RowTooShort(_) => FenError::RowTooShort,
        PfenError::InvalidPiece(c) => FenError::InvalidPiece(*c),
        PfenError::InvalidColor(_) => FenError::InvalidColor,
        PfenError::InvalidCastling(_) => FenError::InvalidCastling,
        PfenError::InvalidEnPassant(_) => FenError::InvalidEnPassant,
        PfenError::InvalidHalfmove(_) => FenError::InvalidHalfmove,
        PfenError::InvalidFullmove(_) => FenError::InvalidFullmove,
        PfenError::TooFewSegments(n) => FenError::TooFewSegments(*n),
        PfenError::TooManySegments(n) => FenError::TooManySegments(*n),
    }
}

/// What `parse` answers for a text: the fault that `refused` finds, or else
/// what `pfen::parse` makes of the text.
pub open spec fn parse_spec(text: Seq<char>) -> Result<Fen, FenError> {
    match refused(text) {
        Some(e) => Err(e),
        None => parsed(text),
    }
}

/// `a + b`, but no more than `cap`.
fn add_capped(a: u8, b: u8, cap: u8) -> (r: u8)
    ensures
        r == capped(a, b, cap),
{
    if a >= cap || b >= cap - a {
        cap
    } else {
        a + b
    }
}

/// Looks at one more character of a text.
pub fn step(st: Scan, c: char) -> (r: Scan)
    ensures
        r == scan_step(st, c),
{
    if c == ' ' {
        Scan { field: add_capped(st.field, 1, 5), ..st }
    } else if st.field == 0 {
        if c == '/' {
            Scan { row: add_capped(st.row, 1, 8), width: 0, ..st }
        } else {
            match c {
                'p' | 'n' | 'b' | 'r' | 'q' | 'k' | 'P' | 'N' | 'B' | 'R' | 'Q' | 'K' => Scan {
                    width: add_capped(st.width, 1, 8),
                    crowded: st.crowded || st.width >= 8,
                    deep: st.deep || st.row >= 8,
                    ..st
                },
                '1' => Scan { width: add_capped(st.width, 1, 8), ..st },
                '2' => Scan { width: add_capped(st.width, 2, 8), ..st },
                '3' => Scan { width: add_capped(st.width, 3, 8), ..st },
                '4' => Scan { width: add_capped(st.width, 4, 8), ..st },
                '5' => Scan { width: add_capped(st.width, 5, 8), ..st },
                '6' => Scan { width: add_capped(st.width, 6, 8), ..st },
                '7' => Scan { width: add_capped(st.width, 7, 8), ..st },
                '8' => Scan { width: add_capped(st.width, 8, 8), ..st },
                _ => Scan { width: add_capped(st.width, 0, 8), ..st },
            }
        }
    } else if st.field == 3 {
        Scan {
            target_chars: add_capped(st.target_chars, 1, 2),
            target_wide: st.target_wide || c as u32 >= 0x10000,
            ..st
        }
    } else {
        st
    }
}

/// Looks through a text for what `pfen::parse` cannot take.
pub fn check(text: &str) -> (r: Option<FenError>)
    ensures
        r == refused(text@),
{
    let n: usize = text.unicode_len();
    let mut st: Scan = Scan {
        field: 0,
        row: 0,
        width: 0,
        target_chars: 0,
        target_wide: false,
        crowded: false,
        deep: false,
    };
    let mut i: usize = 0;
    while i < n
        invariant
            i <= n,
            n == text@.len(),
            st == scan(text@.take(i as int)),
        decreases n - i,
    {
        let c: char = text.get_char(i);
        proof {
            assert(text@.take(i + 1).drop_last() == text@.take(i as int));
        }
        st = step(st, c);
        i += 1;
    }
    proof {
        assert(text@.take(n as int) == text@);
    }
    if st.field >= 5 && st.deep {
        Some(FenError::TooManyRows)
    } else if st.field >= 5 && st.crowded {
        Some(FenError::RowTooLong)
    } else if st.target_chars == 1 && st.target_wide {
        Some(FenError::InvalidEnPassant)
    } else {
        None
    }
}

/// What a description of a position says, or why the text is none.
pub fn parse(text: &str) -> (r: Result<Fen, FenError>)
    ensures
        r == parse_spec(text@),
{
    if let Some(e) = check(text) {
        return Err(e);
    }
    let p: Pfen = match parse_text(text) {
        Ok(p) => p,
        Err(e) => {
            return Err(failure_of(&e));
        },
    };
    let mut board: [[Option<Piece>; 8]; 8] = [[None; 8]; 8];
    let mut y: usize = 0;
    while y < 8
        invariant
            y <= 8,
            forall|a: int, b: int|
                0 <= a < 8 && 0 <= b < y ==> board[b][a] == fields(p).board[b][a],
        decreases 8 - y,
    {
        let mut row: [Option<Piece>; 8] = [None; 8];
        let mut x: usize = 0;
        while x < 8
            invariant
                x <= 8,
                y < 8,
                forall|a: int| 0 <= a < x ==> row[a] == fields(p).board[y as int][a],
            decreases 8 - x,
        {
            row[x] = placed(&p, x, y);
            x += 1;
        }
        board[y] = row;
        y += 1;
    }
    let (en_passant, halfmove, fullmove) = counters_of(&p);
    let fen: Fen = Fen {
        board,
        turn: turn_of(&p),
        castling: castling_of(&p),
        en_passant,
        halfmove,
        fullmove,
    };
    proof {
        assert forall|b: int| 0 <= b < 8 implies board[b] == fields(p).board[b] by {
            assert(board[b] =~= fields(p).board[b]);
        }
        assert(board =~= fields(p).board);
        assert(fen == fields(p));
    }
    Ok(fen)
}

impl Board {
    /// The board with the first `n` squares of a description laid out, rank
    /// by rank from `(0, 0)`, and nothing on the others.
    pub open spec fn filled(board: [[Option<Piece>; 8]; 8], n: int) -> Board
        decreases n,
    {
        if n <= 0 {
            Board::empty()
        } else {
            Board::filled(board, n - 1).put(
                ((n - 1) % 8) as u8,
                ((n - 1) / 8) as u8,
                board[(n - 1) / 8][(n - 1) % 8],
            )
        }
    }

    /// The position that a description says.
    pub open spec fn described(fen: Fen) -> Board {
        Board::filled(fen.board, 64).with_state(
            fen.turn,
            fen.castling,
            fen.en_passant,
            fen.halfmove,
            fen.fullmove,
        )
    }

    /// What `from_fen` answers: the coordinate of the en-passant target that is
    /// out of range, or the position that the description says.
    pub open spec fn from_fen_spec(fen: Fen) -> Result<Board, BoardError> {
        match fen.en_passant {
            Some(t) => match check_xy(t.0, t.1) {
                Err(e) => Err(e),
                Ok(_) => Ok(Board::described(fen)),
            },
            None => Ok(Board::described(fen)),
        }
    }

    /// What `fen` answers for a text.
    pub open spec fn fen_spec(text: Seq<char>) -> Result<Board, FenError> {
        match parse_spec(text) {
            Err(e) => Err(e),
            Ok(f) => match Board::from_fen_spec(f) {
                Ok(b) => Ok(b),
                Err(_) => Err(FenError::InvalidEnPassant),
            },
        }
    }

    /// What a board holds after the first `n` squares of a description have
    /// been laid out.
    pub proof fn lemma_filled(board: [[Option<Piece>; 8]; 8], n: int)
        requires
            0 <= n <= 64,
        ensures
            Board::filled(board, n).wf(),
            forall|a: int, b: int|
                #[trigger] Board::filled(board, n).piece_at(a, b) == (if on_board(a, b) && a + 8 * b < n {
                    board[b][a]
                } else {
                    None
                }),
            Board::filled(board, n).turn() == Color::White,
            Board::filled(board, n).castling() == Castling::all(),
            Board::filled(board, n).en_passant_target() == None::<(u8, u8)>,
            Board::filled(board, n).halfmove() == 0,
            Board::filled(board, n).fullmove() == 1,
        decreases n,
    {
        Board::lemma_start();
        if n > 0 {
            Board::lemma_filled(board, n - 1);
            Board::filled(board, n - 1).lemma_put(
                ((n - 1) % 8) as u8,
                ((n - 1) / 8) as u8,
                board[(n - 1) / 8][(n - 1) % 8],
            );
        }
    }

    /// What the position that a description says holds: on every square the
    /// piece that the description names, and beside the pieces what it says.
    pub proof fn lemma_described(fen: Fen)
        requires
            Board::from_fen_spec(fen) is Ok,
        ensures
            Board::described(fen).wf(),
            forall|a: int, b: int|
                #[trigger] Board::described(fen).piece_at(a, b) == (if on_board(a, b) {
                    fen.board[b][a]
                } else {
                    None
                }),
            Board::described(fen).turn() == fen.turn,
            Board::described(fen).castling() == fen.castling,
            Board::described(fen).en_passant_target() == fen.en_passant,
            Board::described(fen).halfmove() == fen.halfmove,
            Board::described(fen).fullmove() == fen.fullmove,
    {
        Board::lemma_filled(fen.board, 64);
        Board::filled(fen.board, 64).lemma_with_state(
            fen.turn,
            fen.castling,
            fen.en_passant,
            fen.halfmove,
            fen.fullmove,
        );
    }

    /// The position that a description says: every piece is set on its square
    /// and the state beside the pieces is taken over. An en-passant target off
    /// the board is refused with the coordinate that is out of range.
    pub fn from_fen(fen: &Fen) -> (r: Result<Board, BoardError>)
        ensures
            r == Board::from_fen_spec(*fen),
            r matches Ok(b) ==> {
                &&& forall|a: int, b2: int|
                    #[trigger] b.piece_at(a, b2) == (if on_board(a, b2) {
                        fen.board[b2][a]
                    } else {
                        None
                    })
                &&& b.turn() == fen.turn
                &&& b.castling() == fen.castling
                &&& b.en_passant_target() == fen.en_passant
                &&& b.halfmove() == fen.halfmove
                &&& b.fullmove() == fen.fullmove
            },
    {
        if let Some((ex, ey)) = fen.en_passant {
            match check_xy(ex, ey) {
                Ok(_) => {},
                Err(e) => {
                    return Err(e);
                },
            }
        }
        let mut board: Board = Board::empty();
        let mut n: u8 = 0;
        while n < 64
            invariant
                n <= 64,
                board == Board::filled(fen.board, n as int),
            decreases 64 - n,
        {
            let x: u8 = n % 8;
            let y: u8 = n / 8;
            let _ = board.set(x, y, fen.board[y as usize][x as usize]);
            n += 1;
        }
        proof {
            Board::lemma_described(*fen);
        }
        Ok(board.restate(fen.turn, fen.castling, fen.en_passant, fen.halfmove, fen.fullmove))
    }

    /// The position that a text in Forsyth-Edwards notation describes, or why
    /// the text describes none.
    pub fn fen(text: &str) -> (r: Result<Board, FenError>)
        ensures
            r == Board::fen_spec(text@),
    {
        let fen: Fen = match parse(text) {
            Ok(f) => f,
            Err(e) => {
                return Err(e);
            },
        };
        match Board::from_fen(&fen) {
            Ok(b) => Ok(b),
            Err(_) => Err(FenError::InvalidEnPassant),
        }
    }
}

} // verus!
