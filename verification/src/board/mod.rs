//! The position: where the pieces stand, whose move it is, and what is left of
//! the castling and en-passant rights.

use vstd::prelude::*;
use crate::bit::{self, lemma_occupied, lemma_xy_mask, occupied, on_board, xy_mask};
use crate::color::Color;
use crate::error::BoardError;
use crate::moves::Castling;
use crate::piece::{Piece, PieceKind};
use crate::uci::{self, one_spec, UciError};

pub mod movegen;
pub mod render;

verus! {

/// What must hold of the eight masks of a position: no square is of both
/// sides, no square holds two kinds of piece, and the squares that hold a
/// piece of some kind are those that hold a piece of some side.
pub open spec fn masks_wf(white: u64, black: u64, pawns: u64, knights: u64, bishops: u64, rooks: u64, queens: u64, kings: u64) -> bool {
    &&& white & black == 0
    &&& pawns & knights == 0
    &&& pawns & bishops == 0
    &&& pawns & rooks == 0
    &&& pawns & queens == 0
    &&& pawns & kings == 0
    &&& knights & bishops == 0
    &&& knights & rooks == 0
    &&& knights & queens == 0
    &&& knights & kings == 0
    &&& bishops & rooks == 0
    &&& bishops & queens == 0
    &&& bishops & kings == 0
    &&& rooks & queens == 0
    &&& rooks & kings == 0
    &&& queens & kings == 0
    &&& white | black == pawns | knights | bishops | rooks | queens | kings
}

/// `mask` after the square `m` was vacated and then, if `on`, taken again.
pub open spec fn lay(mask: u64, m: u64, on: bool) -> u64 {
    if on {
        mask & !m | m
    } else {
        mask & !m
    }
}

proof fn lemma_masks_placed(white: u64, black: u64, pawns: u64, knights: u64, bishops: u64, rooks: u64, queens: u64, kings: u64, m: u64)
    by (bit_vector)
    requires
        masks_wf(white, black, pawns, knights, bishops, rooks, queens, kings),
    ensures
        masks_wf(
            white & !m,
            black & !m,
            pawns & !m,
            knights & !m,
            bishops & !m,
            rooks & !m,
            queens & !m,
            kings & !m,
        ),
        masks_wf(
            white & !m | m,
            black & !m,
            pawns & !m | m,
            knights & !m,
            bishops & !m,
            rooks & !m,
            queens & !m,
            kings & !m,
        ),
        masks_wf(
            white & !m | m,
            black & !m,
            pawns & !m,
            knights & !m | m,
            bishops & !m,
            rooks & !m,
            queens & !m,
            kings & !m,
        ),
        masks_wf(
            white & !m | m,
            black & !m,
            pawns & !m,
            knights & !m,
            bishops & !m | m,
            rooks & !m,
            queens & !m,
            kings & !m,
        ),
        masks_wf(
            white & !m | m,
            black & !m,
            pawns & !m,
            knights & !m,
            bishops & !m,
            rooks & !m | m,
            queens & !m,
            kings & !m,
        ),
        masks_wf(
            white & !m | m,
            black & !m,
            pawns & !m,
            knights & !m,
            bishops & !m,
            rooks & !m,
            queens & !m | m,
            kings & !m,
        ),
        masks_wf(
            white & !m | m,
            black & !m,
            pawns & !m,
            knights & !m,
            bishops & !m,
            rooks & !m,
            queens & !m,
            kings & !m | m,
        ),
        masks_wf(
            white & !m,
            black & !m | m,
            pawns & !m | m,
            knights & !m,
            bishops & !m,
            rooks & !m,
            queens & !m,
            kings & !m,
        ),
        masks_wf(
            white & !m,
            black & !m | m,
            pawns & !m,
            knights & !m | m,
            bishops & !m,
            rooks & !m,
            queens & !m,
            kings & !m,
        ),
        masks_wf(
            white & !m,
            black & !m | m,
            pawns & !m,
            knights & !m,
            bishops & !m | m,
            rooks & !m,
            queens & !m,
            kings & !m,
        ),
        masks_wf(
            white & !m,
            black & !m | m,
            pawns & !m,
            knights & !m,
            bishops & !m,
            rooks & !m | m,
            queens & !m,
            kings & !m,
        ),
        masks_wf(
            white & !m,
            black & !m | m,
            pawns & !m,
            knights & !m,
            bishops & !m,
            rooks & !m,
            queens & !m | m,
            kings & !m,
        ),
        masks_wf(
            white & !m,
            black & !m | m,
            pawns & !m,
            knights & !m,
            bishops & !m,
            rooks & !m,
            queens & !m,
            kings & !m | m,
        ),
{
}

proof fn lemma_start_bits(j: u64)
    by (bit_vector)
    requires
        j < 64,
    ensures
        (0x000000000000ffffu64 >> j) & 1 == 1 <==> j < 16,
        (0xffff000000000000u64 >> j) & 1 == 1 <==> j >= 48,
        (0x00ff00000000ff00u64 >> j) & 1 == 1 <==> 8 <= j < 16 || 48 <= j < 56,
        (0x4200000000000042u64 >> j) & 1 == 1 <==> j == 1 || j == 6 || j == 57 || j == 62,
        (0x2400000000000024u64 >> j) & 1 == 1 <==> j == 2 || j == 5 || j == 58 || j == 61,
        (0x8100000000000081u64 >> j) & 1 == 1 <==> j == 0 || j == 7 || j == 56 || j == 63,
        (0x0800000000000008u64 >> j) & 1 == 1 <==> j == 3 || j == 59,
        (0x1000000000000010u64 >> j) & 1 == 1 <==> j == 4 || j == 60,
        masks_wf(
            0x000000000000ffff,
            0xffff000000000000,
            0x00ff00000000ff00,
            0x4200000000000042,
            0x2400000000000024,
            0x8100000000000081,
            0x0800000000000008,
            0x1000000000000010,
        ),
        masks_wf(0, 0, 0, 0, 0, 0, 0, 0),
        0u64 | 0u64 == 0,
{
}

/// The result of checking a pair of coordinates: the file first, then the rank.
pub open spec fn check_xy_spec(x: u8, y: u8) -> Result<(), BoardError> {
    if x > 7 {
        Err(BoardError::InvalidXCoord(x))
    } else if y > 7 {
        Err(BoardError::InvalidYCoord(y))
    } else {
        Ok(())
    }
}

/// Accepts the coordinates of a square of the board; names the first
/// coordinate that is out of range otherwise.
#[verifier::when_used_as_spec(check_xy_spec)]
pub fn check_xy(x: u8, y: u8) -> (r: Result<(), BoardError>)
    ensures
        r == check_xy_spec(x, y),
        r is Ok <==> on_board(x as int, y as int),
{
    if x > 7 {
        Err(BoardError::InvalidXCoord(x))
    } else if y > 7 {
        Err(BoardError::InvalidYCoord(y))
    } else {
        Ok(())
    }
}

/// The kind of piece that stands on file `x` of a back rank at the start.
pub open spec fn back_rank(x: int) -> PieceKind {
    if x == 0 || x == 7 {
        PieceKind::Rook
    } else if x == 1 || x == 6 {
        PieceKind::Knight
    } else if x == 2 || x == 5 {
        PieceKind::Bishop
    } else if x == 3 {
        PieceKind::Queen
    } else {
        PieceKind::King
    }
}

/// The piece that stands on `(x, y)` at the start of a game.
pub open spec fn start_piece(x: int, y: int) -> Option<Piece> {
    if !on_board(x, y) {
        None
    } else if y == 0 {
        Some(Piece { kind: back_rank(x), color: Color::White })
    } else if y == 1 {
        Some(Piece { kind: PieceKind::Pawn, color: Color::White })
    } else if y == 6 {
        Some(Piece { kind: PieceKind::Pawn, color: Color::Black })
    } else if y == 7 {
        Some(Piece { kind: back_rank(x), color: Color::Black })
    } else {
        None
    }
}

/// A chess position.
#[derive(Clone, Copy, Debug, PartialEq, Eq, Hash)]
pub struct Board {
    white: u64,
    black: u64,
    pawns: u64,
    knights: u64,
    bishops: u64,
    rooks: u64,
    queens: u64,
    kings: u64,
    turn: Color,
    castling: Castling,
    en_passant_target: Option<(u8, u8)>,
    halfmove: u32,
    fullmove: u32,
}

impl Board {
    /// The squares that hold a white piece.
    pub closed spec fn white_spec(&self) -> u64 {
        self.white
    }

    /// The squares that hold a white piece.
    #[verifier::when_used_as_spec(white_spec)]
    pub fn white(&self) -> (r: u64)
        ensures
            r == self.white_spec(),
    {
        self.white
    }

    /// The squares that hold a black piece.
    pub closed spec fn black_spec(&self) -> u64 {
        self.black
    }

    /// The squares that hold a black piece.
    #[verifier::when_used_as_spec(black_spec)]
    pub fn black(&self) -> (r: u64)
        ensures
            r == self.black_spec(),
    {
        self.black
    }

    /// The squares that hold a pawn, of either side.
    pub closed spec fn pawns_spec(&self) -> u64 {
        self.pawns
    }

    /// The squares that hold a pawn, of either side.
    #[verifier::when_used_as_spec(pawns_spec)]
    pub fn pawns(&self) -> (r: u64)
        ensures
            r == self.pawns_spec(),
    {
        self.pawns
    }

    /// The squares that hold a knight, of either side.
    pub closed spec fn knights_spec(&self) -> u64 {
        self.knights
    }

    /// The squares that hold a knight, of either side.
    #[verifier::when_used_as_spec(knights_spec)]
    pub fn knights(&self) -> (r: u64)
        ensures
            r == self.knights_spec(),
    {
        self.knights
    }

    /// The squares that hold a bishop, of either side.
    pub closed spec fn bishops_spec(&self) -> u64 {
        self.bishops
    }

    /// The squares that hold a bishop, of either side.
    #[verifier::when_used_as_spec(bishops_spec)]
    pub fn bishops(&self) -> (r: u64)
        ensures
            r == self.bishops_spec(),
    {
        self.bishops
    }

    /// The squares that hold a rook, of either side.
    pub closed spec fn rooks_spec(&self) -> u64 {
        self.rooks
    }

    /// The squares that hold a rook, of either side.
    #[verifier::when_used_as_spec(rooks_spec)]
    pub fn rooks(&self) -> (r: u64)
        ensures
            r == self.rooks_spec(),
    {
        self.rooks
    }

    /// The squares that hold a queen, of either side.
    pub closed spec fn queens_spec(&self) -> u64 {
        self.queens
    }

    /// The squares that hold a queen, of either side.
    #[verifier::when_used_as_spec(queens_spec)]
    pub fn queens(&self) -> (r: u64)
        ensures
            r == self.queens_spec(),
    {
        self.queens
    }

    /// The squares that hold a king, of either side.
    pub closed spec fn kings_spec(&self) -> u64 {
        self.kings
    }

    /// The squares that hold a king, of either side.
    #[verifier::when_used_as_spec(kings_spec)]
    pub fn kings(&self) -> (r: u64)
        ensures
            r == self.kings_spec(),
    {
        self.kings
    }

    /// The side to move.
    pub closed spec fn turn_spec(&self) -> Color {
        self.turn
    }

    /// The side to move.
    #[verifier::when_used_as_spec(turn_spec)]
    pub fn turn(&self) -> (r: Color)
        ensures
            r == self.turn_spec(),
    {
        self.turn
    }

    /// The castling rights that are left.
    pub closed spec fn castling_spec(&self) -> Castling {
        self.castling
    }

    /// The castling rights that are left.
    #[verifier::when_used_as_spec(castling_spec)]
    pub fn castling(&self) -> (r: Castling)
        ensures
            r == self.castling_spec(),
    {
        self.castling
    }

    /// The square that a pawn may capture onto in passing, if the last move was a pawn's double step.
    pub closed spec fn en_passant_target_spec(&self) -> Option<(u8, u8)> {
        self.en_passant_target
    }

    /// The square that a pawn may capture onto in passing, if the last move was a pawn's double step.
    #[verifier::when_used_as_spec(en_passant_target_spec)]
    pub fn en_passant_target(&self) -> (r: Option<(u8, u8)>)
        ensures
            r == self.en_passant_target_spec(),
    {
        self.en_passant_target
    }

    /// The number of moves since the last capture or pawn move.
    pub closed spec fn halfmove_spec(&self) -> u32 {
        self.halfmove
    }

    /// The number of moves since the last capture or pawn move.
    #[verifier::when_used_as_spec(halfmove_spec)]
    pub fn halfmove(&self) -> (r: u32)
        ensures
            r == self.halfmove_spec(),
    {
        self.halfmove
    }

    /// The number of the move, which grows after each move of black.
    pub closed spec fn fullmove_spec(&self) -> u32 {
        self.fullmove
    }

    /// The number of the move, which grows after each move of black.
    #[verifier::when_used_as_spec(fullmove_spec)]
    pub fn fullmove(&self) -> (r: u32)
        ensures
            r == self.fullmove_spec(),
    {
        self.fullmove
    }

    /// What holds of every position: the masks fit together and the en-passant
    /// target, if there is one, is a square of the board.
    #[verifier::type_invariant]
    pub open spec fn wf(&self) -> bool {
        &&& masks_wf(
            self.white(),
            self.black(),
            self.pawns(),
            self.knights(),
            self.bishops(),
            self.rooks(),
            self.queens(),
            self.kings(),
        )
        &&& match self.en_passant_target() {
            Some((x, y)) => x < 8 && y < 8,
            None => true,
        }
    }

    /// The squares that hold a piece of the given kind.
    pub open spec fn role(&self, kind: PieceKind) -> u64 {
        match kind {
            PieceKind::Pawn => self.pawns(),
            PieceKind::Knight => self.knights(),
            PieceKind::Bishop => self.bishops(),
            PieceKind::Rook => self.rooks(),
            PieceKind::Queen => self.queens(),
            PieceKind::King => self.kings(),
        }
    }

    /// The squares that hold a piece of the given side.
    pub open spec fn side(&self, color: Color) -> u64 {
        match color {
            Color::White => self.white(),
            Color::Black => self.black(),
        }
    }

    /// The squares that hold a piece.
    pub open spec fn taken(&self) -> u64 {
        self.white() | self.black()
    }

    /// The squares that hold a piece of the given kind and side.
    pub open spec fn pieces(&self, kind: PieceKind, color: Color) -> u64 {
        self.role(kind) & self.side(color)
    }

    /// The kind of the piece on `(x, y)`, if there is one.
    pub open spec fn kind_at(&self, x: int, y: int) -> Option<PieceKind> {
        if occupied(self.pawns(), x, y) {
            Some(PieceKind::Pawn)
        } else if occupied(self.knights(), x, y) {
            Some(PieceKind::Knight)
        } else if occupied(self.bishops(), x, y) {
            Some(PieceKind::Bishop)
        } else if occupied(self.rooks(), x, y) {
            Some(PieceKind::Rook)
        } else if occupied(self.queens(), x, y) {
            Some(PieceKind::Queen)
        } else if occupied(self.kings(), x, y) {
            Some(PieceKind::King)
        } else {
            None
        }
    }

    /// The side of the piece on `(x, y)`, where there is one.
    pub open spec fn color_at(&self, x: int, y: int) -> Color {
        if occupied(self.black(), x, y) {
            Color::Black
        } else {
            Color::White
        }
    }

    /// The piece on `(x, y)`, if there is one. No piece stands off the board.
    pub open spec fn piece_at(&self, x: int, y: int) -> Option<Piece> {
        match self.kind_at(x, y) {
            Some(kind) => Some(Piece { kind, color: self.color_at(x, y) }),
            None => None,
        }
    }

    /// The position with no piece on the board: white to move, every castling
    /// right held, no en-passant target, the clocks at their start.
    pub closed spec fn empty_spec() -> Board {
        Board {
            white: 0,
            black: 0,
            pawns: 0,
            knights: 0,
            bishops: 0,
            rooks: 0,
            queens: 0,
            kings: 0,
            turn: Color::White,
            castling: Castling::all(),
            en_passant_target: None,
            halfmove: 0,
            fullmove: 1,
        }
    }

    /// The position at the start of a game.
    pub closed spec fn new_spec() -> Board {
        Board {
            white: 0x000000000000ffff,
            black: 0xffff000000000000,
            pawns: 0x00ff00000000ff00,
            knights: 0x4200000000000042,
            bishops: 0x2400000000000024,
            rooks: 0x8100000000000081,
            queens: 0x0800000000000008,
            kings: 0x1000000000000010,
            ..Board::empty_spec()
        }
    }

    /// The position with `piece` on `(x, y)` in place of what stood there, or
    /// with that square vacated when `piece` is `None`.
    pub closed spec fn put(self, x: u8, y: u8, piece: Option<Piece>) -> Board {
        let m = xy_mask(x, y);
        Board {
            white: lay(self.white, m, piece is Some && piece->0.color == Color::White),
            black: lay(self.black, m, piece is Some && piece->0.color == Color::Black),
            pawns: lay(self.pawns, m, piece is Some && piece->0.kind == PieceKind::Pawn),
            knights: lay(self.knights, m, piece is Some && piece->0.kind == PieceKind::Knight),
            bishops: lay(self.bishops, m, piece is Some && piece->0.kind == PieceKind::Bishop),
            rooks: lay(self.rooks, m, piece is Some && piece->0.kind == PieceKind::Rook),
            queens: lay(self.queens, m, piece is Some && piece->0.kind == PieceKind::Queen),
            kings: lay(self.kings, m, piece is Some && piece->0.kind == PieceKind::King),
            ..self
        }
    }

    /// The position with the state beside the pieces replaced.
    pub closed spec fn with_state(
        self,
        turn: Color,
        castling: Castling,
        en_passant_target: Option<(u8, u8)>,
        halfmove: u32,
        fullmove: u32,
    ) -> Board {
        Board { turn, castling, en_passant_target, halfmove, fullmove, ..self }
    }

    /// What `empty` and `new` build.
    pub proof fn lemma_start()
        ensures
            Board::empty_spec().wf(),
            Board::empty_spec().taken() == 0,
            forall|x: int, y: int| #[trigger] Board::empty_spec().piece_at(x, y) == None::<Piece>,
            Board::empty_spec().white() == 0,
            Board::empty_spec().black() == 0,
            Board::empty_spec().pawns() == 0,
            Board::empty_spec().knights() == 0,
            Board::empty_spec().bishops() == 0,
            Board::empty_spec().rooks() == 0,
            Board::empty_spec().queens() == 0,
            Board::empty_spec().kings() == 0,
            Board::empty_spec().turn() == Color::White,
            Board::empty_spec().castling() == Castling::all(),
            Board::empty_spec().en_passant_target() == None::<(u8, u8)>,
            Board::empty_spec().halfmove() == 0,
            Board::empty_spec().fullmove() == 1,
            Board::new_spec().wf(),
            forall|x: int, y: int| #[trigger] Board::new_spec().piece_at(x, y) == start_piece(x, y),
            Board::new_spec().white() == 0x000000000000ffff,
            Board::new_spec().black() == 0xffff000000000000,
            Board::new_spec().pawns() == 0x00ff00000000ff00,
            Board::new_spec().knights() == 0x4200000000000042,
            Board::new_spec().bishops() == 0x2400000000000024,
            Board::new_spec().rooks() == 0x8100000000000081,
            Board::new_spec().queens() == 0x0800000000000008,
            Board::new_spec().kings() == 0x1000000000000010,
            Board::new_spec().turn() == Color::White,
            Board::new_spec().castling() == Castling::all(),
            Board::new_spec().en_passant_target() == None::<(u8, u8)>,
            Board::new_spec().halfmove() == 0,
            Board::new_spec().fullmove() == 1,
    {
        lemma_start_bits(0);
        assert forall|x: int, y: int| #[trigger] Board::empty_spec().piece_at(x, y) == None::<Piece> by {
            lemma_occupied(0, 0, x, y);
        }
        assert forall|x: int, y: int| #[trigger] Board::new_spec().piece_at(x, y) == start_piece(x, y) by {
            if on_board(x, y) {
                lemma_start_bits((x + 8 * y) as u64);
            }
        }
    }

    /// What `put` does: the piece on `(x, y)` is replaced, every other square
    /// and the state beside the pieces stay, and the result is a position.
    pub proof fn lemma_put(self, x: u8, y: u8, piece: Option<Piece>)
        requires
            x < 8,
            y < 8,
            self.wf(),
        ensures
            self.put(x, y, piece).wf(),
            forall|a: int, b: int|
                #[trigger] self.put(x, y, piece).piece_at(a, b) == (if a == x && b == y {
                    piece
                } else {
                    self.piece_at(a, b)
                }),
            self.put(x, y, piece).turn() == self.turn(),
            self.put(x, y, piece).castling() == self.castling(),
            self.put(x, y, piece).en_passant_target() == self.en_passant_target(),
            self.put(x, y, piece).halfmove() == self.halfmove(),
            self.put(x, y, piece).fullmove() == self.fullmove(),
            forall|kind: PieceKind|
                #[trigger] self.put(x, y, piece).role(kind) == lay(
                    self.role(kind),
                    xy_mask(x, y),
                    piece is Some && piece->0.kind == kind,
                ),
            forall|color: Color|
                #[trigger] self.put(x, y, piece).side(color) == lay(
                    self.side(color),
                    xy_mask(x, y),
                    piece is Some && piece->0.color == color,
                ),
    {
        let m = xy_mask(x, y);
        let r = self.put(x, y, piece);
        lemma_masks_placed(
            self.white,
            self.black,
            self.pawns,
            self.knights,
            self.bishops,
            self.rooks,
            self.queens,
            self.kings,
            m,
        );
        assert forall|a: int, b: int|
            #[trigger] r.piece_at(a, b) == (if a == x && b == y {
                piece
            } else {
                self.piece_at(a, b)
            }) by {
            lemma_xy_mask(x, y, a, b);
            lemma_lay(self.white, m, piece is Some && piece->0.color == Color::White, a, b);
            lemma_lay(self.black, m, piece is Some && piece->0.color == Color::Black, a, b);
            lemma_lay(self.pawns, m, piece is Some && piece->0.kind == PieceKind::Pawn, a, b);
            lemma_lay(self.knights, m, piece is Some && piece->0.kind == PieceKind::Knight, a, b);
            lemma_lay(self.bishops, m, piece is Some && piece->0.kind == PieceKind::Bishop, a, b);
            lemma_lay(self.rooks, m, piece is Some && piece->0.kind == PieceKind::Rook, a, b);
            lemma_lay(self.queens, m, piece is Some && piece->0.kind == PieceKind::Queen, a, b);
            lemma_lay(self.kings, m, piece is Some && piece->0.kind == PieceKind::King, a, b);
        }
    }

    /// What `with_state` does: the pieces stay where they are and the state
    /// beside them is what was given.
    pub proof fn lemma_with_state(
        self,
        turn: Color,
        castling: Castling,
        en_passant_target: Option<(u8, u8)>,
        halfmove: u32,
        fullmove: u32,
    )
        requires
            self.wf(),
            en_passant_target matches Some(t) ==> t.0 < 8 && t.1 < 8,
        ensures
            ({
                let r = self.with_state(turn, castling, en_passant_target, halfmove, fullmove);
                &&& r.wf()
                &&& forall|a: int, b: int| #[trigger] r.piece_at(a, b) == self.piece_at(a, b)
                &&& forall|kind: PieceKind| #[trigger] r.role(kind) == self.role(kind)
                &&& forall|color: Color| #[trigger] r.side(color) == self.side(color)
                &&& r.turn() == turn
                &&& r.castling() == castling
                &&& r.en_passant_target() == en_passant_target
                &&& r.halfmove() == halfmove
                &&& r.fullmove() == fullmove
            }),
    {
    }

    /// The position with no piece on the board.
    #[verifier::when_used_as_spec(empty_spec)]
    pub fn empty() -> (r: Board)
        ensures
            r == Board::empty_spec(),
            forall|x: int, y: int| #[trigger] r.piece_at(x, y) == None::<Piece>,
            r.turn() == Color::White,
            r.castling() == Castling::all(),
            r.en_passant_target() == None::<(u8, u8)>,
            r.halfmove() == 0,
            r.fullmove() == 1,
    {
        proof {
            Board::lemma_start();
        }
        Board {
            white: 0,
            black: 0,
            pawns: 0,
            knights: 0,
            bishops: 0,
            rooks: 0,
            queens: 0,
            kings: 0,
            turn: Color::White,
            castling: Castling::all(),
            en_passant_target: None,
            halfmove: 0,
            fullmove: 1,
        }
    }

    /// The position at the start of a game: the sixteen pieces of each side on
    /// their home squares, white to move, every castling right held.
    #[verifier::when_used_as_spec(new_spec)]
    pub fn new() -> (r: Board)
        ensures
            r == Board::new_spec(),
            forall|x: int, y: int| #[trigger] r.piece_at(x, y) == start_piece(x, y),
            r.turn() == Color::White,
            r.castling() == Castling::all(),
            r.en_passant_target() == None::<(u8, u8)>,
            r.halfmove() == 0,
            r.fullmove() == 1,
    {
        proof {
            Board::lemma_start();
        }
        Board {
            white: 0x000000000000ffff,
            black: 0xffff000000000000,
            pawns: 0x00ff00000000ff00,
            knights: 0x4200000000000042,
            bishops: 0x2400000000000024,
            rooks: 0x8100000000000081,
            queens: 0x0800000000000008,
            kings: 0x1000000000000010,
            turn: Color::White,
            castling: Castling::all(),
            en_passant_target: None,
            halfmove: 0,
            fullmove: 1,
        }
    }

    /// The piece on `(x, y)`, or the coordinate that is out of range.
    pub fn get(&self, x: u8, y: u8) -> (r: Result<Option<Piece>, BoardError>)
        ensures
            r == (match check_xy(x, y) {
                Ok(_) => Ok(self.piece_at(x as int, y as int)),
                Err(e) => Err(e),
            }),
    {
        match check_xy(x, y) {
            Ok(_) => {},
            Err(e) => {
                return Err(e);
            },
        }
        let color: Color = if bit::get(self.black, x, y) {
            Color::Black
        } else {
            Color::White
        };
        let kind: Option<PieceKind> = if bit::get(self.pawns, x, y) {
            Some(PieceKind::Pawn)
        } else if bit::get(self.knights, x, y) {
            Some(PieceKind::Knight)
        } else if bit::get(self.bishops, x, y) {
            Some(PieceKind::Bishop)
        } else if bit::get(self.rooks, x, y) {
            Some(PieceKind::Rook)
        } else if bit::get(self.queens, x, y) {
            Some(PieceKind::Queen)
        } else if bit::get(self.kings, x, y) {
            Some(PieceKind::King)
        } else {
            None
        };
        match kind {
            Some(kind) => Ok(Some(Piece { kind, color })),
            None => Ok(None),
        }
    }

    /// Puts `piece` on `(x, y)` in place of what stood there, or vacates the
    /// square when `piece` is `None`. Every other square and the state beside
    /// the pieces stay as they were. With a coordinate out of range nothing
    /// changes and the coordinate is named.
    pub fn set(&mut self, x: u8, y: u8, piece: Option<Piece>) -> (r: Result<(), BoardError>)
        ensures
            r == check_xy(x, y),
            r is Ok ==> *final(self) == old(self).put(x, y, piece),
            r is Ok ==> forall|a: int, b: int|
                #[trigger] final(self).piece_at(a, b) == (if a == x && b == y {
                    piece
                } else {
                    old(self).piece_at(a, b)
                }),
            r is Err ==> *final(self) == *old(self),
            final(self).turn() == old(self).turn(),
            final(self).castling() == old(self).castling(),
            final(self).en_passant_target() == old(self).en_passant_target(),
            final(self).halfmove() == old(self).halfmove(),
            final(self).fullmove() == old(self).fullmove(),
    {
        match check_xy(x, y) {
            Ok(_) => {},
            Err(e) => {
                return Err(e);
            },
        }
        proof {
            use_type_invariant(&*self);
            self.lemma_put(x, y, piece);
        }
        let m: u64 = bit::xy(x, y);
        let mut white: u64 = self.white & !m;
        let mut black: u64 = self.black & !m;
        let mut pawns: u64 = self.pawns & !m;
        let mut knights: u64 = self.knights & !m;
        let mut bishops: u64 = self.bishops & !m;
        let mut rooks: u64 = self.rooks & !m;
        let mut queens: u64 = self.queens & !m;
        let mut kings: u64 = self.kings & !m;
        if let Some(Piece { kind, color }) = piece {
            match kind {
                PieceKind::Pawn => {
                    pawns = pawns | m;
                },
                PieceKind::Knight => {
                    knights = knights | m;
                },
                PieceKind::Bishop => {
                    bishops = bishops | m;
                },
                PieceKind::Rook => {
                    rooks = rooks | m;
                },
                PieceKind::Queen => {
                    queens = queens | m;
                },
                PieceKind::King => {
                    kings = kings | m;
                },
            }
            match color {
                Color::White => {
                    white = white | m;
                },
                Color::Black => {
                    black = black | m;
                },
            }
        }
        *self = Board {
            white,
            black,
            pawns,
            knights,
            bishops,
            rooks,
            queens,
            kings,
            turn: self.turn,
            castling: self.castling,
            en_passant_target: self.en_passant_target,
            halfmove: self.halfmove,
            fullmove: self.fullmove,
        };
        Ok(())
    }

    /// The piece on the square that `uci` names, such as `e4`; or why the text
    /// names no square.
    pub fn get_uci(&self, uci: &str) -> (r: Result<Option<Piece>, UciError>)
        ensures
            r == (match one_spec(uci@) {
                Ok(sq) => Ok(self.piece_at(sq.0 as int, sq.1 as int)),
                Err(e) => Err(e),
            }),
    {
        let (x, y) = match uci::one(uci) {
            Ok(sq) => sq,
            Err(e) => {
                return Err(e);
            },
        };
        match self.get(x, y) {
            Ok(p) => Ok(p),
            Err(_) => Ok(None),
        }
    }

    /// Puts `piece` on the square that `uci` names, such as `e4`, as `set`
    /// does; where the text names no square nothing changes.
    pub fn set_uci(&mut self, uci: &str, piece: Option<Piece>) -> (r: Result<(), UciError>)
        ensures
            match one_spec(uci@) {
                Ok(sq) => r is Ok && *final(self) == old(self).put(sq.0, sq.1, piece),
                Err(e) => r == Err::<(), UciError>(e) && *final(self) == *old(self),
            },
    {
        let (x, y) = match uci::one(uci) {
            Ok(sq) => sq,
            Err(e) => {
                return Err(e);
            },
        };
        let _ = self.set(x, y, piece);
        Ok(())
    }
}

/// Square by square, what `lay` does.
pub proof fn lemma_lay(mask: u64, m: u64, on: bool, a: int, b: int)
    ensures
        occupied(lay(mask, m, on), a, b) <==> (if occupied(m, a, b) {
            on
        } else {
            occupied(mask, a, b)
        }),
{
    lemma_occupied(mask, !m, a, b);
    lemma_occupied(m, 0, a, b);
    lemma_occupied(mask & !m, m, a, b);
}

impl Default for Board {
    fn default() -> (r: Board)
        ensures
            r == Board::empty_spec(),
    {
        Board::empty()
    }
}

} // verus!
