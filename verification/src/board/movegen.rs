//! Attacks, check, and the legality and the making of moves.

use vstd::prelude::*;
use super::{check_xy, Board};
use crate::bit::{self, lemma_nonzero_square, lemma_occupied, occupied, on_board, xy_mask};
use crate::color::Color;
use crate::error::BoardError;
use crate::moves::Castling;
use crate::piece::{
    self, attacks, bishop_reach, king_reach, knight_reach, lemma_attacks_by_one, pawn_hits,
    queen_reach, reach, rook_reach, Piece, PieceKind,
};

verus! {

/// The change of rank when a pawn of `color` steps forward.
pub open spec fn forward(color: Color) -> int {
    match color {
        Color::White => 1,
        Color::Black => -1,
    }
}

/// The rank on which the king and the rooks of `color` start.
pub open spec fn back_rank_of(color: Color) -> u8 {
    match color {
        Color::White => 0,
        Color::Black => 7,
    }
}

/// The rank on which a pawn of `color` is promoted.
pub open spec fn last_rank_of(color: Color) -> u8 {
    match color {
        Color::White => 7,
        Color::Black => 0,
    }
}

/// The corner on which the rook stands that castles with a king that goes to `to`.
pub open spec fn rook_corner(to: (u8, u8)) -> (u8, u8) {
    (
        if to.0 == 6 {
            7u8
        } else {
            0u8
        },
        to.1,
    )
}

/// The square on which that rook lands, next to the king and on its other side.
pub open spec fn rook_landing(to: (u8, u8)) -> (u8, u8) {
    (
        if to.0 == 6 {
            5u8
        } else {
            3u8
        },
        to.1,
    )
}

/// What a piece becomes when it arrives on `to`: a pawn on its last rank
/// becomes a queen, every other piece stays what it is.
pub open spec fn promoted(p: Piece, to: (u8, u8)) -> Piece {
    if p.kind == PieceKind::Pawn && to.1 == last_rank_of(p.color) {
        Piece { kind: PieceKind::Queen, color: p.color }
    } else {
        p
    }
}

/// The en-passant target after `p` went from `from` to `to`: the square that a
/// pawn passed over with a double step, and none after any other move.
pub open spec fn target_after(p: Piece, from: (u8, u8), to: (u8, u8)) -> Option<(u8, u8)> {
    if p.kind == PieceKind::Pawn && from.0 == to.0 && (to.1 - from.1 == 2 || from.1 - to.1 == 2) {
        Some((from.0, ((from.1 + to.1) / 2) as u8))
    } else {
        None
    }
}

/// The castling rights after `p` went from `from` to `to`: a king's move gives
/// up both rights of its side, and a move from or onto a rook's corner gives up
/// the right that belongs to that corner.
pub open spec fn rights_after(rights: Castling, p: Piece, from: (u8, u8), to: (u8, u8)) -> Castling {
    let white_king = p.kind == PieceKind::King && p.color == Color::White;
    let black_king = p.kind == PieceKind::King && p.color == Color::Black;
    Castling {
        white_kingside: rights.white_kingside && !white_king && from != (7u8, 0u8) && to != (
            7u8,
            0u8,
        ),
        white_queenside: rights.white_queenside && !white_king && from != (0u8, 0u8) && to != (
            0u8,
            0u8,
        ),
        black_kingside: rights.black_kingside && !black_king && from != (7u8, 7u8) && to != (
            7u8,
            7u8,
        ),
        black_queenside: rights.black_queenside && !black_king && from != (0u8, 7u8) && to != (
            0u8,
            7u8,
        ),
    }
}

/// A clock after one more move: it stops at the largest value that it can hold.
pub open spec fn ticked(n: u32) -> u32 {
    if n == u32::MAX {
        n
    } else {
        (n + 1) as u32
    }
}

impl Board {
    /// Whether a piece of `color` attacks `(a, b)`. A side does not attack the
    /// squares on which its own pieces stand; a pawn attacks the two squares
    /// diagonally in front of it, taken or not; rooks, bishops and queens are
    /// stopped by the first piece in their way, whose square they attack.
    pub open spec fn covers(&self, color: Color, a: int, b: int) -> bool {
        &&& !occupied(self.side(color), a, b)
        &&& {
            ||| pawn_hits(self.pieces(PieceKind::Pawn, color), forward(color), a, b)
            ||| knight_reach(self.pieces(PieceKind::Knight, color), a, b)
            ||| bishop_reach(self.pieces(PieceKind::Bishop, color), self.taken(), a, b)
            ||| rook_reach(self.pieces(PieceKind::Rook, color), self.taken(), a, b)
            ||| queen_reach(self.pieces(PieceKind::Queen, color), self.taken(), a, b)
            ||| king_reach(self.pieces(PieceKind::King, color), a, b)
        }
    }

    /// Whether a king of `color` stands on a square that the other side attacks.
    pub open spec fn in_check_spec(&self, color: Color) -> bool {
        exists|a: int, b: int|
            occupied(self.pieces(PieceKind::King, color), a, b) && self.covers(
                color.opposite(),
                a,
                b,
            )
    }

    /// Whether `(a, b)` is the en-passant target.
    pub open spec fn is_target(&self, a: int, b: int) -> bool {
        match self.en_passant_target() {
            Some(t) => t.0 == a && t.1 == b,
            None => false,
        }
    }

    /// Whether the piece on `(x, y)` reaches `(a, b)` by the way its kind moves,
    /// whatever becomes of its king: the square is not taken by its own side,
    /// and either the piece moves or captures there as `reach` says, or it is a
    /// pawn that captures onto the en-passant target.
    pub open spec fn reaches(&self, x: u8, y: u8, a: int, b: int) -> bool {
        match self.piece_at(x as int, y as int) {
            None => false,
            Some(p) => {
                &&& !occupied(self.side(p.color), a, b)
                &&& {
                    ||| reach(p, xy_mask(x, y), self.taken(), a, b)
                    ||| {
                        &&& p.kind == PieceKind::Pawn
                        &&& self.is_target(a, b)
                        &&& pawn_hits(xy_mask(x, y), forward(p.color), a, b)
                    }
                }
            },
        }
    }

    /// Whether the move is a pawn's capture in passing: the pawn steps
    /// diagonally onto the free en-passant target, and the pawn of the other
    /// side that it passes stands beside it.
    pub open spec fn takes_in_passing(&self, from: (u8, u8), to: (u8, u8)) -> bool {
        &&& self.piece_at(from.0 as int, from.1 as int) matches Some(p) && p.kind
            == PieceKind::Pawn && self.piece_at(to.0 as int, from.1 as int) == Some(
            Piece { kind: PieceKind::Pawn, color: p.color.opposite() },
        )
        &&& self.en_passant_target() == Some(to)
        &&& from.0 != to.0
        &&& self.piece_at(to.0 as int, to.1 as int) is None
    }

    /// Whether the move has the shape of castling: a king goes from its home
    /// square two files to either side.
    pub open spec fn castles(&self, from: (u8, u8), to: (u8, u8)) -> bool {
        &&& self.piece_at(from.0 as int, from.1 as int) matches Some(p) && p.kind
            == PieceKind::King && from == (4u8, back_rank_of(p.color))
        &&& to.1 == from.1
        &&& to.0 == 6 || to.0 == 2
    }

    /// Whether the rook that a castling king needs stands on its corner.
    pub open spec fn rook_waits(&self, from: (u8, u8), to: (u8, u8)) -> bool {
        self.piece_at(from.0 as int, from.1 as int) matches Some(p) && self.piece_at(
            rook_corner(to).0 as int,
            to.1 as int,
        ) == Some(Piece { kind: PieceKind::Rook, color: p.color })
    }

    /// Whether the king on `from` may castle to `to`: the move has the shape of
    /// castling, the right is still held, the rook stands on its corner, every
    /// square between king and rook is free, and the other side attacks neither
    /// the king's square nor the square it crosses nor the one it lands on.
    pub open spec fn may_castle(&self, from: (u8, u8), to: (u8, u8)) -> bool {
        let c = self.piece_at(from.0 as int, from.1 as int)->0.color;
        let h = from.1 as int;
        &&& self.castles(from, to)
        &&& if to.0 == 6 {
            self.castling().kingside(c)
        } else {
            self.castling().queenside(c)
        }
        &&& self.rook_waits(from, to)
        &&& if to.0 == 6 {
            !occupied(self.taken(), 5, h) && !occupied(self.taken(), 6, h)
        } else {
            !occupied(self.taken(), 1, h) && !occupied(self.taken(), 2, h) && !occupied(
                self.taken(),
                3,
                h,
            )
        }
        &&& !self.covers(c.opposite(), 4, h)
        &&& !self.covers(c.opposite(), rook_landing(to).0 as int, h)
        &&& !self.covers(c.opposite(), to.0 as int, h)
    }

    /// The position after the piece on `from` went to `to`.
    ///
    /// The piece leaves `from` and stands on `to` in place of what stood there;
    /// a pawn that arrives on its last rank stands there as a queen. A pawn
    /// that takes in passing also removes the pawn it passed. A king that
    /// makes a castling move takes the rook from its corner, if it stands
    /// there, to the square that the king crossed. Then it is the other side's
    /// turn, the castling rights and the en-passant target are as
    /// `rights_after` and `target_after` say, the half-move clock starts again
    /// at zero after a pawn's move or a capture and goes on by one otherwise,
    /// and the move number grows after a move of black.
    pub open spec fn after(&self, from: (u8, u8), to: (u8, u8)) -> Board {
        let p = self.piece_at(from.0 as int, from.1 as int)->0;
        let rook = Piece { kind: PieceKind::Rook, color: p.color };
        let lifted = self.put(from.0, from.1, None);
        let passed = if self.takes_in_passing(from, to) {
            lifted.put(to.0, from.1, None)
        } else {
            lifted
        };
        let rooked = if self.castles(from, to) && self.rook_waits(from, to) {
            passed.put(rook_corner(to).0, to.1, None).put(rook_landing(to).0, to.1, Some(rook))
        } else {
            passed
        };
        rooked.put(to.0, to.1, Some(promoted(p, to))).with_state(
            p.color.opposite(),
            rights_after(self.castling(), p, from, to),
            target_after(p, from, to),
            if p.kind == PieceKind::Pawn || self.piece_at(to.0 as int, to.1 as int) is Some {
                0
            } else {
                ticked(self.halfmove())
            },
            if p.color == Color::Black {
                ticked(self.fullmove())
            } else {
                self.fullmove()
            },
        )
    }

    /// What `future` answers: the first fault among a coordinate of `from` out
    /// of range, no piece on `from`, a coordinate of `to` out of range, and a
    /// piece of the mover's own side on `to`; or else the position after the move.
    pub open spec fn future_spec(&self, from: (u8, u8), to: (u8, u8)) -> Result<Board, BoardError> {
        match check_xy(from.0, from.1) {
            Err(e) => Err(e),
            Ok(_) => match self.piece_at(from.0 as int, from.1 as int) {
                None => Err(BoardError::SquareIsEmpty(from.0, from.1)),
                Some(p) => match check_xy(to.0, to.1) {
                    Err(e) => Err(e),
                    Ok(_) => if self.piece_at(to.0 as int, to.1 as int) matches Some(q) && q.color
                        == p.color {
                        Err(BoardError::SquareIsOccupied(to.0, to.1))
                    } else {
                        Ok(self.after(from, to))
                    },
                },
            },
        }
    }

    /// All the squares that `color` attacks.
    pub fn coverage(&self, color: Color) -> (r: u64)
        ensures
            forall|a: int, b: int| #[trigger] occupied(r, a, b) <==> self.covers(color, a, b),
    {
        let taken: u64 = self.white | self.black;
        let mine: u64 = match color {
            Color::White => self.white,
            Color::Black => self.black,
        };
        let p: u64 = match color {
            Color::White => piece::pawn_up_attacks(self.pawns & mine),
            Color::Black => piece::pawn_down_attacks(self.pawns & mine),
        };
        let n: u64 = piece::knight(self.knights & mine, taken);
        let b: u64 = piece::bishop(self.bishops & mine, taken);
        let r: u64 = piece::rook(self.rooks & mine, taken);
        let q: u64 = piece::queen(self.queens & mine, taken);
        let k: u64 = piece::king(self.kings & mine, taken);
        let all: u64 = p | n | b | r | q | k;
        proof {
            assert forall|x: int, y: int| #[trigger] occupied(all & !mine, x, y) <==> self.covers(color, x, y) by {
                lemma_occupied(p, n, x, y);
                lemma_occupied(p | n, b, x, y);
                lemma_occupied(p | n | b, r, x, y);
                lemma_occupied(p | n | b | r, q, x, y);
                lemma_occupied(p | n | b | r | q, k, x, y);
                lemma_occupied(all, !mine, x, y);
                lemma_occupied(mine, 0, x, y);
            }
        }
        all & !mine
    }

    /// Whether a king of `color` is attacked by the other side.
    #[verifier::when_used_as_spec(in_check_spec)]
    pub fn in_check(&self, color: Color) -> (r: bool)
        ensures
            r == self.in_check_spec(color),
    {
        let coverage: u64 = self.coverage(color.opposite());
        let mine: u64 = match color {
            Color::White => self.white,
            Color::Black => self.black,
        };
        let king: u64 = self.kings & mine;
        proof {
            lemma_nonzero_square(coverage & king);
            if coverage & king != 0 {
                let (a, b) = choose|a: int, b: int| occupied(coverage & king, a, b);
                lemma_occupied(coverage, king, a, b);
            }
            if self.in_check_spec(color) {
                let (a, b) = choose|a: int, b: int|
                    occupied(self.pieces(PieceKind::King, color), a, b) && self.covers(
                        color.opposite(),
                        a,
                        b,
                    );
                lemma_occupied(coverage, king, a, b);
            }
        }
        coverage & king != 0
    }

    /// The squares that the piece on `(x, y)` reaches by the way its kind
    /// moves, whatever becomes of its king; or the coordinate that is out of
    /// range, or that the square is empty.
    pub fn pseudo_legal(&self, x: u8, y: u8) -> (r: Result<u64, BoardError>)
        ensures
            match r {
                Ok(m) => check_xy(x, y) is Ok && self.piece_at(x as int, y as int) is Some
                    && forall|a: int, b: int| #[trigger] occupied(m, a, b) <==> self.reaches(x, y, a, b),
                Err(e) => e == (match check_xy(x, y) {
                    Err(e) => e,
                    Ok(_) => BoardError::SquareIsEmpty(x, y),
                }) && (check_xy(x, y) is Err || self.piece_at(x as int, y as int) is None),
            },
    {
        let who: Piece = match self.get(x, y) {
            Ok(Some(p)) => p,
            Ok(None) => {
                return Err(BoardError::SquareIsEmpty(x, y));
            },
            Err(e) => {
                return Err(e);
            },
        };
        let taken: u64 = self.white | self.black;
        let mine: u64 = match who.color {
            Color::White => self.white,
            Color::Black => self.black,
        };
        let plain: u64 = piece::piece(x, y, who, taken);
        let hits: u64 = match who.color {
            Color::White => piece::pawn_up_attacks(bit::xy(x, y)),
            Color::Black => piece::pawn_down_attacks(bit::xy(x, y)),
        };
        proof {
            use_type_invariant(self);
        }
        let target: u64 = match self.en_passant_target {
            Some((ex, ey)) => bit::xy(ex, ey),
            None => 0,
        };
        let passing: u64 = if who.kind == PieceKind::Pawn {
            hits & target
        } else {
            0
        };
        proof {
            assert forall|a: int, b: int|
                #[trigger] occupied(passing, a, b) <==> (who.kind == PieceKind::Pawn && self.is_target(a, b)
                    && pawn_hits(xy_mask(x, y), forward(who.color), a, b)) by {
                lemma_occupied(hits, target, a, b);
                lemma_occupied(0, 0, a, b);
            }
        }
        let m: u64 = (plain | passing) & !mine;
        proof {
            assert forall|a: int, b: int| #[trigger] occupied(m, a, b) <==> self.reaches(x, y, a, b) by {
                lemma_occupied(plain, passing, a, b);
                lemma_occupied(plain | passing, !mine, a, b);
                lemma_occupied(mine, 0, a, b);
            }
        }
        Ok(m)
    }

    /// The position with the state beside the pieces replaced.
    pub(crate) fn restate(
        self,
        turn: Color,
        castling: Castling,
        en_passant_target: Option<(u8, u8)>,
        halfmove: u32,
        fullmove: u32,
    ) -> (r: Board)
        requires
            en_passant_target matches Some(t) ==> t.0 < 8 && t.1 < 8,
        ensures
            r == self.with_state(turn, castling, en_passant_target, halfmove, fullmove),
    {
        proof {
            use_type_invariant(&self);
        }
        Board {
            white: self.white,
            black: self.black,
            pawns: self.pawns,
            knights: self.knights,
            bishops: self.bishops,
            rooks: self.rooks,
            queens: self.queens,
            kings: self.kings,
            turn,
            castling,
            en_passant_target,
            halfmove,
            fullmove,
        }
    }

    /// Makes a move with few checks, returning a new board: only the
    /// coordinates, that there is a piece to move, and that it does not land on
    /// a piece of its own side are looked at.
    pub fn future(self, from: (u8, u8), to: (u8, u8)) -> (r: Result<Board, BoardError>)
        ensures
            r == self.future_spec(from, to),
    {
        let (fx, fy) = from;
        let who: Piece = match self.get(fx, fy) {
            Ok(Some(p)) => p,
            Ok(None) => {
                return Err(BoardError::SquareIsEmpty(fx, fy));
            },
            Err(e) => {
                return Err(e);
            },
        };
        let (tx, ty) = to;
        let target: Option<Piece> = match self.get(tx, ty) {
            Ok(t) => t,
            Err(e) => {
                return Err(e);
            },
        };
        if let Some(t) = target {
            if t.color == who.color {
                return Err(BoardError::SquareIsOccupied(tx, ty));
            }
        }
        let is_pawn: bool = who.kind == PieceKind::Pawn;
        let is_king: bool = who.kind == PieceKind::King;
        let home: u8 = match who.color {
            Color::White => 0,
            Color::Black => 7,
        };
        let last: u8 = match who.color {
            Color::White => 7,
            Color::Black => 0,
        };
        let rook: Piece = Piece { kind: PieceKind::Rook, color: who.color };

        let mut next: Board = self;
        let _ = next.set(fx, fy, None);

        let on_target: bool = match self.en_passant_target {
            Some((ex, ey)) => ex == tx && ey == ty,
            None => false,
        };
        if is_pawn && on_target && fx != tx && target.is_none() {
            let beside: Option<Piece> = match self.get(tx, fy) {
                Ok(t) => t,
                Err(_) => None,
            };
            if let Some(t) = beside {
                if t.kind == PieceKind::Pawn && t.color != who.color {
                    let _ = next.set(tx, fy, None);
                }
            }
        }
        assert(next == if self.takes_in_passing(from, to) {
            self.put(fx, fy, None).put(tx, fy, None)
        } else {
            self.put(fx, fy, None)
        });

        if is_king && fx == 4 && fy == home && ty == fy && (tx == 6 || tx == 2) {
            let corner: u8 = if tx == 6 {
                7
            } else {
                0
            };
            let landing: u8 = if tx == 6 {
                5
            } else {
                3
            };
            let waits: bool = match self.get(corner, ty) {
                Ok(Some(t)) => t.kind == PieceKind::Rook && t.color == who.color,
                _ => false,
            };
            if waits {
                let _ = next.set(corner, ty, None);
                let _ = next.set(landing, ty, Some(rook));
            }
        }
        let arrives: Piece = if is_pawn && ty == last {
            Piece { kind: PieceKind::Queen, color: who.color }
        } else {
            who
        };
        let _ = next.set(tx, ty, Some(arrives));

        let white_king: bool = is_king && who.color == Color::White;
        let black_king: bool = is_king && who.color == Color::Black;
        let rights: Castling = Castling {
            white_kingside: self.castling.white_kingside && !white_king && !(fx == 7 && fy == 0)
                && !(tx == 7 && ty == 0),
            white_queenside: self.castling.white_queenside && !white_king && !(fx == 0 && fy == 0)
                && !(tx == 0 && ty == 0),
            black_kingside: self.castling.black_kingside && !black_king && !(fx == 7 && fy == 7)
                && !(tx == 7 && ty == 7),
            black_queenside: self.castling.black_queenside && !black_king && !(fx == 0 && fy == 7)
                && !(tx == 0 && ty == 7),
        };
        let passed_over: Option<(u8, u8)> = if is_pawn && fx == tx && ((ty > fy && ty - fy == 2)
            || (fy > ty && fy - ty == 2)) {
            Some((fx, (fy + ty) / 2))
        } else {
            None
        };
        let halfmove: u32 = if is_pawn || target.is_some() {
            0
        } else if self.halfmove == u32::MAX {
            self.halfmove
        } else {
            self.halfmove + 1
        };
        let fullmove: u32 = if who.color == Color::Black && self.fullmove != u32::MAX {
            self.fullmove + 1
        } else {
            self.fullmove
        };
        Ok(next.restate(who.color.opposite(), rights, passed_over, halfmove, fullmove))
    }

    /// What is wrong with the move from `from` to `to`, if anything. The first
    /// fault is named, in this order: a coordinate of `from` out of range; no
    /// piece on `from`; a piece of the side that is not to move; a coordinate
    /// of `to` out of range; a piece of the mover's own side on `to`; for a move
    /// in the shape of castling, that the king may not castle; for any other
    /// move, that the piece does not reach `to`; and that the mover's king
    /// would be attacked in the position after the move.
    pub open spec fn verdict(&self, from: (u8, u8), to: (u8, u8)) -> Result<(), BoardError> {
        match check_xy(from.0, from.1) {
            Err(e) => Err(e),
            Ok(_) => match self.piece_at(from.0 as int, from.1 as int) {
                None => Err(BoardError::SquareIsEmpty(from.0, from.1)),
                Some(p) => if p.color != self.turn() {
                    Err(BoardError::NotYourPiece(from.0, from.1))
                } else {
                    match check_xy(to.0, to.1) {
                        Err(e) => Err(e),
                        Ok(_) => if self.piece_at(to.0 as int, to.1 as int) matches Some(q)
                            && q.color == p.color {
                            Err(BoardError::SquareIsOccupied(to.0, to.1))
                        } else if self.castles(from, to) && !self.may_castle(from, to) {
                            Err(BoardError::CastlingBlocked)
                        } else if !self.castles(from, to) && !self.reaches(
                            from.0,
                            from.1,
                            to.0 as int,
                            to.1 as int,
                        ) {
                            Err(BoardError::OutOfReach(to.0, to.1))
                        } else if self.after(from, to).in_check(p.color) {
                            Err(BoardError::KingInCheck)
                        } else {
                            Ok(())
                        },
                    }
                },
            },
        }
    }

    /// Whether the side to move may move from `from` to `to`: both are squares
    /// of the board, a piece of that side stands on `from`, it reaches `to` by
    /// the way its kind moves or it is a king that may castle there, and in the
    /// position after the move no king of that side is attacked.
    pub open spec fn legal_spec(&self, from: (u8, u8), to: (u8, u8)) -> bool {
        &&& on_board(from.0 as int, from.1 as int)
        &&& on_board(to.0 as int, to.1 as int)
        &&& self.piece_at(from.0 as int, from.1 as int) matches Some(p) && p.color == self.turn()
        &&& self.reaches(from.0, from.1, to.0 as int, to.1 as int) || self.may_castle(from, to)
        &&& !self.after(from, to).in_check(self.turn())
    }

    /// Whether the side to move has a move that it may make.
    pub open spec fn has_legal_move_spec(&self) -> bool {
        exists|from: (u8, u8), to: (u8, u8)| self.legal_spec(from, to)
    }

    /// A move is free of fault exactly when the side to move may make it.
    pub proof fn lemma_verdict(&self, from: (u8, u8), to: (u8, u8))
        requires
            self.wf(),
        ensures
            self.verdict(from, to) is Ok <==> self.legal_spec(from, to),
            self.castles(from, to) ==> !self.reaches(from.0, from.1, to.0 as int, to.1 as int),
    {
        let (fx, fy) = (from.0 as int, from.1 as int);
        let (tx, ty) = (to.0 as int, to.1 as int);
        if on_board(fx, fy) && on_board(tx, ty) && self.piece_at(fx, fy) is Some {
            let p = self.piece_at(fx, fy)->0;
            self.lemma_piece_at(tx, ty);
            self.lemma_piece_at(fx, fy);
            crate::bit::lemma_xy_mask(from.0, from.1, tx - 1, ty);
            crate::bit::lemma_xy_mask(from.0, from.1, tx + 1, ty);
            crate::bit::lemma_xy_mask(from.0, from.1, tx - 1, ty - 1);
            crate::bit::lemma_xy_mask(from.0, from.1, tx + 1, ty - 1);
            crate::bit::lemma_xy_mask(from.0, from.1, tx - 1, ty + 1);
            crate::bit::lemma_xy_mask(from.0, from.1, tx + 1, ty + 1);
            crate::bit::lemma_xy_mask(from.0, from.1, tx, ty - 1);
            crate::bit::lemma_xy_mask(from.0, from.1, tx, ty + 1);
        }
    }

    /// On every square, the masks say what `piece_at` says: a square is taken
    /// exactly when a piece stands on it, it is of a side exactly when that
    /// piece is, and of a kind and side exactly when that is the piece.
    pub proof fn lemma_piece_at(&self, x: int, y: int)
        requires
            self.wf(),
        ensures
            occupied(self.taken(), x, y) <==> self.piece_at(x, y) is Some,
            forall|color: Color|
                #[trigger] occupied(self.side(color), x, y) <==> (self.piece_at(x, y) is Some
                    && self.piece_at(x, y)->0.color == color),
            forall|kind: PieceKind, color: Color|
                #[trigger] occupied(self.pieces(kind, color), x, y) <==> self.piece_at(x, y) == Some(
                    Piece { kind, color },
                ),
    {
        let roles = self.pawns() | self.knights() | self.bishops() | self.rooks() | self.queens()
            | self.kings();
        lemma_occupied(self.white(), self.black(), x, y);
        lemma_occupied(self.pawns(), self.knights(), x, y);
        lemma_occupied(self.pawns(), self.bishops(), x, y);
        lemma_occupied(self.pawns(), self.rooks(), x, y);
        lemma_occupied(self.pawns(), self.queens(), x, y);
        lemma_occupied(self.pawns(), self.kings(), x, y);
        lemma_occupied(self.knights(), self.bishops(), x, y);
        lemma_occupied(self.knights(), self.rooks(), x, y);
        lemma_occupied(self.knights(), self.queens(), x, y);
        lemma_occupied(self.knights(), self.kings(), x, y);
        lemma_occupied(self.bishops(), self.rooks(), x, y);
        lemma_occupied(self.bishops(), self.queens(), x, y);
        lemma_occupied(self.bishops(), self.kings(), x, y);
        lemma_occupied(self.rooks(), self.queens(), x, y);
        lemma_occupied(self.rooks(), self.kings(), x, y);
        lemma_occupied(self.queens(), self.kings(), x, y);
        lemma_occupied(self.pawns() | self.knights(), self.bishops(), x, y);
        lemma_occupied(self.pawns() | self.knights() | self.bishops(), self.rooks(), x, y);
        lemma_occupied(
            self.pawns() | self.knights() | self.bishops() | self.rooks(),
            self.queens(),
            x,
            y,
        );
        lemma_occupied(
            self.pawns() | self.knights() | self.bishops() | self.rooks() | self.queens(),
            self.kings(),
            x,
            y,
        );
        assert forall|kind: PieceKind, color: Color|
            #[trigger] occupied(self.pieces(kind, color), x, y) <==> self.piece_at(x, y) == Some(
                Piece { kind, color },
            ) by {
            lemma_occupied(self.role(kind), self.side(color), x, y);
        }
    }

    /// Whether the king on `from` may castle to `to`.
    pub fn can_castle(&self, from: (u8, u8), to: (u8, u8)) -> (r: bool)
        ensures
            r == self.may_castle(from, to),
    {
        let (fx, fy) = from;
        let (tx, ty) = to;
        let king: Piece = match self.get(fx, fy) {
            Ok(Some(p)) => p,
            _ => {
                return false;
            },
        };
        let home: u8 = match king.color {
            Color::White => 0,
            Color::Black => 7,
        };
        if !(king.kind == PieceKind::King && fx == 4 && fy == home && ty == fy && (tx == 6 || tx
            == 2)) {
            return false;
        }
        let kingside: bool = tx == 6;
        let held: bool = if kingside {
            self.castling.kingside(king.color)
        } else {
            self.castling.queenside(king.color)
        };
        let corner: u8 = if kingside {
            7
        } else {
            0
        };
        let landing: u8 = if kingside {
            5
        } else {
            3
        };
        let waits: bool = match self.get(corner, ty) {
            Ok(Some(t)) => t.kind == PieceKind::Rook && t.color == king.color,
            _ => false,
        };
        let taken: u64 = self.white | self.black;
        let free: bool = if kingside {
            !bit::get(taken, 5, ty) && !bit::get(taken, 6, ty)
        } else {
            !bit::get(taken, 1, ty) && !bit::get(taken, 2, ty) && !bit::get(taken, 3, ty)
        };
        let attacked: u64 = self.coverage(king.color.opposite());
        let safe: bool = !bit::get(attacked, 4, ty) && !bit::get(attacked, landing, ty)
            && !bit::get(attacked, tx, ty);
        held && waits && free && safe
    }

    /// Makes the move from `from` to `to` if the side to move may make it, and
    /// returns the position after it; names what is wrong with it otherwise.
    /// The position itself is never changed.
    pub fn make_move(&self, from: (u8, u8), to: (u8, u8)) -> (r: Result<Board, BoardError>)
        ensures
            r == (match self.verdict(from, to) {
                Ok(_) => Ok(self.after(from, to)),
                Err(e) => Err(e),
            }),
            r is Ok <==> self.legal_spec(from, to),
    {
        proof {
            use_type_invariant(self);
            self.lemma_verdict(from, to);
        }
        let (fx, fy) = from;
        let (tx, ty) = to;
        let who: Piece = match self.get(fx, fy) {
            Ok(Some(p)) => p,
            Ok(None) => {
                return Err(BoardError::SquareIsEmpty(fx, fy));
            },
            Err(e) => {
                return Err(e);
            },
        };
        if who.color != self.turn {
            return Err(BoardError::NotYourPiece(fx, fy));
        }
        let next: Board = match self.future(from, to) {
            Ok(b) => b,
            Err(e) => {
                return Err(e);
            },
        };
        let home: u8 = match who.color {
            Color::White => 0,
            Color::Black => 7,
        };
        if who.kind == PieceKind::King && fx == 4 && fy == home && ty == fy && (tx == 6 || tx
            == 2) {
            if !self.can_castle(from, to) {
                return Err(BoardError::CastlingBlocked);
            }
        } else {
            let reached: u64 = match self.pseudo_legal(fx, fy) {
                Ok(m) => m,
                Err(e) => {
                    return Err(e);
                },
            };
            if !bit::get(reached, tx, ty) {
                return Err(BoardError::OutOfReach(tx, ty));
            }
        }
        if next.in_check(who.color) {
            return Err(BoardError::KingInCheck);
        }
        Ok(next)
    }

    /// Whether the side to move may move from `from` to `to`.
    #[verifier::when_used_as_spec(legal_spec)]
    pub fn legal(&self, from: (u8, u8), to: (u8, u8)) -> (r: bool)
        ensures
            r == self.legal_spec(from, to),
    {
        self.make_move(from, to).is_ok()
    }

    /// Whether the side to move may make the move whose place in the order of
    /// all moves is `c`.
    pub open spec fn legal_nth(&self, c: int) -> bool {
        self.legal_spec(nth_move(c).0, nth_move(c).1)
    }

    /// Every move that the side to move may make, ordered by the square it
    /// leaves and then by the square it goes to, each counted rank by rank
    /// from `(0, 0)`.
    pub fn legal_moves(&self) -> (r: Vec<((u8, u8), (u8, u8))>)
        ensures
            forall|i: int| 0 <= i < r.len() ==> self.legal_spec((#[trigger] r[i]).0, r[i].1),
            forall|from: (u8, u8), to: (u8, u8)|
                #![trigger self.legal_spec(from, to)]
                #![trigger r@.contains((from, to))]
                self.legal_spec(from, to) ==> r@.contains((from, to)),
            forall|i: int, j: int|
                0 <= i < j < r.len() ==> move_code(#[trigger] r[i]) < move_code(#[trigger] r[j]),
    {
        let mut out: Vec<((u8, u8), (u8, u8))> = Vec::new();
        let ghost mut codes: Seq<int> = Seq::empty();
        let mut code: u16 = 0;
        while code < 4096
            invariant
                code <= 4096,
                codes.len() == out.len(),
                forall|i: int|
                    0 <= i < codes.len() ==> 0 <= #[trigger] codes[i] < code && out[i] == nth_move(
                        codes[i],
                    ) && self.legal_nth(codes[i]),
                forall|i: int, j: int| 0 <= i < j < codes.len() ==> codes[i] < codes[j],
                forall|c: int| 0 <= c < code && #[trigger] self.legal_nth(c) ==> codes.contains(c),
            decreases 4096 - code,
        {
            let from: (u8, u8) = (((code / 64) % 8) as u8, (code / 512) as u8);
            let to: (u8, u8) = ((code % 8) as u8, ((code % 64) / 8) as u8);
            let ghost before = codes;
            assert((from, to) == nth_move(code as int));
            let may: bool = self.legal(from, to);
            assert(may == self.legal_nth(code as int));
            if may {
                out.push((from, to));
                proof {
                    codes = codes.push(code as int);
                }
            }
            proof {
                assert forall|c: int| 0 <= c < code + 1 && #[trigger] self.legal_nth(c) implies 
                    codes.contains(c) by {
                    if c < code {
                        let i = choose|i: int| 0 <= i < before.len() && before[i] == c;
                        assert(codes[i] == c);
                    } else {
                        assert(codes[codes.len() - 1] == c);
                    }
                }
            }
            code += 1;
        }
        proof {
            assert forall|i: int| 0 <= i < out.len() implies self.legal_spec(out[i].0, out[i].1) by {
                assert(self.legal_nth(codes[i]));
            }
            assert forall|from: (u8, u8), to: (u8, u8)| self.legal_spec(from, to) implies out@.contains(
                (from, to),
            ) by {
                lemma_move_code((from, to));
                let c = move_code((from, to));
                assert(self.legal_nth(c));
                let i = choose|i: int| 0 <= i < codes.len() && codes[i] == c;
                assert(out@[i] == (from, to));
            }
            assert forall|i: int, j: int| 0 <= i < j < out.len() implies move_code(out[i])
                < move_code(out[j]) by {
                lemma_nth_move(codes[i]);
                lemma_nth_move(codes[j]);
            }
        }
        out
    }

    /// Whether the side to move has a move that it may make.
    #[verifier::when_used_as_spec(has_legal_move_spec)]
    pub fn has_legal_move(&self) -> (r: bool)
        ensures
            r == self.has_legal_move_spec(),
    {
        let mut code: u16 = 0;
        while code < 4096
            invariant
                code <= 4096,
                forall|c: int| 0 <= c < code ==> !#[trigger] self.legal_nth(c),
            decreases 4096 - code,
        {
            let from: (u8, u8) = (((code / 64) % 8) as u8, (code / 512) as u8);
            let to: (u8, u8) = ((code % 8) as u8, ((code % 64) / 8) as u8);
            assert((from, to) == nth_move(code as int));
            let may: bool = self.legal(from, to);
            assert(may == self.legal_nth(code as int));
            if may {
                return true;
            }
            code += 1;
        }
        proof {
            assert forall|f: (u8, u8), t: (u8, u8)| !self.legal_spec(f, t) by {
                if self.legal_spec(f, t) {
                    lemma_move_code((f, t));
                    assert(self.legal_nth(move_code((f, t))));
                }
            }
        }
        false
    }

    /// Whether the side to move is checkmated: its king is attacked and it has
    /// no move that it may make.
    pub open spec fn checkmate_spec(&self) -> bool {
        self.in_check(self.turn()) && !self.has_legal_move()
    }

    /// Whether the side to move is stalemated: its king is not attacked and it
    /// has no move that it may make.
    pub open spec fn stalemate_spec(&self) -> bool {
        !self.in_check(self.turn()) && !self.has_legal_move()
    }

    /// Whether the side to move is checkmated.
    #[verifier::when_used_as_spec(checkmate_spec)]
    pub fn checkmate(&self) -> (r: bool)
        ensures
            r == self.checkmate_spec(),
    {
        self.in_check(self.turn) && !self.has_legal_move()
    }

    /// Whether the side to move is stalemated.
    #[verifier::when_used_as_spec(stalemate_spec)]
    pub fn stalemate(&self) -> (r: bool)
        ensures
            r == self.stalemate_spec(),
    {
        !self.in_check(self.turn) && !self.has_legal_move()
    }
}

/// What stands on `(a, b)` after the piece `p` went from `from` to `to`, when
/// `was` stood there before: `passing` says whether the move took a pawn in
/// passing, `rooked` whether it took a rook along.
pub open spec fn piece_after(
    was: Option<Piece>,
    p: Piece,
    from: (u8, u8),
    to: (u8, u8),
    passing: bool,
    rooked: bool,
    a: int,
    b: int,
) -> Option<Piece> {
    if a == to.0 && b == to.1 {
        Some(promoted(p, to))
    } else if rooked && a == rook_landing(to).0 && b == to.1 {
        Some(Piece { kind: PieceKind::Rook, color: p.color })
    } else if rooked && a == rook_corner(to).0 && b == to.1 {
        None
    } else if passing && a == to.0 && b == from.1 {
        None
    } else if a == from.0 && b == from.1 {
        None
    } else {
        was
    }
}

/// The move whose place in the order of all moves is `c`.
pub open spec fn nth_move(c: int) -> ((u8, u8), (u8, u8)) {
    ((((c / 64) % 8) as u8, (c / 512) as u8), ((c % 8) as u8, ((c % 64) / 8) as u8))
}

/// Every place below 4096 is that of a move between squares of the board.
pub proof fn lemma_nth_move(c: int)
    requires
        0 <= c < 4096,
    ensures
        move_code(nth_move(c)) == c,
        on_board(nth_move(c).0.0 as int, nth_move(c).0.1 as int),
        on_board(nth_move(c).1.0 as int, nth_move(c).1.1 as int),
{
}

/// Every move between squares of the board has a place below 4096.
pub proof fn lemma_move_code(m: ((u8, u8), (u8, u8)))
    requires
        on_board(m.0.0 as int, m.0.1 as int),
        on_board(m.1.0 as int, m.1.1 as int),
    ensures
        0 <= move_code(m) < 4096,
        nth_move(move_code(m)) == m,
{
}

/// The place of a move in the order of all moves: the square it leaves, then
/// the square it goes to, each counted rank by rank from `(0, 0)`.
pub open spec fn move_code(m: ((u8, u8), (u8, u8))) -> int {
    (m.0.0 + 8 * m.0.1) * 64 + (m.1.0 + 8 * m.1.1)
}

impl Board {
    /// What the position after a move holds, square by square and beside the
    /// pieces, for every move that `future` makes.
    pub proof fn lemma_after(&self, from: (u8, u8), to: (u8, u8))
        requires
            self.wf(),
            self.future_spec(from, to) is Ok,
        ensures
            ({
                let p = self.piece_at(from.0 as int, from.1 as int)->0;
                let r = self.after(from, to);
                &&& r.wf()
                &&& forall|a: int, b: int|
                    #[trigger] r.piece_at(a, b) == piece_after(
                        self.piece_at(a, b),
                        p,
                        from,
                        to,
                        self.takes_in_passing(from, to),
                        self.castles(from, to) && self.rook_waits(from, to),
                        a,
                        b,
                    )
                &&& r.turn() == p.color.opposite()
                &&& r.castling() == rights_after(self.castling(), p, from, to)
                &&& r.en_passant_target() == target_after(p, from, to)
                &&& r.halfmove() == (if p.kind == PieceKind::Pawn || self.piece_at(
                    to.0 as int,
                    to.1 as int,
                ) is Some {
                    0
                } else {
                    ticked(self.halfmove())
                })
                &&& r.fullmove() == (if p.color == Color::Black {
                    ticked(self.fullmove())
                } else {
                    self.fullmove()
                })
            }),
    {
        let p = self.piece_at(from.0 as int, from.1 as int)->0;
        let rook = Piece { kind: PieceKind::Rook, color: p.color };
        let lifted = self.put(from.0, from.1, None);
        self.lemma_put(from.0, from.1, None);
        let passed = if self.takes_in_passing(from, to) {
            lifted.put(to.0, from.1, None)
        } else {
            lifted
        };
        lifted.lemma_put(to.0, from.1, None);
        let cornered = passed.put(rook_corner(to).0, to.1, None);
        let rooked = if self.castles(from, to) && self.rook_waits(from, to) {
            cornered.put(rook_landing(to).0, to.1, Some(rook))
        } else {
            passed
        };
        passed.lemma_put(rook_corner(to).0, to.1, None);
        cornered.lemma_put(rook_landing(to).0, to.1, Some(rook));
        let placed = rooked.put(to.0, to.1, Some(promoted(p, to)));
        rooked.lemma_put(to.0, to.1, Some(promoted(p, to)));
        placed.lemma_with_state(
            p.color.opposite(),
            rights_after(self.castling(), p, from, to),
            target_after(p, from, to),
            if p.kind == PieceKind::Pawn || self.piece_at(to.0 as int, to.1 as int) is Some {
                0
            } else {
                ticked(self.halfmove())
            },
            if p.color == Color::Black {
                ticked(self.fullmove())
            } else {
                self.fullmove()
            },
        );
    }

    /// Whether the piece on `(x, y)` is of `color` and attacks `(a, b)`.
    pub open spec fn attacked_from(&self, color: Color, x: u8, y: u8, a: int, b: int) -> bool {
        &&& x < 8
        &&& y < 8
        &&& self.piece_at(x as int, y as int) matches Some(p) && p.color == color && attacks(
            p,
            xy_mask(x, y),
            self.taken(),
            a,
            b,
        )
    }

    /// The squares that a side covers are those that one of its pieces
    /// attacks, without the squares on which its own pieces stand.
    pub proof fn law_covered_by_a_piece(&self, color: Color, a: int, b: int)
        requires
            self.wf(),
        ensures
            self.covers(color, a, b) <==> !occupied(self.side(color), a, b) && exists|
                x: u8,
                y: u8,
            | #[trigger] self.attacked_from(color, x, y, a, b),
    {
        let stop = self.taken();
        if self.covers(color, a, b) {
            let kind = if pawn_hits(self.pieces(PieceKind::Pawn, color), forward(color), a, b) {
                PieceKind::Pawn
            } else if knight_reach(self.pieces(PieceKind::Knight, color), a, b) {
                PieceKind::Knight
            } else if bishop_reach(self.pieces(PieceKind::Bishop, color), stop, a, b) {
                PieceKind::Bishop
            } else if rook_reach(self.pieces(PieceKind::Rook, color), stop, a, b) {
                PieceKind::Rook
            } else if queen_reach(self.pieces(PieceKind::Queen, color), stop, a, b) {
                PieceKind::Queen
            } else {
                PieceKind::King
            };
            let p = Piece { kind, color };
            let bb = self.pieces(kind, color);
            assert(attacks(p, bb, stop, a, b));
            lemma_attacks_by_one(p, bb, stop, a, b);
            let (x, y) = choose|x: u8, y: u8|
                x < 8 && y < 8 && occupied(bb, x as int, y as int) && #[trigger] attacks(
                    p,
                    xy_mask(x, y),
                    stop,
                    a,
                    b,
                );
            self.lemma_piece_at(x as int, y as int);
            assert(self.attacked_from(color, x, y, a, b));
        }
        if !occupied(self.side(color), a, b) && exists|x: u8, y: u8| #[trigger]
            self.attacked_from(color, x, y, a, b) {
            let (x, y) = choose|x: u8, y: u8| #[trigger] self.attacked_from(color, x, y, a, b);
            let p = self.piece_at(x as int, y as int)->0;
            let bb = self.pieces(p.kind, color);
            self.lemma_piece_at(x as int, y as int);
            lemma_occupied(self.role(p.kind), self.side(color), a, b);
            lemma_attacks_by_one(p, bb, stop, a, b);
            assert(attacks(p, bb, stop, a, b));
        }
    }

    /// A move that leaves the mover's king attacked may not be made, even
    /// where the piece reaches the square by the way its kind moves: such a
    /// piece is pinned.
    pub proof fn law_pinned_piece_stays(&self, from: (u8, u8), to: (u8, u8))
        requires
            self.wf(),
            self.after(from, to).in_check(self.turn()),
        ensures
            !self.legal(from, to),
            self.piece_at(from.0 as int, from.1 as int) matches Some(p) && p.color == self.turn()
                && on_board(to.0 as int, to.1 as int) && self.reaches(
                from.0,
                from.1,
                to.0 as int,
                to.1 as int,
            ) ==> self.verdict(from, to) == Err::<(), BoardError>(BoardError::KingInCheck),
    {
        self.lemma_verdict(from, to);
        if on_board(to.0 as int, to.1 as int) {
            self.lemma_piece_at(to.0 as int, to.1 as int);
        }
    }

    /// After a move there is an en-passant target exactly when the move was a
    /// pawn's double step, and the target is then the square that the pawn
    /// passed over.
    pub proof fn law_target_only_after_double_step(&self, from: (u8, u8), to: (u8, u8))
        requires
            self.wf(),
            self.future_spec(from, to) is Ok,
        ensures
            ({
                let p = self.piece_at(from.0 as int, from.1 as int)->0;
                let double_step = p.kind == PieceKind::Pawn && from.0 == to.0 && (to.1 - from.1
                    == 2 || from.1 - to.1 == 2);
                &&& self.after(from, to).en_passant_target() is Some <==> double_step
                &&& double_step ==> self.after(from, to).is_target(
                    from.0 as int,
                    (from.1 + to.1) / 2,
                )
            }),
    {
        self.lemma_after(from, to);
    }

    /// A pawn reaches a free square diagonally only where that square is the
    /// en-passant target: with no target, or another one, it may not capture
    /// there.
    pub proof fn law_passing_needs_target(&self, x: u8, y: u8, a: int, b: int)
        requires
            self.wf(),
            on_board(x as int, y as int),
            self.piece_at(x as int, y as int) matches Some(p) && p.kind == PieceKind::Pawn,
            a != x,
            self.piece_at(a, b) is None,
            self.reaches(x, y, a, b),
        ensures
            self.is_target(a, b),
    {
        self.lemma_piece_at(a, b);
        crate::bit::lemma_xy_mask(x, y, a, b - 1);
        crate::bit::lemma_xy_mask(x, y, a, b + 1);
        crate::bit::lemma_xy_mask(x, y, a, 1);
        crate::bit::lemma_xy_mask(x, y, a, 6);
    }

    /// The right to capture in passing lasts for one move. Once a move that is
    /// not itself a pawn's double step has been made, no pawn may capture onto
    /// a free square, whatever the en-passant target was before that move.
    pub proof fn law_passing_expires(
        &self,
        from: (u8, u8),
        to: (u8, u8),
        pawn: (u8, u8),
        onto: (u8, u8),
    )
        requires
            self.wf(),
            self.future_spec(from, to) is Ok,
            !(self.piece_at(from.0 as int, from.1 as int)->0.kind == PieceKind::Pawn && from.0
                == to.0 && (to.1 - from.1 == 2 || from.1 - to.1 == 2)),
            self.after(from, to).piece_at(pawn.0 as int, pawn.1 as int) matches Some(p) && p.kind
                == PieceKind::Pawn,
            pawn.0 != onto.0,
            self.after(from, to).piece_at(onto.0 as int, onto.1 as int) is None,
        ensures
            !self.after(from, to).legal(pawn, onto),
    {
        let next = self.after(from, to);
        self.lemma_after(from, to);
        if next.legal(pawn, onto) {
            next.lemma_verdict(pawn, onto);
            next.law_passing_needs_target(pawn.0, pawn.1, onto.0 as int, onto.1 as int);
        }
    }
}

} // verus!
