//! What can be wrong with a square or a move.

use vstd::prelude::*;

verus! {

/// Why a square could not be used or a move could not be made.
#[derive(Clone, Copy, Debug, PartialEq, Eq, Hash, Structural)]
pub enum BoardError {
    /// The file is not in `0..=7`.
    InvalidXCoord(u8),
    /// The rank is not in `0..=7`.
    InvalidYCoord(u8),
    /// The square holds no piece to move.
    SquareIsEmpty(u8, u8),
    /// The square already holds a piece of the mover's side.
    SquareIsOccupied(u8, u8),
    /// The piece on the square belongs to the side that is not to move.
    NotYourPiece(u8, u8),
    /// The piece does not reach the square.
    OutOfReach(u8, u8),
    /// The move would leave the mover's king attacked.
    KingInCheck,
    /// The king may not castle: it or the rook has moved, a square between
    /// them is taken, or the king would start on, cross or land on an attacked
    /// square.
    CastlingBlocked,
}

} // verus!
