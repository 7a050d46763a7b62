//! A bitboard chess position: 64-bit masks, attack generation, check detection
//! and move legality, with every function's behaviour stated and proved.
//!
//! Square `(x, y)` is file `x` (0 is the a-file) on rank `y` (0 is the first
//! rank); it is bit `x + 8 * y` of a mask. Every module keeps to this one
//! numbering.
//!
//! - [`bit`], [`mask`], [`shift`], [`helper`]: single squares, whole files and
//!   ranks, moving a mask without wrapping round the edge.
//! - [`slide`], [`piece`]: rays up to the first blocker, and what each kind of
//!   piece reaches.
//! - [`board`]: the position, the squares a side attacks, check, the legality
//!   and the making of moves, checkmate and stalemate, and the position as text.
//! - [`fen`], [`uci`], [`moves`]: positions, squares and moves from text.

pub mod bit;
pub mod board;
pub mod clock;
pub mod color;
pub mod error;
pub mod fen;
pub mod helper;
pub mod mask;
pub mod moves;
pub mod piece;
pub mod shift;
pub mod slide;
pub mod uci;
