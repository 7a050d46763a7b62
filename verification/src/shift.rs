//! Moving every square of a mask by a number of steps in one of eight
//! directions. A square that would leave the board is dropped; none comes back
//! on the far edge.
//!
//! `left` is towards the higher files and `up` towards the higher ranks, as the
//! machine's left shift moves a bit.

use vstd::prelude::*;
use crate::bit::{
    lemma_bit_at_shift, lemma_nonzero_square, lemma_occupied, lemma_same_squares,
    occupied, on_board,
};
use crate::helper::{shl, shr};
use crate::mask;

verus! {

/// One of the eight directions in which a piece can move in a straight line.
#[derive(Clone, Copy, Debug, PartialEq, Eq, Structural)]
pub enum Direction {
    Up,
    Down,
    Left,
    Right,
    UpLeft,
    UpRight,
    DownLeft,
    DownRight,
}

impl Direction {
    /// The change of file after `i` steps.
    pub open spec fn step_x(self, i: int) -> int {
        match self {
            Direction::Left | Direction::UpLeft | Direction::DownLeft => i,
            Direction::Right | Direction::UpRight | Direction::DownRight => -i,
            Direction::Up | Direction::Down => 0,
        }
    }

    /// The change of rank after `i` steps.
    pub open spec fn step_y(self, i: int) -> int {
        match self {
            Direction::Up | Direction::UpLeft | Direction::UpRight => i,
            Direction::Down | Direction::DownLeft | Direction::DownRight => -i,
            Direction::Left | Direction::Right => 0,
        }
    }
}

/// Whether `r` is `bb` with every square moved by `(sx, sy)` and the squares
/// that left the board dropped.
pub open spec fn moved_by(bb: u64, r: u64, sx: int, sy: int) -> bool {
    forall|a: int, b: int| #[trigger] occupied(r, a, b) <==> on_board(a, b) && occupied(bb, a - sx, b - sy)
}

/// A move by nothing changes nothing, and a move that takes every square off
/// the board leaves the empty mask.
pub proof fn lemma_moved_by(bb: u64, r: u64, sx: int, sy: int)
    requires
        moved_by(bb, r, sx, sy),
    ensures
        sx == 0 && sy == 0 ==> r == bb,
        (forall|a: int, b: int| #[trigger] occupied(bb, a, b) ==> !on_board(a + sx, b + sy)) ==> r == 0,
{
    if sx == 0 && sy == 0 {
        lemma_same_squares(r, bb);
    }
    if forall|a: int, b: int| #[trigger] occupied(bb, a, b) ==> !on_board(a + sx, b + sy) {
        lemma_nonzero_square(r);
        if r != 0 {
            let (a, b) = choose|a: int, b: int| occupied(r, a, b);
            assert(occupied(bb, a - sx, b - sy));
        }
    }
}

/// Moves every square `i` files down (towards file 0).
pub fn right(bb: u64, i: u8) -> (r: u64)
    ensures
        moved_by(bb, r, -(i as int), 0),
        i == 0 ==> r == bb,
        i >= 8 ==> r == 0,
{
    let m: u64 = mask::right(i);
    let r: u64 = shr(bb, i) & m;
    proof {
        assert forall|a: int, b: int|
            #[trigger] occupied(r, a, b) <==> on_board(a, b) && occupied(bb, a + i, b) by {
            lemma_occupied(shr(bb, i), m, a, b);
            if i < 64 {
                lemma_bit_at_shift(bb, i, a + 8 * b);
            }
        }
        lemma_moved_by(bb, r, -(i as int), 0);
    }
    r
}

/// Moves every square `i` files up (towards file 7).
pub fn left(bb: u64, i: u8) -> (r: u64)
    ensures
        moved_by(bb, r, i as int, 0),
        i == 0 ==> r == bb,
        i >= 8 ==> r == 0,
{
    let m: u64 = mask::left(i);
    let r: u64 = shl(bb, i) & m;
    proof {
        assert forall|a: int, b: int|
            #[trigger] occupied(r, a, b) <==> on_board(a, b) && occupied(bb, a - i, b) by {
            lemma_occupied(shl(bb, i), m, a, b);
            if i < 64 {
                lemma_bit_at_shift(bb, i, a + 8 * b);
            }
        }
        lemma_moved_by(bb, r, i as int, 0);
    }
    r
}

/// Moves every square `i` ranks up (towards rank 7).
pub fn up(bb: u64, i: u8) -> (r: u64)
    ensures
        moved_by(bb, r, 0, i as int),
        i == 0 ==> r == bb,
        i >= 8 ==> r == 0,
{
    let r: u64 = if i >= 8 {
        0
    } else {
        bb << (i * 8)
    };
    proof {
        assert forall|a: int, b: int|
            #[trigger] occupied(r, a, b) <==> on_board(a, b) && occupied(bb, a, b - i) by {
            if i < 8 {
                lemma_bit_at_shift(bb, (i * 8) as u8, a + 8 * b);
            } else {
                lemma_occupied(0, 0, a, b);
            }
        }
        lemma_moved_by(bb, r, 0, i as int);
    }
    r
}

/// Moves every square `i` ranks down (towards rank 0).
pub fn down(bb: u64, i: u8) -> (r: u64)
    ensures
        moved_by(bb, r, 0, -(i as int)),
        i == 0 ==> r == bb,
        i >= 8 ==> r == 0,
{
    let r: u64 = if i >= 8 {
        0
    } else {
        bb >> (i * 8)
    };
    proof {
        assert forall|a: int, b: int|
            #[trigger] occupied(r, a, b) <==> on_board(a, b) && occupied(bb, a, b + i) by {
            if i < 8 {
                lemma_bit_at_shift(bb, (i * 8) as u8, a + 8 * b);
            } else {
                lemma_occupied(0, 0, a, b);
            }
        }
        lemma_moved_by(bb, r, 0, -(i as int));
    }
    r
}

/// Moves every square `i` steps along the diagonal towards file 7 and rank 7.
pub fn up_left(bb: u64, i: u8) -> (r: u64)
    ensures
        moved_by(bb, r, i as int, i as int),
        i == 0 ==> r == bb,
        i >= 8 ==> r == 0,
{
    let s: u64 = left(bb, i);
    let r: u64 = up(s, i);
    proof {
        assert forall|a: int, b: int|
            #[trigger] occupied(r, a, b) <==> on_board(a, b) && occupied(bb, a - i, b - i) by {
            assert(occupied(s, a, b - i) <==> on_board(a, b - i) && occupied(bb, a - i, b - i));
        }
    }
    r
}

/// Moves every square `i` steps along the diagonal towards file 7 and rank 0.
pub fn down_left(bb: u64, i: u8) -> (r: u64)
    ensures
        moved_by(bb, r, i as int, -(i as int)),
        i == 0 ==> r == bb,
        i >= 8 ==> r == 0,
{
    let s: u64 = left(bb, i);
    let r: u64 = down(s, i);
    proof {
        assert forall|a: int, b: int|
            #[trigger] occupied(r, a, b) <==> on_board(a, b) && occupied(bb, a - i, b + i) by {
            assert(occupied(s, a, b + i) <==> on_board(a, b + i) && occupied(bb, a - i, b + i));
        }
    }
    r
}

/// Moves every square `i` steps along the diagonal towards file 0 and rank 7.
pub fn up_right(bb: u64, i: u8) -> (r: u64)
    ensures
        moved_by(bb, r, -(i as int), i as int),
        i == 0 ==> r == bb,
        i >= 8 ==> r == 0,
{
    let s: u64 = right(bb, i);
    let r: u64 = up(s, i);
    proof {
        assert forall|a: int, b: int|
            #[trigger] occupied(r, a, b) <==> on_board(a, b) && occupied(bb, a + i, b - i) by {
            assert(occupied(s, a, b - i) <==> on_board(a, b - i) && occupied(bb, a + i, b - i));
        }
    }
    r
}

/// Moves every square `i` steps along the diagonal towards file 0 and rank 0.
pub fn down_right(bb: u64, i: u8) -> (r: u64)
    ensures
        moved_by(bb, r, -(i as int), -(i as int)),
        i == 0 ==> r == bb,
        i >= 8 ==> r == 0,
{
    let s: u64 = right(bb, i);
    let r: u64 = down(s, i);
    proof {
        assert forall|a: int, b: int|
            #[trigger] occupied(r, a, b) <==> on_board(a, b) && occupied(bb, a + i, b + i) by {
            assert(occupied(s, a, b + i) <==> on_board(a, b + i) && occupied(bb, a + i, b + i));
        }
    }
    r
}

/// Moves every square `i` steps in the direction `dir`. A distance of zero
/// changes nothing; when every square leaves the board the result is empty.
pub fn shift(bb: u64, dir: Direction, i: u8) -> (r: u64)
    ensures
        moved_by(bb, r, dir.step_x(i as int), dir.step_y(i as int)),
        i == 0 ==> r == bb,
        (forall|a: int, b: int|
            #[trigger] occupied(bb, a, b) ==> !on_board(a + dir.step_x(i as int), b + dir.step_y(i as int)))
            ==> r == 0,
{
    let r: u64 = match dir {
        Direction::Up => up(bb, i),
        Direction::Down => down(bb, i),
        Direction::Left => left(bb, i),
        Direction::Right => right(bb, i),
        Direction::UpLeft => up_left(bb, i),
        Direction::UpRight => up_right(bb, i),
        Direction::DownLeft => down_left(bb, i),
        Direction::DownRight => down_right(bb, i),
    };
    proof {
        lemma_moved_by(bb, r, dir.step_x(i as int), dir.step_y(i as int));
    }
    r
}

} // verus!
