//! Masks of whole files and ranks, and of the part of the board that a shift
//! can reach.

use vstd::prelude::*;
use crate::bit::{lemma_nonzero_square, lemma_occupied, occupied, on_board};
use crate::helper::{shl, shr};
use crate::shift;

verus! {

/// The byte `m` repeated on every rank.
pub open spec fn on_every_rank(m: u64) -> u64 {
    m | m << 8 | m << 16 | m << 24 | m << 32 | m << 40 | m << 48 | m << 56
}

proof fn lemma_mask_bits(x: u64, j: u64)
    by (bit_vector)
    requires
        x < 64,
        j < 64,
    ensures
        (on_every_rank((0xffu64 << x) & 0xff) >> j) & 1 == 1 <==> j % 8 >= x,
        (on_every_rank((0xffu64 >> x) & 0xff) >> j) & 1 == 1 <==> j % 8 + x < 8,
        x < 8 ==> (((0x0101010101010101u64 << x) >> j) & 1 == 1 <==> j % 8 == x),
        x < 8 ==> (((0xffu64 << ((8 * x) as u64)) >> j) & 1 == 1 <==> j / 8 == x),
        (on_every_rank(0u64 & 0xff) >> j) & 1 == 0,
{
}

/// Whether some square of rank `y` belongs to `bb`.
pub open spec fn rank_touched(bb: u64, y: int) -> bool {
    exists|x: int| occupied(bb, x, y)
}

/// Whether some square of file `x` belongs to `bb`.
pub open spec fn file_touched(bb: u64, x: int) -> bool {
    exists|y: int| occupied(bb, x, y)
}

/// The eight squares of file `x`.
pub fn file(x: u8) -> (r: u64)
    requires
        x < 8,
    ensures
        forall|a: int, b: int| #[trigger] occupied(r, a, b) <==> on_board(a, b) && a == x,
{
    let r: u64 = 0x0101010101010101u64 << x;
    proof {
        assert forall|a: int, b: int| #[trigger] occupied(r, a, b) <==> on_board(a, b) && a == x by {
            if on_board(a, b) {
                lemma_mask_bits(x as u64, (a + 8 * b) as u64);
            }
        }
    }
    r
}

/// The eight squares of rank `y`.
pub fn row(y: u8) -> (r: u64)
    requires
        y < 8,
    ensures
        forall|a: int, b: int| #[trigger] occupied(r, a, b) <==> on_board(a, b) && b == y,
{
    let r: u64 = 0xffu64 << (y * 8);
    proof {
        assert forall|a: int, b: int| #[trigger] occupied(r, a, b) <==> on_board(a, b) && b == y by {
            if on_board(a, b) {
                lemma_mask_bits(y as u64, (a + 8 * b) as u64);
            }
        }
    }
    r
}

/// Every rank that holds a square of `bb`, in full.
pub fn rows(bb: u64) -> (r: u64)
    ensures
        forall|a: int, b: int| #[trigger] occupied(r, a, b) <==> on_board(a, b) && rank_touched(bb, b),
{
    let mut out: u64 = 0;
    let mut y: u8 = 0;
    proof {
        assert forall|a: int, b: int| !occupied(0, a, b) by {
            lemma_occupied(0, 0, a, b);
        }
    }
    while y < 8
        invariant
            y <= 8,
            forall|a: int, b: int|
                #[trigger] occupied(out, a, b) <==> on_board(a, b) && b < y && rank_touched(bb, b),
        decreases 8 - y,
    {
        let m: u64 = row(y);
        let next: u64 = if bb & m != 0 {
            out | m
        } else {
            out
        };
        proof {
            lemma_nonzero_square(bb & m);
            if bb & m != 0 {
                let (p, q) = choose|p: int, q: int| occupied(bb & m, p, q);
                lemma_occupied(bb, m, p, q);
                assert(occupied(bb, p, y as int));
            }
            if rank_touched(bb, y as int) {
                let p = choose|p: int| occupied(bb, p, y as int);
                lemma_occupied(bb, m, p, y as int);
            }
            assert forall|a: int, b: int|
                #[trigger] occupied(next, a, b) <==> on_board(a, b) && b < y + 1 && rank_touched(bb, b) by {
                lemma_occupied(out, m, a, b);
            }
        }
        out = next;
        y += 1;
    }
    out
}

/// Every file that holds a square of `bb`, in full.
pub fn files(bb: u64) -> (r: u64)
    ensures
        forall|a: int, b: int| #[trigger] occupied(r, a, b) <==> on_board(a, b) && file_touched(bb, a),
{
    let mut out: u64 = 0;
    let mut x: u8 = 0;
    proof {
        assert forall|a: int, b: int| !occupied(0, a, b) by {
            lemma_occupied(0, 0, a, b);
        }
    }
    while x < 8
        invariant
            x <= 8,
            forall|a: int, b: int|
                #[trigger] occupied(out, a, b) <==> on_board(a, b) && a < x && file_touched(bb, a),
        decreases 8 - x,
    {
        let m: u64 = file(x);
        let next: u64 = if bb & m != 0 {
            out | m
        } else {
            out
        };
        proof {
            lemma_nonzero_square(bb & m);
            if bb & m != 0 {
                let (p, q) = choose|p: int, q: int| occupied(bb & m, p, q);
                lemma_occupied(bb, m, p, q);
                assert(occupied(bb, x as int, q));
            }
            if file_touched(bb, x as int) {
                let q = choose|q: int| occupied(bb, x as int, q);
                lemma_occupied(bb, m, x as int, q);
            }
            assert forall|a: int, b: int|
                #[trigger] occupied(next, a, b) <==> on_board(a, b) && a < x + 1 && file_touched(bb, a) by {
                lemma_occupied(out, m, a, b);
            }
        }
        out = next;
        x += 1;
    }
    out
}

/// The squares that a full board covers after moving up by `y` ranks: those
/// of rank `y` and above.
pub fn up(y: u8) -> (r: u64)
    ensures
        forall|a: int, b: int| #[trigger] occupied(r, a, b) <==> on_board(a, b) && b >= y,
{
    let r: u64 = shift::up(!0u64, y);
    proof {
        assert forall|a: int, b: int| #[trigger] occupied(r, a, b) <==> on_board(a, b) && b >= y by {
            crate::bit::lemma_full(0, a, b - y);
        }
    }
    r
}

/// The squares that a full board covers after moving down by `y` ranks: those
/// of rank `7 - y` and below.
pub fn down(y: u8) -> (r: u64)
    ensures
        forall|a: int, b: int| #[trigger] occupied(r, a, b) <==> on_board(a, b) && b + y <= 7,
{
    let r: u64 = shift::down(!0u64, y);
    proof {
        assert forall|a: int, b: int| #[trigger] occupied(r, a, b) <==> on_board(a, b) && b + y <= 7 by {
            crate::bit::lemma_full(0, a, b + y);
        }
    }
    r
}

/// The squares that a full board covers after moving left by `x` files: those
/// of file `x` and above.
pub fn left(x: u8) -> (r: u64)
    ensures
        forall|a: int, b: int| #[trigger] occupied(r, a, b) <==> on_board(a, b) && a >= x,
{
    let m: u64 = shl(0xff, x) & 0xff;
    let r: u64 = m | m << 8 | m << 16 | m << 24 | m << 32 | m << 40 | m << 48 | m << 56;
    proof {
        assert forall|a: int, b: int| #[trigger] occupied(r, a, b) <==> on_board(a, b) && a >= x by {
            if on_board(a, b) {
                if x < 64 {
                    lemma_mask_bits(x as u64, (a + 8 * b) as u64);
                } else {
                    lemma_mask_bits(0, (a + 8 * b) as u64);
                }
            }
        }
    }
    r
}

/// The squares that a full board covers after moving right by `x` files: those
/// of file `7 - x` and below.
pub fn right(x: u8) -> (r: u64)
    ensures
        forall|a: int, b: int| #[trigger] occupied(r, a, b) <==> on_board(a, b) && a + x <= 7,
{
    let m: u64 = shr(0xff, x) & 0xff;
    let r: u64 = m | m << 8 | m << 16 | m << 24 | m << 32 | m << 40 | m << 48 | m << 56;
    proof {
        assert forall|a: int, b: int| #[trigger] occupied(r, a, b) <==> on_board(a, b) && a + x <= 7 by {
            if on_board(a, b) {
                if x < 64 {
                    lemma_mask_bits(x as u64, (a + 8 * b) as u64);
                } else {
                    lemma_mask_bits(0, (a + 8 * b) as u64);
                }
            }
        }
    }
    r
}

} // verus!
