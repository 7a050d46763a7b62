//! Shifts that are defined for every distance, and conversions between a mask
//! and the squares it holds.

use vstd::prelude::*;
use crate::bit::{
    bit_at, idx_mask, lemma_bit_at, lemma_bit_at_shift, lemma_idx_mask, lemma_nonzero_square,
    lemma_occupied, lemma_same_bits, occupied,
};

verus! {

/// `x` shifted right by `n` bits; zero once `n` reaches the word's width.
pub open spec fn shr_spec(x: u64, n: u8) -> u64 {
    if n < 64 {
        x >> n
    } else {
        0
    }
}

/// `x` shifted left by `n` bits; zero once `n` reaches the word's width.
pub open spec fn shl_spec(x: u64, n: u8) -> u64 {
    if n < 64 {
        x << n
    } else {
        0
    }
}

/// Shifts right by `n`. A distance of 64 or more shifts every bit out.
#[verifier::when_used_as_spec(shr_spec)]
pub fn shr(x: u64, n: u8) -> (r: u64)
    ensures
        r == shr_spec(x, n),
{
    if n < 64 {
        x >> n
    } else {
        0
    }
}

/// Shifts left by `n`. A distance of 64 or more shifts every bit out.
#[verifier::when_used_as_spec(shl_spec)]
pub fn shl(x: u64, n: u8) -> (r: u64)
    ensures
        r == shl_spec(x, n),
{
    if n < 64 {
        x << n
    } else {
        0
    }
}

proof fn lemma_byte_bits(v: u64, k: u64)
    by (bit_vector)
    requires
        v <= 0xff,
        k < 64,
    ensures
        (v >> k) & 1 == 1 ==> k < 8,
        k < 8 ==> v | (1u64 << k) <= 0xff,
{
}

/// Shifting right twice is shifting right once by the sum.
proof fn lemma_shr_twice(m: u64, n: int, s: u8)
    requires
        0 <= n,
        s < 64,
    ensures
        far_right(m, n) >> s == far_right(m, n + s),
{
    assert forall|i: int| 0 <= i < 64 implies (bit_at(far_right(m, n) >> s, i) <==> bit_at(
        far_right(m, n + s),
        i,
    )) by {
        lemma_bit_at_shift(far_right(m, n), s, i);
        lemma_bit_at(0, 0, i + s);
        lemma_bit_at(0, 0, i);
        if n < 64 {
            lemma_bit_at_shift(m, n as u8, i + s);
        }
        if n + s < 64 {
            lemma_bit_at_shift(m, (n + s) as u8, i);
        }
    }
    lemma_same_bits(far_right(m, n) >> s, far_right(m, n + s));
}

/// Whether rank `y` of `data` holds a square on one of the files that the
/// byte `mask` names, bit `i` of it standing for file `i`.
pub open spec fn rank_meets(data: u64, mask: u8, y: int) -> bool {
    exists|i: int| 0 <= i < 8 && bit_at(mask as u64, i) && occupied(data, i, y)
}

/// Takes a bitmask to apply to each byte of the input, and packs the
/// resulting bits into a byte: bit `y` of the result says whether rank `y` of
/// `data` holds a square on one of the files of `mask`.
pub fn mask_to_byte(data: u64, mask: u8) -> (r: u8)
    ensures
        forall|y: int|
            0 <= y < 8 ==> (#[trigger] bit_at(r as u64, y) <==> rank_meets(data, mask, y)),
{
    let mut out: u64 = 0;
    let mut y: u8 = 0;
    proof {
        assert forall|j: int| !bit_at(0, j) by {
            lemma_bit_at(0, 0, j);
        }
    }
    while y < 8
        invariant
            y <= 8,
            out <= 0xff,
            forall|j: int| #[trigger] bit_at(out, j) <==> 0 <= j < y && rank_meets(data, mask, j),
        decreases 8 - y,
    {
        let m: u64 = (mask as u64) << (8 * y);
        let hit: bool = data & m != 0;
        let next: u64 = if hit {
            out | (1u64 << y)
        } else {
            out
        };
        proof {
            lemma_byte_bits(out, y as u64);
            lemma_nonzero_square(data & m);
            if hit {
                let (a, b) = choose|a: int, b: int| occupied(data & m, a, b);
                lemma_occupied(data, m, a, b);
                lemma_bit_at_shift(mask as u64, (8 * y) as u8, a + 8 * b);
                lemma_byte_bits(mask as u64, (a + 8 * b - 8 * y) as u64);
                assert(b == y);
                assert(rank_meets(data, mask, y as int));
            }
            if rank_meets(data, mask, y as int) {
                let i = choose|i: int| 0 <= i < 8 && bit_at(mask as u64, i) && occupied(data, i, y as int);
                lemma_bit_at_shift(mask as u64, (8 * y) as u8, i + 8 * y);
                lemma_occupied(data, m, i, y as int);
            }
            assert forall|j: int| #[trigger] bit_at(next, j) <==> 0 <= j < y + 1 && rank_meets(data, mask, j) by {
                lemma_bit_at(out, idx_mask(y), j);
                lemma_idx_mask(y, j);
            }
        }
        out = next;
        y += 1;
    }
    out as u8
}

/// `m` shifted right by `n` bits, for any `n`: zero once every bit has left.
pub open spec fn far_right(m: u64, n: int) -> u64 {
    if 0 <= n < 64 {
        m >> (n as u64)
    } else {
        0
    }
}

/// Whether `data` meets the byte `mask` after the mask, which starts on the
/// highest byte, has been moved down `k` times by `8 + offset` bits.
pub open spec fn meets_moved(data: u64, mask: u8, offset: i8, k: int) -> bool {
    data & far_right((mask as u64) << 56, k * (8 + offset)) != 0
}

/// Takes a bitmask to apply to the input byte by byte, moving it by `offset`
/// more bits at each byte, and packs the resulting bits into a byte. The mask
/// starts on the highest byte; bit `j` of the result says whether `data`
/// meets the mask after it has been moved down `7 - j` times by `8 + offset`
/// bits.
pub fn mask_to_byte_offset(data: u64, mask: u8, offset: i8) -> (r: u8)
    requires
        0 <= 8 + offset < 64,
    ensures
        forall|j: int|
            0 <= j < 8 ==> (#[trigger] bit_at(r as u64, j) <==> meets_moved(
                data,
                mask,
                offset,
                7 - j,
            )),
{
    let top: u64 = (mask as u64) << 56;
    let stride: u8 = (offset + 8) as u8;
    let mut m: u64 = top;
    let mut out: u64 = 0;
    let mut k: u8 = 0;
    proof {
        assert forall|j: int| !bit_at(0, j) by {
            lemma_bit_at(0, 0, j);
        }
        lemma_bit_at_shift(top, 0, 0);
    }
    while k < 8
        invariant
            k <= 8,
            out <= 0xff,
            stride == 8 + offset,
            stride < 64,
            top == (mask as u64) << 56,
            m == far_right(top, k * stride),
            forall|j: int|
                #[trigger] bit_at(out, j) <==> 7 - k < j <= 7 && meets_moved(
                    data,
                    mask,
                    offset,
                    7 - j,
                ),
        decreases 8 - k,
    {
        let hit: bool = data & m != 0;
        let next: u64 = if hit {
            out | (1u64 << (7 - k))
        } else {
            out
        };
        proof {
            lemma_byte_bits(out, (7 - k) as u64);
            assert forall|j: int|
                #[trigger] bit_at(next, j) <==> 7 - (k + 1) < j <= 7 && meets_moved(
                    data,
                    mask,
                    offset,
                    7 - j,
                ) by {
                lemma_bit_at(out, idx_mask((7 - k) as u8), j);
                lemma_idx_mask((7 - k) as u8, j);
            }
            assert((k + 1) * stride == k * stride + stride) by (nonlinear_arith);
            assert(0 <= k * stride) by (nonlinear_arith)
                requires
                    0 <= k,
                    0 <= stride,
            ;
            lemma_shr_twice(top, k * stride, stride);
        }
        m = m >> stride;
        out = next;
        k += 1;
    }
    out as u8
}

/// The mask as a grid of squares: `grid[y][x]` says whether `(x, y)` belongs
/// to `bb`.
pub fn bitboard_to_grid(bb: u64) -> (grid: [[bool; 8]; 8])
    ensures
        forall|x: int, y: int|
            0 <= x < 8 && 0 <= y < 8 ==> #[trigger] grid[y][x] == occupied(bb, x, y),
{
    let mut grid: [[bool; 8]; 8] = [[false; 8]; 8];
    let mut y: u8 = 0;
    while y < 8
        invariant
            y <= 8,
            forall|a: int, b: int| 0 <= a < 8 && 0 <= b < y ==> grid[b][a] == occupied(bb, a, b),
        decreases 8 - y,
    {
        let mut row: [bool; 8] = [false; 8];
        let mut x: u8 = 0;
        while x < 8
            invariant
                x <= 8,
                y < 8,
                forall|a: int| 0 <= a < x ==> row[a] == occupied(bb, a, y as int),
            decreases 8 - x,
        {
            row[x as usize] = crate::bit::get(bb, x, y);
            x += 1;
        }
        grid[y as usize] = row;
        y += 1;
    }
    grid
}

/// The place of a square in the order of all squares, rank by rank from `(0, 0)`.
pub open spec fn square_code(sq: (u8, u8)) -> int {
    sq.0 + 8 * sq.1
}

/// The squares that the grid marks, ordered rank by rank from `(0, 0)`:
/// `(x, y)` is listed when `grid[y][x]` is set.
pub fn grid_to_coords(grid: [[bool; 8]; 8]) -> (r: Vec<(u8, u8)>)
    ensures
        forall|i: int|
            0 <= i < r.len() ==> (#[trigger] r[i]).0 < 8 && r[i].1 < 8 && grid[r[i].1 as int][r[i].0 as int],
        forall|x: u8, y: u8|
            x < 8 && y < 8 && grid[y as int][x as int] ==> #[trigger] r@.contains((x, y)),
        forall|i: int, j: int|
            0 <= i < j < r.len() ==> square_code(#[trigger] r[i]) < square_code(#[trigger] r[j]),
{
    let mut out: Vec<(u8, u8)> = Vec::new();
    let mut code: u8 = 0;
    while code < 64
        invariant
            code <= 64,
            forall|i: int|
                0 <= i < out.len() ==> out[i].0 < 8 && out[i].1 < 8 && grid[out[i].1 as int][out[i].0 as int]
                    && square_code(#[trigger] out[i]) < code,
            forall|x: u8, y: u8|
                x < 8 && y < 8 && grid[y as int][x as int] && x + 8 * y < code ==> out@.contains(
                    (x, y),
                ),
            forall|i: int, j: int|
                0 <= i < j < out.len() ==> square_code(out[i]) < square_code(out[j]),
        decreases 64 - code,
    {
        let x: u8 = code % 8;
        let y: u8 = code / 8;
        let ghost before = out@;
        if grid[y as usize][x as usize] {
            out.push((x, y));
        }
        proof {
            assert forall|a: u8, b: u8|
                a < 8 && b < 8 && grid[b as int][a as int] && a + 8 * b < code + 1 implies out@.contains(
                (a, b),
            ) by {
                if a + 8 * b < code {
                    assert(before.contains((a, b)));
                    let i = choose|i: int| 0 <= i < before.len() && before[i] == (a, b);
                    assert(out@[i] == (a, b));
                } else {
                    assert(a == x && b == y);
                    assert(out@[out.len() - 1] == (a, b));
                }
            }
        }
        code += 1;
    }
    out
}

/// The squares of the mask, ordered rank by rank from `(0, 0)`.
pub fn bitboard_to_coords(bb: u64) -> (r: Vec<(u8, u8)>)
    ensures
        forall|i: int| 0 <= i < r.len() ==> occupied(bb, (#[trigger] r[i]).0 as int, r[i].1 as int),
        forall|x: u8, y: u8|
            occupied(bb, x as int, y as int) ==> #[trigger] r@.contains((x, y)),
        forall|i: int, j: int|
            0 <= i < j < r.len() ==> square_code(#[trigger] r[i]) < square_code(#[trigger] r[j]),
{
    grid_to_coords(bitboard_to_grid(bb))
}

/// Whether `(x, y)` is a square of the mask. No square off the board is.
pub fn bitboard_to_coords_contains(bb: u64, x: u8, y: u8) -> (r: bool)
    ensures
        r == occupied(bb, x as int, y as int),
{
    x < 8 && y < 8 && crate::bit::get(bb, x, y)
}

} // verus!
