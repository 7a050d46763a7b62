//! Rays: from every square of a mask, step by step in one direction, up to and
//! including the first stop square.

use vstd::prelude::*;
use crate::bit::{lemma_occupied, lemma_xy_mask, occupied, on_board, xy_mask};
use crate::shift::{shift, Direction};

verus! {

/// The square `j` steps behind `(a, b)`, against the direction `dir`.
pub open spec fn behind(dir: Direction, a: int, b: int, j: int) -> (int, int) {
    (a - dir.step_x(j), b - dir.step_y(j))
}

/// Whether the square `j` steps behind `(a, b)` is a stop square.
pub open spec fn stopped_at(stop: u64, dir: Direction, a: int, b: int, j: int) -> bool {
    occupied(stop, behind(dir, a, b, j).0, behind(dir, a, b, j).1)
}

/// Whether a square of `bb` lies exactly `k` steps behind `(a, b)` with no stop
/// square strictly between the two.
pub open spec fn seen_at(bb: u64, stop: u64, dir: Direction, a: int, b: int, k: int) -> bool {
    &&& occupied(bb, behind(dir, a, b, k).0, behind(dir, a, b, k).1)
    &&& forall|j: int| 1 <= j < k ==> !#[trigger] stopped_at(stop, dir, a, b, j)
}

/// Whether a square of `bb` lies between 1 and `n` steps behind `(a, b)` with
/// no stop square strictly between the two.
pub open spec fn seen_within(bb: u64, stop: u64, dir: Direction, a: int, b: int, n: int) -> bool {
    exists|k: int| 1 <= k <= n && #[trigger] seen_at(bb, stop, dir, a, b, k)
}

/// Whether `(a, b)` lies on a ray that leaves a square of `bb` in the direction
/// `dir`: the ray runs over free squares and ends on the first stop square,
/// which it includes. The squares of `bb` themselves are left out.
pub open spec fn ray(bb: u64, stop: u64, dir: Direction, a: int, b: int) -> bool {
    &&& on_board(a, b)
    &&& !occupied(bb, a, b)
    &&& exists|k: int| 1 <= k && #[trigger] seen_at(bb, stop, dir, a, b, k)
}

/// A square seen `k + 1` steps back is a square seen `k` steps back from the
/// square one step back, if that one is not a stop square.
proof fn lemma_seen_step(bb: u64, stop: u64, dir: Direction, a: int, b: int, k: int)
    requires
        k >= 1,
        on_board(a, b),
    ensures
        seen_at(bb, stop, dir, a, b, k + 1) <==> {
            let p = behind(dir, a, b, 1);
            occupied(stop, p.0, p.1) == false && seen_at(bb, stop, dir, p.0, p.1, k)
        },
{
    let p = behind(dir, a, b, 1);
    assert(behind(dir, p.0, p.1, k) == behind(dir, a, b, k + 1));
    if seen_at(bb, stop, dir, a, b, k + 1) {
        assert(!stopped_at(stop, dir, a, b, 1));
        assert forall|j: int| 1 <= j < k implies !#[trigger] stopped_at(stop, dir, p.0, p.1, j) by {
            assert(behind(dir, p.0, p.1, j) == behind(dir, a, b, j + 1));
            assert(!stopped_at(stop, dir, a, b, j + 1));
        }
    }
    if !occupied(stop, p.0, p.1) && seen_at(bb, stop, dir, p.0, p.1, k) {
        assert forall|j: int| 1 <= j < k + 1 implies !#[trigger] stopped_at(stop, dir, a, b, j) by {
            if j > 1 {
                assert(behind(dir, p.0, p.1, j - 1) == behind(dir, a, b, j));
                assert(!stopped_at(stop, dir, p.0, p.1, j - 1));
            }
        }
    }
}

/// One more round of the loop sees one step further.
proof fn lemma_slide_round(bb: u64, stop: u64, dir: Direction, out: u64, next: u64, n: int)
    requires
        n >= 1,
        forall|a: int, b: int|
            #[trigger] occupied(out, a, b) <==> on_board(a, b) && seen_within(bb, stop, dir, a, b, n),
        forall|a: int, b: int|
            #[trigger] occupied(next, a, b) <==> occupied(out, a, b) || (on_board(a, b) && {
                let p = behind(dir, a, b, 1);
                occupied(out, p.0, p.1) && !occupied(stop, p.0, p.1)
            }),
    ensures
        forall|a: int, b: int|
            #[trigger] occupied(next, a, b) <==> on_board(a, b) && seen_within(bb, stop, dir, a, b, n + 1),
{
    assert forall|a: int, b: int|
        #[trigger] occupied(next, a, b) <==> on_board(a, b) && seen_within(bb, stop, dir, a, b, n + 1) by {
        let p = behind(dir, a, b, 1);
        if occupied(next, a, b) {
            if occupied(out, a, b) {
                let k = choose|k: int| 1 <= k <= n && #[trigger] seen_at(bb, stop, dir, a, b, k);
                assert(seen_at(bb, stop, dir, a, b, k));
            } else {
                let k = choose|k: int|
                    1 <= k <= n && #[trigger] seen_at(bb, stop, dir, p.0, p.1, k);
                lemma_seen_step(bb, stop, dir, a, b, k);
                assert(seen_at(bb, stop, dir, a, b, k + 1));
            }
        }
        if on_board(a, b) && seen_within(bb, stop, dir, a, b, n + 1) {
            let k = choose|k: int| 1 <= k <= n + 1 && #[trigger] seen_at(bb, stop, dir, a, b, k);
            if k == 1 {
                assert(seen_at(bb, stop, dir, a, b, 1));
                assert(seen_within(bb, stop, dir, a, b, n));
            } else {
                lemma_seen_step(bb, stop, dir, a, b, k - 1);
                assert(seen_at(bb, stop, dir, p.0, p.1, k - 1));
                assert(on_board(p.0, p.1));
                assert(seen_within(bb, stop, dir, p.0, p.1, n));
            }
        }
    }
}

/// A ray that leaves a mask leaves one of its squares: the ray from that
/// square alone reaches the same square.
pub proof fn lemma_ray_origin(bb: u64, stop: u64, dir: Direction, a: int, b: int) -> (o: (u8, u8))
    requires
        ray(bb, stop, dir, a, b),
    ensures
        o.0 < 8,
        o.1 < 8,
        occupied(bb, o.0 as int, o.1 as int),
        ray(xy_mask(o.0, o.1), stop, dir, a, b),
{
    let k = choose|k: int| 1 <= k && #[trigger] seen_at(bb, stop, dir, a, b, k);
    let p = behind(dir, a, b, k);
    let o = (p.0 as u8, p.1 as u8);
    lemma_xy_mask(o.0, o.1, p.0, p.1);
    lemma_xy_mask(o.0, o.1, a, b);
    assert(seen_at(xy_mask(o.0, o.1), stop, dir, a, b, k));
    o
}

/// The ray from one square of a mask is part of the rays from the mask,
/// but for the squares of the mask itself.
pub proof fn lemma_ray_of_part(bb: u64, stop: u64, dir: Direction, x: u8, y: u8, a: int, b: int)
    requires
        x < 8,
        y < 8,
        occupied(bb, x as int, y as int),
        ray(xy_mask(x, y), stop, dir, a, b),
        !occupied(bb, a, b),
    ensures
        ray(bb, stop, dir, a, b),
{
    let k = choose|k: int| 1 <= k && #[trigger] seen_at(xy_mask(x, y), stop, dir, a, b, k);
    let p = behind(dir, a, b, k);
    lemma_xy_mask(x, y, p.0, p.1);
    assert(seen_at(bb, stop, dir, a, b, k));
}

/// From every square of `bb`, the squares in the direction `dir` up to and
/// including the first square of `stop`; the squares of `bb` are left out.
pub fn slide(bb: u64, stop: u64, dir: Direction) -> (r: u64)
    ensures
        forall|a: int, b: int| #[trigger] occupied(r, a, b) <==> ray(bb, stop, dir, a, b),
{
    let mut out: u64 = shift(bb, dir, 1);
    proof {
        assert forall|a: int, b: int|
            #[trigger] occupied(out, a, b) <==> on_board(a, b) && seen_within(bb, stop, dir, a, b, 1) by {
            if occupied(out, a, b) {
                assert(seen_at(bb, stop, dir, a, b, 1));
            }
        }
    }
    let mut n: u8 = 0;
    while n < 7
        invariant
            n <= 7,
            forall|a: int, b: int|
                #[trigger] occupied(out, a, b) <==> on_board(a, b) && seen_within(
                    bb,
                    stop,
                    dir,
                    a,
                    b,
                    n + 1,
                ),
        decreases 7 - n,
    {
        let front: u64 = out & !stop;
        let step: u64 = shift(front, dir, 1);
        let next: u64 = out | step;
        proof {
            assert forall|a: int, b: int|
                #[trigger] occupied(next, a, b) <==> occupied(out, a, b) || (on_board(a, b) && {
                    let p = behind(dir, a, b, 1);
                    occupied(out, p.0, p.1) && !occupied(stop, p.0, p.1)
                }) by {
                let p = behind(dir, a, b, 1);
                lemma_occupied(out, step, a, b);
                lemma_occupied(out, !stop, p.0, p.1);
                lemma_occupied(stop, 0, p.0, p.1);
            }
            lemma_slide_round(bb, stop, dir, out, next, n + 1);
        }
        out = next;
        n += 1;
    }
    let r: u64 = out & !bb;
    proof {
        assert forall|a: int, b: int| #[trigger] occupied(r, a, b) <==> ray(bb, stop, dir, a, b) by {
            lemma_occupied(out, !bb, a, b);
            lemma_occupied(bb, 0, a, b);
            if ray(bb, stop, dir, a, b) {
                let k = choose|k: int| 1 <= k && #[trigger] seen_at(bb, stop, dir, a, b, k);
                assert(on_board(behind(dir, a, b, k).0, behind(dir, a, b, k).1));
                assert(k <= 7);
            }
            if occupied(r, a, b) {
                let k = choose|k: int| 1 <= k <= 8 && #[trigger] seen_at(bb, stop, dir, a, b, k);
                assert(seen_at(bb, stop, dir, a, b, k));
            }
        }
    }
    r
}

/// Slides upwards.
pub fn up(bb: u64, stop: u64) -> (r: u64)
    ensures
        forall|a: int, b: int| #[trigger] occupied(r, a, b) <==> ray(bb, stop, Direction::Up, a, b),
{
    slide(bb, stop, Direction::Up)
}

/// Slides downwards.
pub fn down(bb: u64, stop: u64) -> (r: u64)
    ensures
        forall|a: int, b: int| #[trigger] occupied(r, a, b) <==> ray(bb, stop, Direction::Down, a, b),
{
    slide(bb, stop, Direction::Down)
}

/// Slides to the right.
pub fn right(bb: u64, stop: u64) -> (r: u64)
    ensures
        forall|a: int, b: int| #[trigger] occupied(r, a, b) <==> ray(bb, stop, Direction::Right, a, b),
{
    slide(bb, stop, Direction::Right)
}

/// Slides to the left.
pub fn left(bb: u64, stop: u64) -> (r: u64)
    ensures
        forall|a: int, b: int| #[trigger] occupied(r, a, b) <==> ray(bb, stop, Direction::Left, a, b),
{
    slide(bb, stop, Direction::Left)
}

/// Slides diagonally up-right.
pub fn diag_right(bb: u64, stop: u64) -> (r: u64)
    ensures
        forall|a: int, b: int| #[trigger] occupied(r, a, b) <==> ray(bb, stop, Direction::UpRight, a, b),
{
    slide(bb, stop, Direction::UpRight)
}

/// Slides diagonally down-left.
pub fn diag_left(bb: u64, stop: u64) -> (r: u64)
    ensures
        forall|a: int, b: int| #[trigger] occupied(r, a, b) <==> ray(bb, stop, Direction::DownLeft, a, b),
{
    slide(bb, stop, Direction::DownLeft)
}

/// Slides diagonally up-left.
pub fn anti_diag_right(bb: u64, stop: u64) -> (r: u64)
    ensures
        forall|a: int, b: int| #[trigger] occupied(r, a, b) <==> ray(bb, stop, Direction::UpLeft, a, b),
{
    slide(bb, stop, Direction::UpLeft)
}

/// Slides diagonally down-right.
pub fn anti_diag_left(bb: u64, stop: u64) -> (r: u64)
    ensures
        forall|a: int, b: int| #[trigger] occupied(r, a, b) <==> ray(bb, stop, Direction::DownRight, a, b),
{
    slide(bb, stop, Direction::DownRight)
}

} // verus!
