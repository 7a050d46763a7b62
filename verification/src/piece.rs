//! The squares that each kind of piece reaches from the squares of a mask.

use vstd::prelude::*;
use crate::bit::{lemma_occupied, lemma_xy_mask, occupied, on_board, xy, xy_mask};
use crate::color::Color;
use crate::mask;
use crate::shift::{self, Direction};
use crate::slide::{self, behind, ray, seen_at, stopped_at};

verus! {

/// The kind of a piece.
#[derive(Clone, Copy, Debug, PartialEq, Eq, Hash, Structural)]
pub enum PieceKind {
    Pawn,
    Knight,
    Bishop,
    Rook,
    Queen,
    King,
}

/// A piece: its kind and its side.
#[derive(Clone, Copy, Debug, PartialEq, Eq, Hash, Structural)]
pub struct Piece {
    pub kind: PieceKind,
    pub color: Color,
}

/// Whether a rook on a square of `bb` reaches `(a, b)`: along a file or a rank,
/// over free squares, up to and including the first square of `stop`.
pub open spec fn rook_reach(bb: u64, stop: u64, a: int, b: int) -> bool {
    ||| ray(bb, stop, Direction::Up, a, b)
    ||| ray(bb, stop, Direction::Down, a, b)
    ||| ray(bb, stop, Direction::Left, a, b)
    ||| ray(bb, stop, Direction::Right, a, b)
}

/// Whether a bishop on a square of `bb` reaches `(a, b)`: along a diagonal,
/// over free squares, up to and including the first square of `stop`.
pub open spec fn bishop_reach(bb: u64, stop: u64, a: int, b: int) -> bool {
    ||| ray(bb, stop, Direction::DownLeft, a, b)
    ||| ray(bb, stop, Direction::UpRight, a, b)
    ||| ray(bb, stop, Direction::DownRight, a, b)
    ||| ray(bb, stop, Direction::UpLeft, a, b)
}

/// Whether a queen on a square of `bb` reaches `(a, b)`: as a rook or as a bishop.
pub open spec fn queen_reach(bb: u64, stop: u64, a: int, b: int) -> bool {
    rook_reach(bb, stop, a, b) || bishop_reach(bb, stop, a, b)
}

/// Whether `(a, b)` is next to a square of `bb`, along a file, a rank or a diagonal.
pub open spec fn king_reach(bb: u64, a: int, b: int) -> bool {
    on_board(a, b) && {
        ||| occupied(bb, a, b - 1)
        ||| occupied(bb, a, b + 1)
        ||| occupied(bb, a - 1, b)
        ||| occupied(bb, a + 1, b)
        ||| occupied(bb, a - 1, b - 1)
        ||| occupied(bb, a + 1, b - 1)
        ||| occupied(bb, a - 1, b + 1)
        ||| occupied(bb, a + 1, b + 1)
    }
}

/// Whether `(a, b)` is a knight's jump away from a square of `bb`: two steps
/// along a file or a rank and one step across.
pub open spec fn knight_reach(bb: u64, a: int, b: int) -> bool {
    on_board(a, b) && {
        ||| occupied(bb, a - 1, b - 2)
        ||| occupied(bb, a - 2, b - 1)
        ||| occupied(bb, a + 1, b - 2)
        ||| occupied(bb, a + 2, b - 1)
        ||| occupied(bb, a - 1, b + 2)
        ||| occupied(bb, a - 2, b + 1)
        ||| occupied(bb, a + 1, b + 2)
        ||| occupied(bb, a + 2, b + 1)
    }
}

/// Whether `(a, b)` is diagonally in front of a square of `bb`, for a pawn
/// that moves by `dy` ranks (1 for white, -1 for black): the squares that such
/// a pawn attacks.
pub open spec fn pawn_hits(bb: u64, dy: int, a: int, b: int) -> bool {
    on_board(a, b) && (occupied(bb, a - 1, b - dy) || occupied(bb, a + 1, b - dy))
}

/// Whether a pawn on a square of `bb` that moves by `dy` ranks (1 for white, -1
/// for black) and starts on rank `home` reaches `(a, b)`:
/// one step forward onto a free square; two steps forward from its home rank
/// over a free square onto a free square; or one step diagonally forward onto a
/// square of `stop`.
pub open spec fn pawn_reach(bb: u64, stop: u64, dy: int, home: int, a: int, b: int) -> bool {
    on_board(a, b) && {
        ||| occupied(bb, a, b - dy) && !occupied(stop, a, b)
        ||| b - 2 * dy == home && occupied(bb, a, home) && !occupied(stop, a, b - dy) && !occupied(
            stop,
            a,
            b,
        )
        ||| pawn_hits(bb, dy, a, b) && occupied(stop, a, b)
    }
}

/// Whether a white pawn on a square of `bb` reaches `(a, b)`.
pub open spec fn pawn_up_reach(bb: u64, stop: u64, a: int, b: int) -> bool {
    pawn_reach(bb, stop, 1, 1, a, b)
}

/// Whether a black pawn on a square of `bb` reaches `(a, b)`.
pub open spec fn pawn_down_reach(bb: u64, stop: u64, a: int, b: int) -> bool {
    pawn_reach(bb, stop, -1, 6, a, b)
}

/// Whether a piece of the given kind and side on a square of `bb` reaches
/// `(a, b)` when the squares of `stop` are taken.
pub open spec fn reach(piece: Piece, bb: u64, stop: u64, a: int, b: int) -> bool {
    match piece.kind {
        PieceKind::Pawn => match piece.color {
            Color::White => pawn_up_reach(bb, stop, a, b),
            Color::Black => pawn_down_reach(bb, stop, a, b),
        },
        PieceKind::Knight => knight_reach(bb, a, b),
        PieceKind::Bishop => bishop_reach(bb, stop, a, b),
        PieceKind::Rook => rook_reach(bb, stop, a, b),
        PieceKind::Queen => queen_reach(bb, stop, a, b),
        PieceKind::King => king_reach(bb, a, b),
    }
}

/// Whether a piece of the given kind and side on a square of `bb` attacks
/// `(a, b)` when the squares of `stop` are taken. A pawn attacks the two
/// squares diagonally in front of it; every other piece attacks the squares
/// that it reaches.
pub open spec fn attacks(piece: Piece, bb: u64, stop: u64, a: int, b: int) -> bool {
    match piece.kind {
        PieceKind::Pawn => pawn_hits(
            bb,
            match piece.color {
                Color::White => 1,
                Color::Black => -1,
            },
            a,
            b,
        ),
        _ => reach(piece, bb, stop, a, b),
    }
}

/// What the pieces of one kind and side on a mask attack, one of them
/// attacks: the squares attacked from `bb`, without the squares of `bb`
/// itself, are those attacked from some single square of `bb`.
pub proof fn lemma_attacks_by_one(piece: Piece, bb: u64, stop: u64, a: int, b: int)
    ensures
        attacks(piece, bb, stop, a, b) ==> exists|x: u8, y: u8|
            x < 8 && y < 8 && occupied(bb, x as int, y as int) && #[trigger] attacks(
                piece,
                xy_mask(x, y),
                stop,
                a,
                b,
            ),
        forall|x: u8, y: u8|
            x < 8 && y < 8 && occupied(bb, x as int, y as int) && !occupied(bb, a, b)
                && #[trigger] attacks(piece, xy_mask(x, y), stop, a, b) ==> attacks(
                piece,
                bb,
                stop,
                a,
                b,
            ),
{
    if attacks(piece, bb, stop, a, b) {
        let o = lemma_attack_origin(piece, bb, stop, a, b);
        assert(attacks(piece, xy_mask(o.0, o.1), stop, a, b));
    }
    assert forall|x: u8, y: u8|
        x < 8 && y < 8 && occupied(bb, x as int, y as int) && !occupied(bb, a, b)
            && #[trigger] attacks(piece, xy_mask(x, y), stop, a, b) implies attacks(
        piece,
        bb,
        stop,
        a,
        b,
    ) by {
        lemma_attack_of_part(piece, bb, stop, x, y, a, b);
    }
}

proof fn lemma_attack_origin(piece: Piece, bb: u64, stop: u64, a: int, b: int) -> (o: (u8, u8))
    requires
        attacks(piece, bb, stop, a, b),
    ensures
        o.0 < 8,
        o.1 < 8,
        occupied(bb, o.0 as int, o.1 as int),
        attacks(piece, xy_mask(o.0, o.1), stop, a, b),
{
    let dy: int = match piece.color {
        Color::White => 1,
        Color::Black => -1,
    };
    match piece.kind {
        PieceKind::Pawn => {
            let o = if occupied(bb, a - 1, b - dy) {
                ((a - 1) as u8, (b - dy) as u8)
            } else {
                ((a + 1) as u8, (b - dy) as u8)
            };
            lemma_xy_mask(o.0, o.1, a - 1, b - dy);
            lemma_xy_mask(o.0, o.1, a + 1, b - dy);
            o
        },
        PieceKind::Knight => {
            let o: (int, int) = if occupied(bb, a - 1, b - 2) {
                (a - 1, b - 2)
            } else if occupied(bb, a - 2, b - 1) {
                (a - 2, b - 1)
            } else if occupied(bb, a + 1, b - 2) {
                (a + 1, b - 2)
            } else if occupied(bb, a + 2, b - 1) {
                (a + 2, b - 1)
            } else if occupied(bb, a - 1, b + 2) {
                (a - 1, b + 2)
            } else if occupied(bb, a - 2, b + 1) {
                (a - 2, b + 1)
            } else if occupied(bb, a + 1, b + 2) {
                (a + 1, b + 2)
            } else {
                (a + 2, b + 1)
            };
            lemma_xy_mask(o.0 as u8, o.1 as u8, o.0, o.1);
            (o.0 as u8, o.1 as u8)
        },
        PieceKind::King => {
            let o: (int, int) = if occupied(bb, a, b - 1) {
                (a, b - 1)
            } else if occupied(bb, a, b + 1) {
                (a, b + 1)
            } else if occupied(bb, a - 1, b) {
                (a - 1, b)
            } else if occupied(bb, a + 1, b) {
                (a + 1, b)
            } else if occupied(bb, a - 1, b - 1) {
                (a - 1, b - 1)
            } else if occupied(bb, a + 1, b - 1) {
                (a + 1, b - 1)
            } else if occupied(bb, a - 1, b + 1) {
                (a - 1, b + 1)
            } else {
                (a + 1, b + 1)
            };
            lemma_xy_mask(o.0 as u8, o.1 as u8, o.0, o.1);
            (o.0 as u8, o.1 as u8)
        },
        _ => {
            let dir = ray_taken(piece.kind, bb, stop, a, b);
            slide::lemma_ray_origin(bb, stop, dir, a, b)
        },
    }
}

/// A direction in which a ray from `bb` reaches `(a, b)`, for a piece that
/// moves along rays.
spec fn ray_taken(kind: PieceKind, bb: u64, stop: u64, a: int, b: int) -> Direction {
    let straight = if ray(bb, stop, Direction::Up, a, b) {
        Direction::Up
    } else if ray(bb, stop, Direction::Down, a, b) {
        Direction::Down
    } else if ray(bb, stop, Direction::Left, a, b) {
        Direction::Left
    } else {
        Direction::Right
    };
    let slanted = if ray(bb, stop, Direction::DownLeft, a, b) {
        Direction::DownLeft
    } else if ray(bb, stop, Direction::UpRight, a, b) {
        Direction::UpRight
    } else if ray(bb, stop, Direction::DownRight, a, b) {
        Direction::DownRight
    } else {
        Direction::UpLeft
    };
    if kind == PieceKind::Rook || (kind == PieceKind::Queen && rook_reach(bb, stop, a, b)) {
        straight
    } else {
        slanted
    }
}

proof fn lemma_attack_of_part(piece: Piece, bb: u64, stop: u64, x: u8, y: u8, a: int, b: int)
    requires
        x < 8,
        y < 8,
        occupied(bb, x as int, y as int),
        !occupied(bb, a, b),
        attacks(piece, xy_mask(x, y), stop, a, b),
    ensures
        attacks(piece, bb, stop, a, b),
{
    let m = xy_mask(x, y);
    match piece.kind {
        PieceKind::Pawn => {
            lemma_xy_mask(x, y, a - 1, b - 1);
            lemma_xy_mask(x, y, a + 1, b - 1);
            lemma_xy_mask(x, y, a - 1, b + 1);
            lemma_xy_mask(x, y, a + 1, b + 1);
        },
        PieceKind::Knight => {
            lemma_xy_mask(x, y, a - 1, b - 2);
            lemma_xy_mask(x, y, a - 2, b - 1);
            lemma_xy_mask(x, y, a + 1, b - 2);
            lemma_xy_mask(x, y, a + 2, b - 1);
            lemma_xy_mask(x, y, a - 1, b + 2);
            lemma_xy_mask(x, y, a - 2, b + 1);
            lemma_xy_mask(x, y, a + 1, b + 2);
            lemma_xy_mask(x, y, a + 2, b + 1);
        },
        PieceKind::King => {
            lemma_xy_mask(x, y, a, b - 1);
            lemma_xy_mask(x, y, a, b + 1);
            lemma_xy_mask(x, y, a - 1, b);
            lemma_xy_mask(x, y, a + 1, b);
            lemma_xy_mask(x, y, a - 1, b - 1);
            lemma_xy_mask(x, y, a + 1, b - 1);
            lemma_xy_mask(x, y, a - 1, b + 1);
            lemma_xy_mask(x, y, a + 1, b + 1);
        },
        _ => {
            let dir = ray_taken(piece.kind, m, stop, a, b);
            slide::lemma_ray_of_part(bb, stop, dir, x, y, a, b);
        },
    }
}

/// The squares that rooks on `bb` reach when the squares of `stop` are taken.
pub fn rook(bb: u64, stop: u64) -> (r: u64)
    ensures
        forall|a: int, b: int| #[trigger] occupied(r, a, b) <==> rook_reach(bb, stop, a, b),
{
    let u: u64 = slide::up(bb, stop);
    let d: u64 = slide::down(bb, stop);
    let l: u64 = slide::left(bb, stop);
    let ri: u64 = slide::right(bb, stop);
    proof {
        assert forall|a: int, b: int|
            #[trigger] occupied(u | d | l | ri, a, b) <==> rook_reach(bb, stop, a, b) by {
            lemma_occupied(u, d, a, b);
            lemma_occupied(u | d, l, a, b);
            lemma_occupied(u | d | l, ri, a, b);
        }
    }
    u | d | l | ri
}

/// The squares that bishops on `bb` reach when the squares of `stop` are taken.
pub fn bishop(bb: u64, stop: u64) -> (r: u64)
    ensures
        forall|a: int, b: int| #[trigger] occupied(r, a, b) <==> bishop_reach(bb, stop, a, b),
{
    let dl: u64 = slide::diag_left(bb, stop);
    let dr: u64 = slide::diag_right(bb, stop);
    let al: u64 = slide::anti_diag_left(bb, stop);
    let ar: u64 = slide::anti_diag_right(bb, stop);
    proof {
        assert forall|a: int, b: int|
            #[trigger] occupied(dl | dr | al | ar, a, b) <==> bishop_reach(bb, stop, a, b) by {
            lemma_occupied(dl, dr, a, b);
            lemma_occupied(dl | dr, al, a, b);
            lemma_occupied(dl | dr | al, ar, a, b);
        }
    }
    dl | dr | al | ar
}

/// The squares that queens on `bb` reach when the squares of `stop` are taken.
pub fn queen(bb: u64, stop: u64) -> (r: u64)
    ensures
        forall|a: int, b: int| #[trigger] occupied(r, a, b) <==> queen_reach(bb, stop, a, b),
{
    let s: u64 = rook(bb, stop);
    let t: u64 = bishop(bb, stop);
    proof {
        assert forall|a: int, b: int| #[trigger] occupied(s | t, a, b) <==> queen_reach(bb, stop, a, b) by {
            lemma_occupied(s, t, a, b);
        }
    }
    s | t
}

/// The squares next to a square of `bb`. The second argument is not used: a
/// king's step is never blocked.
pub fn king(bb: u64, _stop: u64) -> (r: u64)
    ensures
        forall|a: int, b: int| #[trigger] occupied(r, a, b) <==> king_reach(bb, a, b),
{
    let u: u64 = shift::up(bb, 1);
    let d: u64 = shift::down(bb, 1);
    let l: u64 = shift::left(bb, 1);
    let ri: u64 = shift::right(bb, 1);
    let ul: u64 = shift::up_left(bb, 1);
    let ur: u64 = shift::up_right(bb, 1);
    let dl: u64 = shift::down_left(bb, 1);
    let dr: u64 = shift::down_right(bb, 1);
    let r: u64 = u | d | l | ri | ul | ur | dl | dr;
    proof {
        assert forall|a: int, b: int| #[trigger] occupied(r, a, b) <==> king_reach(bb, a, b) by {
            lemma_occupied(u, d, a, b);
            lemma_occupied(u | d, l, a, b);
            lemma_occupied(u | d | l, ri, a, b);
            lemma_occupied(u | d | l | ri, ul, a, b);
            lemma_occupied(u | d | l | ri | ul, ur, a, b);
            lemma_occupied(u | d | l | ri | ul | ur, dl, a, b);
            lemma_occupied(u | d | l | ri | ul | ur | dl, dr, a, b);
        }
    }
    r
}

/// The squares a knight's jump away from a square of `bb`. The second argument
/// is not used: a knight's jump is never blocked.
pub fn knight(bb: u64, _stop: u64) -> (r: u64)
    ensures
        forall|a: int, b: int| #[trigger] occupied(r, a, b) <==> knight_reach(bb, a, b),
{
    let u1: u64 = shift::up(bb, 1);
    let u2: u64 = shift::up(bb, 2);
    let d1: u64 = shift::down(bb, 1);
    let d2: u64 = shift::down(bb, 2);
    let a1: u64 = shift::left(u2, 1);
    let a2: u64 = shift::left(u1, 2);
    let a3: u64 = shift::right(u2, 1);
    let a4: u64 = shift::right(u1, 2);
    let a5: u64 = shift::left(d2, 1);
    let a6: u64 = shift::left(d1, 2);
    let a7: u64 = shift::right(d2, 1);
    let a8: u64 = shift::right(d1, 2);
    let r: u64 = a1 | a2 | a3 | a4 | a5 | a6 | a7 | a8;
    proof {
        assert forall|a: int, b: int| #[trigger] occupied(r, a, b) <==> knight_reach(bb, a, b) by {
            lemma_occupied(a1, a2, a, b);
            lemma_occupied(a1 | a2, a3, a, b);
            lemma_occupied(a1 | a2 | a3, a4, a, b);
            lemma_occupied(a1 | a2 | a3 | a4, a5, a, b);
            lemma_occupied(a1 | a2 | a3 | a4 | a5, a6, a, b);
            lemma_occupied(a1 | a2 | a3 | a4 | a5 | a6, a7, a, b);
            lemma_occupied(a1 | a2 | a3 | a4 | a5 | a6 | a7, a8, a, b);
            assert(occupied(u2, a - 1, b) <==> on_board(a - 1, b) && occupied(bb, a - 1, b - 2));
            assert(occupied(u1, a - 2, b) <==> on_board(a - 2, b) && occupied(bb, a - 2, b - 1));
            assert(occupied(u2, a + 1, b) <==> on_board(a + 1, b) && occupied(bb, a + 1, b - 2));
            assert(occupied(u1, a + 2, b) <==> on_board(a + 2, b) && occupied(bb, a + 2, b - 1));
            assert(occupied(d2, a - 1, b) <==> on_board(a - 1, b) && occupied(bb, a - 1, b + 2));
            assert(occupied(d1, a - 2, b) <==> on_board(a - 2, b) && occupied(bb, a - 2, b + 1));
            assert(occupied(d2, a + 1, b) <==> on_board(a + 1, b) && occupied(bb, a + 1, b + 2));
            assert(occupied(d1, a + 2, b) <==> on_board(a + 2, b) && occupied(bb, a + 2, b + 1));
        }
    }
    r
}

/// The squares that black pawns on `bb` attack: one step diagonally down.
pub fn pawn_down_attacks(bb: u64) -> (r: u64)
    ensures
        forall|a: int, b: int| #[trigger] occupied(r, a, b) <==> pawn_hits(bb, -1, a, b),
{
    let l: u64 = shift::down_left(bb, 1);
    let ri: u64 = shift::down_right(bb, 1);
    proof {
        assert forall|a: int, b: int| #[trigger] occupied(l | ri, a, b) <==> pawn_hits(bb, -1, a, b) by {
            lemma_occupied(l, ri, a, b);
        }
    }
    l | ri
}

/// The squares that white pawns on `bb` attack: one step diagonally up.
pub fn pawn_up_attacks(bb: u64) -> (r: u64)
    ensures
        forall|a: int, b: int| #[trigger] occupied(r, a, b) <==> pawn_hits(bb, 1, a, b),
{
    let l: u64 = shift::up_left(bb, 1);
    let ri: u64 = shift::up_right(bb, 1);
    proof {
        assert forall|a: int, b: int| #[trigger] occupied(l | ri, a, b) <==> pawn_hits(bb, 1, a, b) by {
            lemma_occupied(l, ri, a, b);
        }
    }
    l | ri
}

/// The squares that black pawns on `bb` reach when the squares of `stop` are
/// taken: a step down onto a free square, two steps down from rank 6 over free
/// squares, or a diagonal step down onto a taken square.
pub fn pawn_down(bb: u64, stop: u64) -> (r: u64)
    ensures
        forall|a: int, b: int| #[trigger] occupied(r, a, b) <==> pawn_down_reach(bb, stop, a, b),
{
    let ahead: u64 = shift::down(bb, 1);
    let one: u64 = ahead & !stop;
    let rank: u64 = mask::row(5);
    let from_home: u64 = one & rank;
    let ahead2: u64 = shift::down(from_home, 1);
    let two: u64 = ahead2 & !stop;
    let diag: u64 = pawn_down_attacks(bb);
    let hits: u64 = diag & stop;
    let r: u64 = one | two | hits;
    proof {
        assert forall|a: int, b: int| #[trigger] occupied(r, a, b) <==> pawn_down_reach(bb, stop, a, b) by {
            lemma_occupied(one, two, a, b);
            lemma_occupied(one | two, hits, a, b);
            lemma_occupied(ahead, !stop, a, b);
            lemma_occupied(ahead, !stop, a, b + 1);
            lemma_occupied(stop, 0, a, b);
            lemma_occupied(stop, 0, a, b + 1);
            lemma_occupied(one, rank, a, b + 1);
            lemma_occupied(ahead2, !stop, a, b);
            lemma_occupied(diag, stop, a, b);
        }
    }
    r
}

/// The squares that white pawns on `bb` reach when the squares of `stop` are
/// taken: a step up onto a free square, two steps up from rank 1 over free
/// squares, or a diagonal step up onto a taken square.
pub fn pawn_up(bb: u64, stop: u64) -> (r: u64)
    ensures
        forall|a: int, b: int| #[trigger] occupied(r, a, b) <==> pawn_up_reach(bb, stop, a, b),
{
    let ahead: u64 = shift::up(bb, 1);
    let one: u64 = ahead & !stop;
    let rank: u64 = mask::row(2);
    let from_home: u64 = one & rank;
    let ahead2: u64 = shift::up(from_home, 1);
    let two: u64 = ahead2 & !stop;
    let diag: u64 = pawn_up_attacks(bb);
    let hits: u64 = diag & stop;
    let r: u64 = one | two | hits;
    proof {
        assert forall|a: int, b: int| #[trigger] occupied(r, a, b) <==> pawn_up_reach(bb, stop, a, b) by {
            lemma_occupied(one, two, a, b);
            lemma_occupied(one | two, hits, a, b);
            lemma_occupied(ahead, !stop, a, b);
            lemma_occupied(ahead, !stop, a, b - 1);
            lemma_occupied(stop, 0, a, b);
            lemma_occupied(stop, 0, a, b - 1);
            lemma_occupied(one, rank, a, b - 1);
            lemma_occupied(ahead2, !stop, a, b);
            lemma_occupied(diag, stop, a, b);
        }
    }
    r
}

/// The squares that the given piece reaches from `(x, y)` when the squares of
/// `stop` are taken.
pub fn piece(x: u8, y: u8, who: Piece, stop: u64) -> (r: u64)
    requires
        x < 8,
        y < 8,
    ensures
        forall|a: int, b: int| #[trigger] occupied(r, a, b) <==> reach(who, xy_mask(x, y), stop, a, b),
{
    let bb: u64 = xy(x, y);
    match who.kind {
        PieceKind::Pawn => match who.color {
            Color::White => pawn_up(bb, stop),
            Color::Black => pawn_down(bb, stop),
        },
        PieceKind::Knight => knight(bb, stop),
        PieceKind::Bishop => bishop(bb, stop),
        PieceKind::Rook => rook(bb, stop),
        PieceKind::Queen => queen(bb, stop),
        PieceKind::King => king(bb, stop),
    }
}

/// Whether `(a, b)` lies beyond `(x, y)` in the direction `dir`, on the same
/// file, rank or diagonal.
pub open spec fn beyond(dir: Direction, x: int, y: int, a: int, b: int) -> bool {
    match dir {
        Direction::Up => a == x && b > y,
        Direction::Down => a == x && b < y,
        Direction::Left => b == y && a > x,
        Direction::Right => b == y && a < x,
        Direction::UpLeft => a - x == b - y && a > x,
        Direction::UpRight => x - a == b - y && b > y,
        Direction::DownLeft => a - x == y - b && a > x,
        Direction::DownRight => x - a == y - b && a < x,
    }
}

/// With no square taken, the ray from `(x, y)` in the direction `dir` holds
/// exactly the squares of the board beyond `(x, y)` in that direction.
pub proof fn law_ray_on_empty_board(x: u8, y: u8, dir: Direction, a: int, b: int)
    requires
        x < 8,
        y < 8,
    ensures
        ray(xy_mask(x, y), 0, dir, a, b) <==> on_board(a, b) && beyond(
            dir,
            x as int,
            y as int,
            a,
            b,
        ),
{
    let m = xy_mask(x, y);
    lemma_xy_mask(x, y, a, b);
    assert forall|j: int| !#[trigger] stopped_at(0, dir, a, b, j) by {
        lemma_occupied(0, 0, behind(dir, a, b, j).0, behind(dir, a, b, j).1);
    }
    if ray(m, 0, dir, a, b) {
        let k = choose|k: int| 1 <= k && #[trigger] seen_at(m, 0, dir, a, b, k);
        lemma_xy_mask(x, y, behind(dir, a, b, k).0, behind(dir, a, b, k).1);
    }
    if on_board(a, b) && beyond(dir, x as int, y as int, a, b) {
        let k = if a != x {
            if a > x {
                a - x
            } else {
                x - a
            }
        } else {
            if b > y {
                b - y
            } else {
                y - b
            }
        };
        lemma_xy_mask(x, y, behind(dir, a, b, k).0, behind(dir, a, b, k).1);
        assert(seen_at(m, 0, dir, a, b, k));
    }
}

/// With no square taken, a rook on `(x, y)` reaches exactly the other squares
/// of its file and of its rank.
pub proof fn law_rook_on_empty_board(x: u8, y: u8, a: int, b: int)
    requires
        x < 8,
        y < 8,
    ensures
        rook_reach(xy_mask(x, y), 0, a, b) <==> on_board(a, b) && ((a == x) != (b == y)),
{
    law_ray_on_empty_board(x, y, Direction::Up, a, b);
    law_ray_on_empty_board(x, y, Direction::Down, a, b);
    law_ray_on_empty_board(x, y, Direction::Left, a, b);
    law_ray_on_empty_board(x, y, Direction::Right, a, b);
}

/// With no square taken, a bishop on `(x, y)` reaches exactly the other
/// squares of its two diagonals.
pub proof fn law_bishop_on_empty_board(x: u8, y: u8, a: int, b: int)
    requires
        x < 8,
        y < 8,
    ensures
        bishop_reach(xy_mask(x, y), 0, a, b) <==> on_board(a, b) && a != x && (a - x == b - y || a
            - x == y - b),
{
    law_ray_on_empty_board(x, y, Direction::UpLeft, a, b);
    law_ray_on_empty_board(x, y, Direction::UpRight, a, b);
    law_ray_on_empty_board(x, y, Direction::DownLeft, a, b);
    law_ray_on_empty_board(x, y, Direction::DownRight, a, b);
}

/// With no square taken, a queen on `(x, y)` reaches exactly the other squares
/// of its file, of its rank and of its two diagonals.
pub proof fn law_queen_on_empty_board(x: u8, y: u8, a: int, b: int)
    requires
        x < 8,
        y < 8,
    ensures
        queen_reach(xy_mask(x, y), 0, a, b) <==> on_board(a, b) && !(a == x && b == y) && (a == x
            || b == y || a - x == b - y || a - x == y - b),
{
    law_rook_on_empty_board(x, y, a, b);
    law_bishop_on_empty_board(x, y, a, b);
}

} // verus!
