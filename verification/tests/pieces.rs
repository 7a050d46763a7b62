use bitboard::color::Color;
use bitboard::piece::{self, Piece, PieceKind};
use bitboard::{bit, mask, slide};
use bitboard::shift::Direction;

#[test]
fn knight_in_the_corner_has_two_squares() {
    let moves = piece::knight(bit::xy(0, 0), 0);
    assert_eq!(moves.count_ones(), 2);
    assert_eq!(moves, bit::xy(1, 2) | bit::xy(2, 1));
}

#[test]
fn knight_in_the_centre_has_eight_squares() {
    let moves = piece::knight(bit::xy(3, 3), 0);
    assert_eq!(moves.count_ones(), 8);
    assert_eq!(
        moves,
        bit::xy(1, 2) | bit::xy(1, 4) | bit::xy(2, 1) | bit::xy(2, 5) | bit::xy(4, 1)
            | bit::xy(4, 5) | bit::xy(5, 2) | bit::xy(5, 4)
    );
}

#[test]
fn king_in_the_centre_has_eight_squares() {
    let moves = piece::king(bit::xy(4, 4), 0);
    assert_eq!(moves.count_ones(), 8);
    assert_eq!(piece::king(bit::xy(0, 0), 0), bit::xy(1, 0) | bit::xy(0, 1) | bit::xy(1, 1));
    assert_eq!(piece::king(bit::xy(7, 3), 0).count_ones(), 5);
}

#[test]
fn rook_on_an_empty_board_sees_file_and_rank() {
    for x in 0..8u8 {
        for y in 0..8u8 {
            let from = bit::xy(x, y);
            let moves = piece::rook(from, 0);
            assert_eq!(moves, (mask::file(x) | mask::row(y)) & !from);
            assert_eq!(moves.count_ones(), 14);
        }
    }
}

#[test]
fn bishop_on_an_empty_board_sees_its_diagonals() {
    assert_eq!(piece::bishop(bit::xy(0, 0), 0), 0x8040201008040200);
    assert_eq!(piece::bishop(bit::xy(0, 0), 0).count_ones(), 7);
    assert_eq!(piece::bishop(bit::xy(3, 3), 0).count_ones(), 13);
    assert_eq!(piece::bishop(bit::xy(7, 0), 0), 0x0102040810204000);
    for x in 0..8u8 {
        for y in 0..8u8 {
            let moves = piece::bishop(bit::xy(x, y), 0);
            for a in 0..8u8 {
                for b in 0..8u8 {
                    let dx = a as i32 - x as i32;
                    let dy = b as i32 - y as i32;
                    assert_eq!(bit::get(moves, a, b), dx != 0 && (dx == dy || dx == -dy));
                }
            }
        }
    }
}

#[test]
fn queen_is_rook_and_bishop() {
    let from = bit::xy(3, 3);
    let stop = bit::xy(3, 5) | bit::xy(5, 5);
    assert_eq!(piece::queen(from, stop), piece::rook(from, stop) | piece::bishop(from, stop));
    assert_eq!(piece::queen(from, 0).count_ones(), 27);
}

#[test]
fn rays_stop_on_the_first_blocker() {
    let from = bit::xy(3, 0);
    let stop = bit::xy(3, 4) | bit::xy(3, 6);
    assert_eq!(
        slide::up(from, stop),
        bit::xy(3, 1) | bit::xy(3, 2) | bit::xy(3, 3) | bit::xy(3, 4)
    );
    assert_eq!(slide::slide(from, stop, Direction::Up), slide::up(from, stop));
    assert_eq!(slide::down(from, stop), 0);
    // a blocker right next to the origin is still reached
    assert_eq!(slide::left(from, bit::xy(4, 0)), bit::xy(4, 0));
    // the origin itself as a blocker does not stop its own ray
    assert_eq!(slide::right(from, from), bit::xy(2, 0) | bit::xy(1, 0) | bit::xy(0, 0));
}

#[test]
fn white_pawn_pushes_and_captures() {
    let pawn = bit::xy(4, 1);
    assert_eq!(piece::pawn_up(pawn, pawn), bit::xy(4, 2) | bit::xy(4, 3));
    // blocked on the second step only
    assert_eq!(piece::pawn_up(pawn, pawn | bit::xy(4, 3)), bit::xy(4, 2));
    // blocked right ahead: no push at all
    assert_eq!(piece::pawn_up(pawn, pawn | bit::xy(4, 2)), 0);
    // captures onto taken squares
    let stop = pawn | bit::xy(3, 2) | bit::xy(5, 2);
    assert_eq!(
        piece::pawn_up(pawn, stop),
        bit::xy(4, 2) | bit::xy(4, 3) | bit::xy(3, 2) | bit::xy(5, 2)
    );
    // no double step away from the home rank
    assert_eq!(piece::pawn_up(bit::xy(4, 2), 0), bit::xy(4, 3));
    assert_eq!(piece::pawn_up(bit::xy(4, 7), 0), 0);
    assert_eq!(piece::pawn_up_attacks(bit::xy(0, 1)), bit::xy(1, 2));
    assert_eq!(piece::pawn_up_attacks(bit::xy(4, 1)), bit::xy(3, 2) | bit::xy(5, 2));
}

#[test]
fn black_pawn_pushes_and_captures() {
    let pawn = bit::xy(4, 6);
    assert_eq!(piece::pawn_down(pawn, pawn), bit::xy(4, 5) | bit::xy(4, 4));
    assert_eq!(piece::pawn_down(pawn, pawn | bit::xy(4, 4)), bit::xy(4, 5));
    assert_eq!(piece::pawn_down(pawn, pawn | bit::xy(4, 5)), 0);
    assert_eq!(piece::pawn_down(pawn, pawn | bit::xy(5, 5)), bit::xy(4, 5) | bit::xy(4, 4) | bit::xy(5, 5));
    assert_eq!(piece::pawn_down(bit::xy(4, 5), 0), bit::xy(4, 4));
    assert_eq!(piece::pawn_down(bit::xy(4, 0), 0), 0);
    assert_eq!(piece::pawn_down_attacks(bit::xy(7, 6)), bit::xy(6, 5));
}

#[test]
fn piece_dispatches_on_kind_and_side() {
    let stop = bit::xy(2, 2);
    let of = |kind, color| Piece { kind, color };
    assert_eq!(piece::piece(2, 2, of(PieceKind::Rook, Color::White), stop), piece::rook(stop, stop));
    assert_eq!(piece::piece(2, 2, of(PieceKind::Bishop, Color::Black), stop), piece::bishop(stop, stop));
    assert_eq!(piece::piece(2, 2, of(PieceKind::Queen, Color::White), stop), piece::queen(stop, stop));
    assert_eq!(piece::piece(2, 2, of(PieceKind::King, Color::White), stop), piece::king(stop, stop));
    assert_eq!(piece::piece(2, 2, of(PieceKind::Knight, Color::Black), stop), piece::knight(stop, stop));
    assert_eq!(piece::piece(2, 2, of(PieceKind::Pawn, Color::White), stop), bit::xy(2, 3));
    assert_eq!(piece::piece(2, 2, of(PieceKind::Pawn, Color::Black), stop), bit::xy(2, 1));
}

#[test]
fn colors_are_opposite() {
    assert_eq!(Color::White.opposite(), Color::Black);
    assert_eq!(Color::Black.opposite(), Color::White);
    assert_eq!(!Color::White, Color::Black);
    assert_eq!(Color::default(), Color::White);
}
