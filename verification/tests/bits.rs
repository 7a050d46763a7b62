use bitboard::{bit, helper, mask, shift};
use bitboard::shift::Direction;

#[test]
fn xy_is_file_plus_eight_ranks() {
    assert_eq!(bit::xy(0, 0), 1);
    assert_eq!(bit::xy(7, 0), 0x80);
    assert_eq!(bit::xy(0, 1), 0x100);
    assert_eq!(bit::xy(3, 5), 1u64 << 43);
    assert_eq!(bit::xy(7, 7), 1u64 << 63);
}

#[test]
fn get_after_set_is_true_only_there() {
    for x in 0..8u8 {
        for y in 0..8u8 {
            let bb = bit::set(0, x, y);
            for a in 0..8u8 {
                for b in 0..8u8 {
                    assert_eq!(bit::get(bb, a, b), a == x && b == y);
                }
            }
        }
    }
}

#[test]
fn unset_undoes_set() {
    let bb = 0x00ff_0000_1234_0000u64;
    for x in 0..8u8 {
        for y in 0..8u8 {
            if bit::get(bb, x, y) {
                assert_eq!(bit::set(bit::unset(bb, x, y), x, y), bb);
            } else {
                assert_eq!(bit::unset(bit::set(bb, x, y), x, y), bb);
            }
            assert_eq!(bit::toggle(bit::toggle(bb, x, y), x, y), bb);
            assert!(!bit::get(bit::unset(bb, x, y), x, y));
            assert!(bit::get(bit::set(bb, x, y), x, y));
        }
    }
}

#[test]
fn index_functions() {
    assert_eq!(bit::idx(0), 1);
    assert_eq!(bit::idx(63), 1u64 << 63);
    assert_eq!(bit::get_idx(0b1010, 1), 0b10);
    assert_eq!(bit::get_idx(0b1010, 2), 0);
    assert_eq!(bit::set_idx(0b1010, 0), 0b1011);
    assert_eq!(bit::unset_idx(0b1010, 3), 0b0010);
    assert_eq!(bit::toggle_idx(0b1010, 3), 0b0010);
    assert_eq!(bit::toggle_idx(0b1010, 2), 0b1110);
}

#[test]
fn checked_shifts() {
    assert_eq!(helper::shl(1, 63), 1u64 << 63);
    assert_eq!(helper::shl(1, 64), 0);
    assert_eq!(helper::shl(0xff, 255), 0);
    assert_eq!(helper::shr(1u64 << 63, 63), 1);
    assert_eq!(helper::shr(u64::MAX, 64), 0);
    assert_eq!(helper::shr(0xff, 4), 0x0f);
}

#[test]
fn shifts_do_not_wrap() {
    let h1 = bit::xy(7, 0);
    let a2 = bit::xy(0, 1);
    assert_eq!(shift::left(h1, 1), 0);
    assert_eq!(shift::right(a2, 1), 0);
    assert_eq!(shift::left(bit::xy(0, 0), 1), bit::xy(1, 0));
    assert_eq!(shift::left(bit::xy(0, 3), 7), bit::xy(7, 3));
    assert_eq!(shift::right(bit::xy(7, 3), 7), bit::xy(0, 3));
    assert_eq!(shift::up(bit::xy(2, 7), 1), 0);
    assert_eq!(shift::down(bit::xy(2, 0), 1), 0);
    assert_eq!(shift::up(bit::xy(2, 0), 7), bit::xy(2, 7));
    assert_eq!(shift::up_left(bit::xy(1, 1), 2), bit::xy(3, 3));
    assert_eq!(shift::up_right(bit::xy(1, 1), 1), bit::xy(0, 2));
    assert_eq!(shift::up_right(bit::xy(1, 1), 2), 0);
    assert_eq!(shift::down_left(bit::xy(1, 1), 1), bit::xy(2, 0));
    assert_eq!(shift::down_right(bit::xy(1, 1), 1), bit::xy(0, 0));
}

#[test]
fn shift_by_zero_is_identity_and_by_eight_is_empty() {
    let bb = 0x8100_0042_2400_00ffu64;
    let all = [
        Direction::Up,
        Direction::Down,
        Direction::Left,
        Direction::Right,
        Direction::UpLeft,
        Direction::UpRight,
        Direction::DownLeft,
        Direction::DownRight,
    ];
    for dir in all {
        assert_eq!(shift::shift(bb, dir, 0), bb);
        assert_eq!(shift::shift(u64::MAX, dir, 8), 0);
        assert_eq!(shift::shift(u64::MAX, dir, 200), 0);
    }
    assert_eq!(shift::shift(bit::xy(4, 4), Direction::UpLeft, 3), bit::xy(7, 7));
    assert_eq!(shift::shift(bit::xy(4, 4), Direction::DownRight, 4), bit::xy(0, 0));
}

#[test]
fn masks() {
    assert_eq!(mask::file(0), 0x0101010101010101);
    assert_eq!(mask::file(7), 0x8080808080808080);
    assert_eq!(mask::row(0), 0xff);
    assert_eq!(mask::row(7), 0xff00_0000_0000_0000);
    assert_eq!(mask::up(0), u64::MAX);
    assert_eq!(mask::up(6), 0xffff_0000_0000_0000);
    assert_eq!(mask::up(8), 0);
    assert_eq!(mask::down(6), 0xffff);
    assert_eq!(mask::left(0), u64::MAX);
    assert_eq!(mask::left(1), 0xfefefefefefefefe);
    assert_eq!(mask::left(8), 0);
    assert_eq!(mask::left(255), 0);
    assert_eq!(mask::right(0), u64::MAX);
    assert_eq!(mask::right(1), 0x7f7f7f7f7f7f7f7f);
    assert_eq!(mask::right(7), 0x0101010101010101);
    assert_eq!(mask::right(64), 0);
}

#[test]
fn rows_and_files_of_a_mask() {
    let bb = bit::xy(1, 1) | bit::xy(3, 5);
    assert_eq!(mask::rows(bb), mask::row(1) | mask::row(5));
    assert_eq!(mask::files(bb), mask::file(1) | mask::file(3));
    assert_eq!(mask::rows(0), 0);
    assert_eq!(mask::files(u64::MAX), u64::MAX);
}

#[test]
fn mask_to_byte_marks_ranks() {
    let bb = bit::xy(1, 1) | bit::xy(3, 5) | bit::xy(7, 7);
    assert_eq!(helper::mask_to_byte(bb, 0xff), 0b1010_0010);
    assert_eq!(helper::mask_to_byte(bb, 0b0000_1000), 0b0010_0000);
    assert_eq!(helper::mask_to_byte(bb, 0), 0);
}

#[test]
fn mask_to_byte_offset_follows_a_diagonal() {
    // The mask starts on h8 and moves down one rank and one file at a time.
    let diagonal = 0x8040201008040201u64;
    assert_eq!(helper::mask_to_byte_offset(diagonal, 0x80, 1), 0xff);
    assert_eq!(helper::mask_to_byte_offset(bit::xy(7, 7), 0x80, 1), 0x80);
    assert_eq!(helper::mask_to_byte_offset(bit::xy(0, 0), 0x80, 1), 0x01);
    assert_eq!(helper::mask_to_byte_offset(bit::xy(7, 5), 0x80, 0), 0b0010_0000);
    assert_eq!(helper::mask_to_byte_offset(u64::MAX, 0x80, 55), 0b1100_0000);
}

#[test]
fn grids_and_coordinates() {
    let bb = bit::xy(1, 1) | bit::xy(3, 5) | bit::xy(0, 0);
    let grid = helper::bitboard_to_grid(bb);
    for x in 0..8usize {
        for y in 0..8usize {
            assert_eq!(grid[y][x], bit::get(bb, x as u8, y as u8));
        }
    }
    assert_eq!(helper::grid_to_coords(grid), vec![(0, 0), (1, 1), (3, 5)]);
    assert_eq!(helper::bitboard_to_coords(bb), vec![(0, 0), (1, 1), (3, 5)]);
    assert_eq!(helper::bitboard_to_coords(0), vec![]);
    assert!(helper::bitboard_to_coords_contains(bb, 3, 5));
    assert!(!helper::bitboard_to_coords_contains(bb, 5, 3));
    assert!(!helper::bitboard_to_coords_contains(u64::MAX, 8, 0));
    assert!(!helper::bitboard_to_coords_contains(u64::MAX, 0, 8));
}
