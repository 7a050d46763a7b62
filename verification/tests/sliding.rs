use bitboard::{bit, slide};

#[test]
fn sliding() {
    let board = bit::xy(1, 1) | bit::xy(3, 5);
    assert_eq!(slide::up(board, 0) & board, 0);
    assert_eq!(slide::down(board, 0) & board, 0);
    assert_eq!(slide::left(board, 0) & board, 0);
    assert_eq!(slide::right(board, 0) & board, 0);

    let stop = bit::xy(1, 4) | bit::xy(6, 5);
    assert_eq!(slide::up(board, stop), 0x808000202020000);
    assert_eq!(slide::down(board, stop), 0x80808080a);
    assert_eq!(slide::left(board, stop), 0x70000000fc00);
    assert_eq!(slide::right(board, stop), 0x70000000100);

    let board = bit::xy(1, 1) | bit::xy(3, 5);
    assert_eq!(slide::up(board, 0) & board, 0);
    assert_eq!(slide::down(board, 0) & board, 0);
    assert_eq!(slide::left(board, 0) & board, 0);
    assert_eq!(slide::right(board, 0) & board, 0);

    let stop = bit::xy(1, 3) | bit::xy(6, 6);
    assert_eq!(slide::diag_left(board, stop), 0x1020408004);
    assert_eq!(slide::diag_right(board, stop), 0x204000000010000);
    assert_eq!(slide::anti_diag_right(board, stop), 0x2050201008040000);
    assert_eq!(slide::anti_diag_left(board, stop), 0x402000001);
}
