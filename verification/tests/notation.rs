use bitboard::uci::{self, UciError};

#[test]
fn one_square() {
    assert_eq!(uci::one("a1"), Ok((0, 0)));
    assert_eq!(uci::one("h8"), Ok((7, 7)));
    assert_eq!(uci::one("e4"), Ok((4, 3)));
    assert_eq!(uci::one("E4"), Ok((4, 3)));
}

#[test]
fn one_square_errors() {
    assert_eq!(uci::one(""), Err(UciError::WrongSize(2, 0)));
    assert_eq!(uci::one("e"), Err(UciError::WrongSize(2, 1)));
    assert_eq!(uci::one("e2e4"), Err(UciError::WrongSize(2, 4)));
    assert_eq!(uci::one("e9"), Err(UciError::InvalidRank('9')));
    assert_eq!(uci::one("e0"), Err(UciError::InvalidRank('0')));
    assert_eq!(uci::one("i4"), Err(UciError::InvalidFile('i')));
    assert_eq!(uci::one("Z4"), Err(UciError::InvalidFile('z')));
    // the rank is looked at first
    assert_eq!(uci::one("z9"), Err(UciError::InvalidRank('9')));
    assert_eq!(uci::one("\u{e9}"), Err(UciError::WrongSize(2, 1)));
}

#[test]
fn square_of_two_characters() {
    assert_eq!(uci::square('c', '7'), Ok((2, 6)));
    assert_eq!(uci::square('C', '7'), Ok((2, 6)));
    assert_eq!(uci::square('7', 'c'), Err(UciError::InvalidRank('c')));
    assert_eq!(uci::square('[', '1'), Err(UciError::InvalidFile('[')));
    assert_eq!(uci::square('@', '1'), Err(UciError::InvalidFile('@')));
}

#[test]
fn two_squares() {
    assert_eq!(uci::two("e2e4"), Ok(((4, 1), (4, 3))));
    assert_eq!(uci::two("e2 e4"), Ok(((4, 1), (4, 3))));
    assert_eq!(uci::two(" b8  c6 "), Ok(((1, 7), (2, 5))));
    assert_eq!(uci::two("A1H8"), Ok(((0, 0), (7, 7))));
}

#[test]
fn two_squares_errors() {
    assert_eq!(uci::two("e2e"), Err(UciError::WrongSize(4, 3)));
    assert_eq!(uci::two("e2 e4 e5"), Err(UciError::WrongSize(4, 6)));
    assert_eq!(uci::two("    "), Err(UciError::WrongSize(4, 0)));
    assert_eq!(uci::two("e9e4"), Err(UciError::InvalidRank('9')));
    assert_eq!(uci::two("e2x4"), Err(UciError::InvalidFile('x')));
    // a fault of the first square comes before one of the second
    assert_eq!(uci::two("k2e9"), Err(UciError::InvalidFile('k')));
}
