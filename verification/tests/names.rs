use bitboard::clock::ClockSettings;
use bitboard::color::Color;
use bitboard::moves::{Castle, Castling, File, Move, Rank, Square};
use bitboard::uci::UciError;

#[test]
fn ranks_and_files_by_number() {
    assert_eq!(Rank::from_index(0), Rank::First);
    assert_eq!(Rank::from_index(7), Rank::Eighth);
    assert_eq!(File::from_index(0), File::A);
    assert_eq!(File::from_index(4), File::E);
    assert_eq!(File::from_index(7), File::H);
    assert_eq!(Rank::Third.index(), 2);
    assert_eq!(File::H.index(), 7);
    assert_eq!(usize::from(Rank::Fifth), 4);
    assert_eq!(usize::from(File::C), 2);
    for i in 0..8usize {
        assert_eq!(Rank::from_index(i).index() as usize, i);
        assert_eq!(usize::from(File::from_index(i)), i);
    }
}

#[test]
fn squares_by_rank_and_file() {
    assert_eq!(
        Square::coords_to_indices("e4".to_string()),
        Ok(Square { rank: Rank::Fourth, file: File::E })
    );
    assert_eq!(
        Square::coords_to_indices("a1".to_string()),
        Ok(Square { rank: Rank::First, file: File::A })
    );
    assert_eq!(Square::coords_to_indices("h8".to_string()).unwrap().indices(), (7, 7));
    assert_eq!(Square::coords_to_indices("e".to_string()), Err(UciError::WrongSize(2, 1)));
    assert_eq!(Square::coords_to_indices("e44".to_string()), Err(UciError::WrongSize(2, 3)));
    assert_eq!(Square::coords_to_indices("E4".to_string()), Err(UciError::InvalidFile('E')));
    assert_eq!(Square::coords_to_indices("i4".to_string()), Err(UciError::InvalidFile('i')));
    assert_eq!(Square::coords_to_indices("e9".to_string()), Err(UciError::InvalidRank('9')));
    // the file is looked at first
    assert_eq!(Square::coords_to_indices("z9".to_string()), Err(UciError::InvalidFile('z')));
    assert_eq!(Square::named('b', '7'), Ok(Square { rank: Rank::Seventh, file: File::B }));
}

#[test]
fn moves_by_name() {
    let m = Move::uci("e2e4".to_string()).unwrap();
    assert_eq!(m.src, Square { rank: Rank::Second, file: File::E });
    assert_eq!(m.dst, Square { rank: Rank::Fourth, file: File::E });
    assert_eq!((m.src.indices(), m.dst.indices()), ((4, 1), (4, 3)));
    assert_eq!(Move::uci("e2e".to_string()), Err(UciError::WrongSize(4, 3)));
    assert_eq!(Move::uci("e2 e4".to_string()), Err(UciError::WrongSize(4, 5)));
    assert_eq!(Move::uci("e2x4".to_string()), Err(UciError::InvalidFile('x')));
    assert_eq!(Move::uci("e0e9".to_string()), Err(UciError::InvalidRank('0')));
}

#[test]
fn rights_of_one_side() {
    let all = [Castle::Neither, Castle::Queenside, Castle::Kingside, Castle::Both];
    for held in all {
        assert!(held.has(Castle::Neither));
        assert_eq!(held.has(Castle::Both), held == Castle::Both);
        assert_eq!(held.remove(Castle::Neither), held);
        assert_eq!(held.remove(Castle::Both), Castle::Neither);
        assert_eq!(held.add(Castle::Neither), held);
        assert_eq!(held.add(Castle::Both), Castle::Both);
        for rights in all {
            assert!(!held.remove(rights).has(rights) || rights == Castle::Neither);
            assert!(held.add(rights).has(rights));
            assert!(held.add(rights).has(held));
        }
    }
    assert!(Castle::Both.has(Castle::Queenside));
    assert!(Castle::Queenside.has(Castle::Queenside));
    assert!(!Castle::Kingside.has(Castle::Queenside));
    assert_eq!(Castle::Both.remove(Castle::Queenside), Castle::Kingside);
    assert_eq!(Castle::Both.remove(Castle::Kingside), Castle::Queenside);
    assert_eq!(Castle::Queenside.remove(Castle::Queenside), Castle::Neither);
    assert_eq!(Castle::Kingside.remove(Castle::Queenside), Castle::Kingside);
    assert_eq!(Castle::Neither.add(Castle::Queenside), Castle::Queenside);
    assert_eq!(Castle::Kingside.add(Castle::Queenside), Castle::Both);
    assert_eq!(Castle::Queenside.add(Castle::Kingside), Castle::Both);
}

#[test]
fn rights_of_both_sides() {
    let rights = Castling {
        white_kingside: true,
        white_queenside: false,
        black_kingside: true,
        black_queenside: true,
    };
    assert_eq!(rights.rights(Color::White), Castle::Kingside);
    assert_eq!(rights.rights(Color::Black), Castle::Both);
    assert_eq!(Castling::all().without_kingside(Color::Black).rights(Color::Black), Castle::Queenside);
}

#[test]
fn sides_in_the_order_of_play() {
    assert_eq!(Color::White.turn(), 0);
    assert_eq!(Color::Black.turn(), 1);
}

#[test]
fn clock_settings_hold_their_fields() {
    let clock = ClockSettings { limit: 300, increment: 2, is_correspondence: false, days: 0 };
    assert_eq!(clock.limit, 300);
    assert_eq!(clock.increment, 2);
    assert!(!clock.is_correspondence);
    assert_eq!(clock.days, 0);
}
