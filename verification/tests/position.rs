use bitboard::bit;
use bitboard::board::Board;
use bitboard::color::Color;
use bitboard::error::BoardError;
use bitboard::moves::Castling;
use bitboard::piece::{Piece, PieceKind};
use bitboard::uci::UciError;

fn white(kind: PieceKind) -> Option<Piece> {
    Some(Piece { kind, color: Color::White })
}

fn black(kind: PieceKind) -> Option<Piece> {
    Some(Piece { kind, color: Color::Black })
}

#[test]
fn empty_board() {
    let board = Board::empty();
    assert_eq!(board, Board::default());
    assert_eq!(board.white(), 0);
    assert_eq!(board.black(), 0);
    assert_eq!(board.pawns(), 0);
    assert_eq!(board.knights(), 0);
    assert_eq!(board.bishops(), 0);
    assert_eq!(board.rooks(), 0);
    assert_eq!(board.queens(), 0);
    assert_eq!(board.kings(), 0);
    assert_eq!(board.turn(), Color::White);
    assert_eq!(board.castling(), Castling::all());
    assert_eq!(board.en_passant_target(), None);
    assert_eq!(board.halfmove(), 0);
    assert_eq!(board.fullmove(), 1);
    for x in 0..8 {
        for y in 0..8 {
            assert_eq!(board.get(x, y), Ok(None));
        }
    }
}

#[test]
fn starting_position() {
    let board = Board::new();
    assert_eq!(board.white(), 0x0000_0000_0000_ffff);
    assert_eq!(board.black(), 0xffff_0000_0000_0000);
    assert_eq!(board.pawns(), 0x00ff_0000_0000_ff00);
    assert_eq!(board.knights(), 0x4200_0000_0000_0042);
    assert_eq!(board.bishops(), 0x2400_0000_0000_0024);
    assert_eq!(board.rooks(), 0x8100_0000_0000_0081);
    assert_eq!(board.queens(), 0x0800_0000_0000_0008);
    assert_eq!(board.kings(), 0x1000_0000_0000_0010);
    assert_eq!(board.get(4, 0), Ok(white(PieceKind::King)));
    assert_eq!(board.get(3, 0), Ok(white(PieceKind::Queen)));
    assert_eq!(board.get(0, 0), Ok(white(PieceKind::Rook)));
    assert_eq!(board.get(6, 0), Ok(white(PieceKind::Knight)));
    assert_eq!(board.get(2, 7), Ok(black(PieceKind::Bishop)));
    assert_eq!(board.get(4, 7), Ok(black(PieceKind::King)));
    assert_eq!(board.get(5, 1), Ok(white(PieceKind::Pawn)));
    assert_eq!(board.get(5, 6), Ok(black(PieceKind::Pawn)));
    assert_eq!(board.get(5, 3), Ok(None));
    assert_eq!(board.turn(), Color::White);
    assert_eq!(board.castling(), Castling::all());
    assert_eq!(board.fullmove(), 1);
}

#[test]
fn coordinates_out_of_range() {
    let mut board = Board::new();
    assert_eq!(board.get(8, 0), Err(BoardError::InvalidXCoord(8)));
    assert_eq!(board.get(0, 8), Err(BoardError::InvalidYCoord(8)));
    assert_eq!(board.get(9, 9), Err(BoardError::InvalidXCoord(9)));
    assert_eq!(board.set(8, 0, None), Err(BoardError::InvalidXCoord(8)));
    assert_eq!(board.set(0, 255, white(PieceKind::Pawn)), Err(BoardError::InvalidYCoord(255)));
    assert_eq!(board, Board::new());
}

#[test]
fn set_replaces_one_square() {
    let mut board = Board::new();
    assert_eq!(board.set(4, 3, black(PieceKind::Queen)), Ok(()));
    assert_eq!(board.get(4, 3), Ok(black(PieceKind::Queen)));
    assert_eq!(board.black(), 0xffff_0000_0000_0000 | bit::xy(4, 3));
    assert_eq!(board.queens(), 0x0800_0000_0000_0008 | bit::xy(4, 3));
    // a piece of the other side and kind takes the square over
    assert_eq!(board.set(4, 3, white(PieceKind::Knight)), Ok(()));
    assert_eq!(board.get(4, 3), Ok(white(PieceKind::Knight)));
    assert_eq!(board.black(), 0xffff_0000_0000_0000);
    assert_eq!(board.queens(), 0x0800_0000_0000_0008);
    assert_eq!(board.set(4, 3, None), Ok(()));
    assert_eq!(board, Board::new());
    assert_eq!(board.set(0, 0, None), Ok(()));
    assert_eq!(board.get(0, 0), Ok(None));
    assert_eq!(board.rooks(), 0x8100_0000_0000_0080);
    assert_eq!(board.white(), 0xfffe);
}

#[test]
fn squares_by_name() {
    let mut board = Board::new();
    assert_eq!(board.get_uci("e1"), Ok(white(PieceKind::King)));
    assert_eq!(board.get_uci("d8"), Ok(black(PieceKind::Queen)));
    assert_eq!(board.get_uci("a1"), Ok(white(PieceKind::Rook)));
    assert_eq!(board.get_uci("e4"), Ok(None));
    assert_eq!(board.get_uci("e9"), Err(UciError::InvalidRank('9')));
    assert_eq!(board.get_uci("e"), Err(UciError::WrongSize(2, 1)));
    assert_eq!(board.set_uci("e4", white(PieceKind::Pawn)), Ok(()));
    assert_eq!(board.get(4, 3), Ok(white(PieceKind::Pawn)));
    assert_eq!(board.set_uci("j4", None), Err(UciError::InvalidFile('j')));
    assert_eq!(board.get(4, 3), Ok(white(PieceKind::Pawn)));
}

#[test]
fn castling_rights() {
    let all = Castling::all();
    assert!(all.kingside(Color::White) && all.queenside(Color::Black));
    let rights = all.without_kingside(Color::White).without_queenside(Color::Black);
    assert!(!rights.kingside(Color::White));
    assert!(rights.queenside(Color::White));
    assert!(rights.kingside(Color::Black));
    assert!(!rights.queenside(Color::Black));
}

#[test]
fn rendering_of_the_start() {
    let expected = "\n\
8 r | n | b | q | k | b | n | r\n \
---+---+---+---+---+---+---+---\n\
7 p | p | p | p | p | p | p | p\n \
---+---+---+---+---+---+---+---\n\
6   |   |   |   |   |   |   |  \n \
---+---+---+---+---+---+---+---\n\
5   |   |   |   |   |   |   |  \n \
---+---+---+---+---+---+---+---\n\
4   |   |   |   |   |   |   |  \n \
---+---+---+---+---+---+---+---\n\
3   |   |   |   |   |   |   |  \n \
---+---+---+---+---+---+---+---\n\
2 P | P | P | P | P | P | P | P\n \
---+---+---+---+---+---+---+---\n\
1 R | N | B | Q | K | B | N | R\n";
    assert_eq!(Board::new().render(), expected);
}

#[test]
fn rendering_of_an_empty_board() {
    let text = Board::empty().render();
    assert_eq!(text.lines().count(), 16);
    assert!(text.starts_with("\n8   |"));
    assert!(text.ends_with("\n1   |   |   |   |   |   |   |  \n"));
}
