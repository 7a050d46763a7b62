use bitboard::board::Board;
use bitboard::color::Color;
use bitboard::error::BoardError;
use bitboard::fen::{self, Fen, FenError};
use bitboard::moves::Castling;
use bitboard::piece::{Piece, PieceKind};
use bitboard::uci;

const START: &str = "rnbqkbnr/pppppppp/8/8/8/8/PPPPPPPP/RNBQKBNR w KQkq - 0 1";

#[test]
fn indev() {
    let board =
        Board::fen("rnbqkbnr/ppp1pppp/3p4/1Q6/8/8/PPPPPPPP/RNB1KBNR b KQkq - 1 1").unwrap();
    println!("{}", board.render());

    let m = "b8c6";
    let (f, t) = uci::two(m).unwrap();
    println!("{m} legal: {}", board.legal(f, t));

    let f = board.future(f, t).unwrap();
    println!("coverage {:#x}", board.coverage(Color::White));
    assert_eq!(f.turn(), Color::White);
}

#[test]
fn start_from_its_description() {
    assert_eq!(Board::fen(START), Ok(Board::new()));
}

#[test]
fn description_and_rendering_round_trip() {
    let board = Board::fen(START).unwrap();
    let text = board.render();
    let lines: Vec<&str> = text.lines().collect();
    assert_eq!(lines[1], "8 r | n | b | q | k | b | n | r");
    assert_eq!(lines[3], "7 p | p | p | p | p | p | p | p");
    assert_eq!(lines[5], "6   |   |   |   |   |   |   |  ");
    assert_eq!(lines[13], "2 P | P | P | P | P | P | P | P");
    assert_eq!(lines[15], "1 R | N | B | Q | K | B | N | R");
    assert_eq!(text, Board::new().render());
}

#[test]
fn description_fields_are_taken_over() {
    let board = Board::fen("4k3/8/8/8/3pP3/8/8/4K2R b Kq e3xx 7 42").unwrap();
    assert_eq!(board.turn(), Color::Black);
    assert_eq!(
        board.castling(),
        Castling {
            white_kingside: true,
            white_queenside: false,
            black_kingside: false,
            black_queenside: true,
        }
    );
    assert_eq!(board.en_passant_target(), Some((4, 3)));
    assert_eq!(board.halfmove(), 7);
    assert_eq!(board.fullmove(), 42);
    assert_eq!(board.get_uci("e8"), Ok(Some(Piece { kind: PieceKind::King, color: Color::Black })));
    assert_eq!(board.get_uci("d4"), Ok(Some(Piece { kind: PieceKind::Pawn, color: Color::Black })));
    assert_eq!(board.get_uci("e4"), Ok(Some(Piece { kind: PieceKind::Pawn, color: Color::White })));
    assert_eq!(board.get_uci("h1"), Ok(Some(Piece { kind: PieceKind::Rook, color: Color::White })));
    assert_eq!(board.get_uci("a1"), Ok(None));
    assert_eq!(board.white().count_ones(), 3);
    assert_eq!(board.black().count_ones(), 2);
}

#[test]
fn parse_gives_the_grid() {
    let fen = fen::parse("n7/8/8/8/8/8/8/7Q w - - 0 1").unwrap();
    assert_eq!(fen.board[7][0], Some(Piece { kind: PieceKind::Knight, color: Color::Black }));
    assert_eq!(fen.board[0][7], Some(Piece { kind: PieceKind::Queen, color: Color::White }));
    assert_eq!(fen.board[0][0], None);
    assert_eq!(fen.turn, Color::White);
    assert_eq!(fen.en_passant, None);
    let kinds = fen::parse("pnbrqk2/PNBRQK2/8/8/8/8/8/8 w - - 0 1").unwrap();
    let expect = [
        PieceKind::Pawn,
        PieceKind::Knight,
        PieceKind::Bishop,
        PieceKind::Rook,
        PieceKind::Queen,
        PieceKind::King,
    ];
    for (x, kind) in expect.into_iter().enumerate() {
        assert_eq!(kinds.board[7][x], Some(Piece { kind, color: Color::Black }));
        assert_eq!(kinds.board[6][x], Some(Piece { kind, color: Color::White }));
    }
}

#[test]
fn description_errors_from_the_reader() {
    assert_eq!(Board::fen("8/8/8/8/8/8/8/8 w"), Err(FenError::TooFewSegments(2)));
    assert_eq!(Board::fen(""), Err(FenError::TooFewSegments(1)));
    assert_eq!(Board::fen("8/8/8/8/8/8/8/8 x - - 0 1"), Err(FenError::InvalidColor));
    assert_eq!(Board::fen("8/8/8/8/8/8/8/8 w KQxq - 0 1"), Err(FenError::InvalidCastling));
    assert_eq!(Board::fen("8/8/8/8/8/8/8/8 w - e3 0 1"), Err(FenError::InvalidEnPassant));
    assert_eq!(Board::fen("8/8/8/8/8/8/8/8 w - - x 1"), Err(FenError::InvalidHalfmove));
    assert_eq!(Board::fen("8/8/8/8/8/8/8/8 w - - 0 x"), Err(FenError::InvalidFullmove));
    assert_eq!(Board::fen("8/8/8/8/8/8/8/7x w - - 0 1"), Err(FenError::InvalidPiece('x')));
    assert_eq!(Board::fen("8/8/8/8/8/8/8/7 w - - 0 1"), Err(FenError::RowTooShort));
    assert_eq!(Board::fen("8/8/8/8/8/8/8/81 w - - 0 1"), Err(FenError::RowTooLong));
    assert_eq!(Board::fen("8/8/8/8/8/8 w - - 0 1"), Err(FenError::TooFewRows));
    assert_eq!(Board::fen("8/8/8/8/8/8/8/8/8/8 w - - 0 1"), Err(FenError::TooManyRows));
    assert_eq!(Board::fen("8/8/8/8/8/8/8/8 w - - 0 1 x"), Err(FenError::TooManySegments(9)));
}

#[test]
fn description_errors_found_before_reading() {
    // a ninth piece in a row
    assert_eq!(
        Board::fen("rnbqkbnrr/pppppppp/8/8/8/8/PPPPPPPP/RNBQKBNR w KQkq - 0 1"),
        Err(FenError::RowTooLong)
    );
    assert_eq!(Board::fen("8/8/8/8/8/8/8/8p w - - 0 1"), Err(FenError::RowTooLong));
    assert_eq!(fen::check("8/8/8/8/8/8/8/44K w - - 0 1"), Some(FenError::RowTooLong));
    // a piece in a ninth row
    assert_eq!(Board::fen("8/8/8/8/8/8/8/8/k7 w - - 0 1"), Err(FenError::TooManyRows));
    // an en-passant field of one character that takes four bytes
    assert_eq!(Board::fen("8/8/8/8/8/8/8/8 w - \u{1F600} 0 1"), Err(FenError::InvalidEnPassant));
    assert_eq!(fen::check(START), None);
    // with fewer than six fields the rows are never laid out
    assert_eq!(fen::check("ppppppppp w"), None);
    assert_eq!(Board::fen("ppppppppp w"), Err(FenError::TooFewSegments(2)));
    assert_eq!(Board::fen("8/8/8/8/8/8/8/8/k7 w - - 0"), Err(FenError::TooFewSegments(5)));
    assert_eq!(fen::check("8/8/8/8/8/8/8/8 w - \u{1F600}a 0 1"), None);
    assert_eq!(fen::check("k7 \u{1F600}"), None);
}

#[test]
fn scan_counts_rows_and_squares() {
    let mut st = fen::Scan {
        field: 0,
        row: 0,
        width: 0,
        target_chars: 0,
        target_wide: false,
        crowded: false,
        deep: false,
    };
    for c in "rn6/".chars() {
        st = fen::step(st, c);
    }
    assert_eq!((st.row, st.width, st.crowded, st.deep), (1, 0, false, false));
    for c in "44".chars() {
        st = fen::step(st, c);
    }
    assert_eq!(st.width, 8);
    st = fen::step(st, 'k');
    assert!(st.crowded);
    st = fen::step(st, ' ');
    st = fen::step(st, 'k');
    assert_eq!((st.field, st.width), (1, 8));
    for _ in 0..9 {
        st = fen::step(st, ' ');
    }
    assert_eq!(st.field, 5);
}

#[test]
fn board_from_a_description_by_hand() {
    let mut grid = [[None; 8]; 8];
    grid[0][4] = Some(Piece { kind: PieceKind::King, color: Color::White });
    grid[7][4] = Some(Piece { kind: PieceKind::King, color: Color::Black });
    grid[3][2] = Some(Piece { kind: PieceKind::Pawn, color: Color::Black });
    let fen = Fen {
        board: grid,
        turn: Color::Black,
        castling: Castling::all(),
        en_passant: Some((1, 2)),
        halfmove: 3,
        fullmove: 9,
    };
    let board = Board::from_fen(&fen).unwrap();
    assert_eq!(board.get(4, 0), Ok(grid[0][4]));
    assert_eq!(board.get(4, 7), Ok(grid[7][4]));
    assert_eq!(board.get(2, 3), Ok(grid[3][2]));
    assert_eq!(board.get(3, 2), Ok(None));
    assert_eq!(board.turn(), Color::Black);
    assert_eq!(board.en_passant_target(), Some((1, 2)));
    assert_eq!(board.halfmove(), 3);
    assert_eq!(board.fullmove(), 9);
    assert_eq!(board.kings().count_ones(), 2);

    let off = Fen { en_passant: Some((8, 2)), ..fen };
    assert_eq!(Board::from_fen(&off), Err(BoardError::InvalidXCoord(8)));
    let off = Fen { en_passant: Some((1, 8)), ..fen };
    assert_eq!(Board::from_fen(&off), Err(BoardError::InvalidYCoord(8)));
}
