use bitboard::bit;
use bitboard::board::Board;
use bitboard::color::Color;
use bitboard::error::BoardError;
use bitboard::moves::Castling;
use bitboard::piece::{Piece, PieceKind};
use bitboard::uci;

fn at(board: &Board, square: &str) -> Option<Piece> {
    board.get_uci(square).unwrap()
}

fn play(board: &Board, m: &str) -> Result<Board, BoardError> {
    let (from, to) = uci::two(m).unwrap();
    board.make_move(from, to)
}

fn legal(board: &Board, m: &str) -> bool {
    let (from, to) = uci::two(m).unwrap();
    board.legal(from, to)
}

fn piece(kind: PieceKind, color: Color) -> Option<Piece> {
    Some(Piece { kind, color })
}

#[test]
fn start_has_twenty_moves_and_no_check() {
    let board = Board::new();
    assert!(!board.in_check(Color::White));
    assert!(!board.in_check(Color::Black));
    let moves = board.legal_moves();
    assert_eq!(moves.len(), 20);
    let pawns = moves.iter().filter(|m| m.0 .1 == 1).count();
    let knights = moves.iter().filter(|m| m.0 .1 == 0).count();
    assert_eq!(pawns, 16);
    assert_eq!(knights, 4);
    assert!(moves.contains(&((4, 1), (4, 3))));
    assert!(moves.contains(&((6, 0), (5, 2))));
    assert!(board.has_legal_move());
    assert!(!board.checkmate());
    assert!(!board.stalemate());
}

#[test]
fn start_coverage() {
    let board = Board::new();
    // the third rank and the free squares that nothing else is on
    assert_eq!(board.coverage(Color::White), 0x0000_0000_00ff_0000);
    assert_eq!(board.coverage(Color::Black), 0x0000_ff00_0000_0000);
    assert_eq!(Board::empty().coverage(Color::White), 0);
}

#[test]
fn legal_moves_are_ordered() {
    let moves = Board::new().legal_moves();
    let code = |m: &((u8, u8), (u8, u8))| {
        (m.0 .0 as u32 + 8 * m.0 .1 as u32) * 64 + m.1 .0 as u32 + 8 * m.1 .1 as u32
    };
    for pair in moves.windows(2) {
        assert!(code(&pair[0]) < code(&pair[1]));
    }
    assert_eq!(moves[0], ((1, 0), (0, 2)));
}

#[test]
fn pinned_piece_may_not_leave_the_line() {
    let board = Board::fen("k3r3/8/8/8/8/8/4R3/4K3 w - - 0 1").unwrap();
    let reach = board.pseudo_legal(4, 1).unwrap();
    assert!(bit::get(reach, 3, 1));
    assert!(!legal(&board, "e2d2"));
    assert_eq!(play(&board, "e2d2"), Err(BoardError::KingInCheck));
    assert!(legal(&board, "e2e5"));
    assert!(legal(&board, "e2e8"));
    assert!(!board.legal_moves().iter().any(|m| m.0 == (4, 1) && m.1 .0 != 4));
}

#[test]
fn the_king_may_not_step_into_check() {
    let board = Board::fen("k3r3/8/8/8/8/8/8/3K4 w - - 0 1").unwrap();
    assert_eq!(play(&board, "d1e1"), Err(BoardError::KingInCheck));
    assert_eq!(play(&board, "d1e2"), Err(BoardError::KingInCheck));
    assert!(legal(&board, "d1d2"));
    assert!(legal(&board, "d1c1"));
}

#[test]
fn en_passant_lasts_one_move() {
    let board = Board::new();
    let board = play(&board, "e2e4").unwrap();
    assert_eq!(board.en_passant_target(), Some((4, 2)));
    let board = play(&board, "a7a6").unwrap();
    assert_eq!(board.en_passant_target(), None);
    let board = play(&board, "e4e5").unwrap();
    let board = play(&board, "d7d5").unwrap();
    assert_eq!(board.en_passant_target(), Some((3, 5)));
    assert_eq!(board.turn(), Color::White);

    // right away the capture may be made, and it removes the pawn that was passed
    assert!(legal(&board, "e5d6"));
    let taken = play(&board, "e5d6").unwrap();
    assert_eq!(at(&taken, "d6"), piece(PieceKind::Pawn, Color::White));
    assert_eq!(at(&taken, "d5"), None);
    assert_eq!(at(&taken, "e5"), None);
    assert_eq!(taken.black().count_ones(), 15);
    assert_eq!(taken.halfmove(), 0);

    // the other diagonal is no capture at all
    assert_eq!(play(&board, "e5f6"), Err(BoardError::OutOfReach(5, 5)));

    // one move later the right is gone
    let later = play(&board, "h2h3").unwrap();
    assert_eq!(later.en_passant_target(), None);
    let later = play(&later, "a6a5").unwrap();
    assert!(!legal(&later, "e5d6"));
    assert_eq!(play(&later, "e5d6"), Err(BoardError::OutOfReach(3, 5)));
}

#[test]
fn back_rank_mate() {
    let board = Board::fen("4k3/8/8/8/8/8/5PPP/r5K1 w - - 0 1").unwrap();
    assert!(board.in_check(Color::White));
    assert!(!board.in_check(Color::Black));
    assert_eq!(board.legal_moves(), vec![]);
    assert!(!board.has_legal_move());
    assert!(board.checkmate());
    assert!(!board.stalemate());
}

#[test]
fn check_that_can_be_answered_is_no_mate() {
    let board = Board::fen("4k3/8/8/8/8/8/5PP1/r5K1 w - - 0 1").unwrap();
    assert!(board.in_check(Color::White));
    assert_eq!(board.legal_moves(), vec![((6, 0), (7, 1))]);
    assert!(!board.checkmate());
}

#[test]
fn stalemate_position() {
    let board = Board::fen("k7/2Q5/1K6/8/8/8/8/8 b - - 0 1").unwrap();
    assert!(!board.in_check(Color::Black));
    assert_eq!(board.legal_moves(), vec![]);
    assert!(board.stalemate());
    assert!(!board.checkmate());
}

#[test]
fn castling_moves_the_rook() {
    let board = Board::fen("r3k2r/8/8/8/8/8/8/R3K2R w KQkq - 0 1").unwrap();
    assert!(board.can_castle((4, 0), (6, 0)));
    assert!(board.can_castle((4, 0), (2, 0)));
    let short = play(&board, "e1g1").unwrap();
    assert_eq!(at(&short, "g1"), piece(PieceKind::King, Color::White));
    assert_eq!(at(&short, "f1"), piece(PieceKind::Rook, Color::White));
    assert_eq!(at(&short, "h1"), None);
    assert_eq!(at(&short, "e1"), None);
    assert_eq!(at(&short, "a1"), piece(PieceKind::Rook, Color::White));
    assert_eq!(
        short.castling(),
        Castling {
            white_kingside: false,
            white_queenside: false,
            black_kingside: true,
            black_queenside: true,
        }
    );
    let long = play(&short, "e8c8").unwrap();
    assert_eq!(at(&long, "c8"), piece(PieceKind::King, Color::Black));
    assert_eq!(at(&long, "d8"), piece(PieceKind::Rook, Color::Black));
    assert_eq!(at(&long, "a8"), None);
    assert_eq!(long.castling().black_kingside, false);
    assert_eq!(long.castling().black_queenside, false);
    assert_eq!(long.fullmove(), 2);
}

#[test]
fn castling_is_blocked() {
    // no right
    let board = Board::fen("4k3/8/8/8/8/8/8/R3K2R w Q - 0 1").unwrap();
    assert_eq!(play(&board, "e1g1"), Err(BoardError::CastlingBlocked));
    assert!(legal(&board, "e1c1"));
    // a piece in between
    let board = Board::fen("4k3/8/8/8/8/8/8/RN2KB1R w KQ - 0 1").unwrap();
    assert_eq!(play(&board, "e1g1"), Err(BoardError::CastlingBlocked));
    assert_eq!(play(&board, "e1c1"), Err(BoardError::CastlingBlocked));
    // the square that the king crosses is attacked
    let board = Board::fen("4kr2/8/8/8/8/8/8/R3K2R w KQ - 0 1").unwrap();
    assert_eq!(play(&board, "e1g1"), Err(BoardError::CastlingBlocked));
    assert!(legal(&board, "e1c1"));
    // the king is in check
    let board = Board::fen("k3r3/8/8/8/8/8/8/R3K2R w KQ - 0 1").unwrap();
    assert_eq!(play(&board, "e1g1"), Err(BoardError::CastlingBlocked));
    assert_eq!(play(&board, "e1c1"), Err(BoardError::CastlingBlocked));
    // the rook is not there
    let board = Board::fen("4k3/8/8/8/8/8/8/4K3 w KQ - 0 1").unwrap();
    assert_eq!(play(&board, "e1g1"), Err(BoardError::CastlingBlocked));
    // an attack on the rook's path alone does not matter
    let board = Board::fen("1r2k3/8/8/8/8/8/8/R3K3 w Q - 0 1").unwrap();
    assert!(legal(&board, "e1c1"));
}

#[test]
fn rook_moves_give_up_rights() {
    let board = Board::fen("r3k2r/8/8/8/8/8/8/R3K2R w KQkq - 0 1").unwrap();
    let board = play(&board, "h1h2").unwrap();
    assert_eq!(
        board.castling(),
        Castling {
            white_kingside: false,
            white_queenside: true,
            black_kingside: true,
            black_queenside: true,
        }
    );
    let board = play(&board, "a8a7").unwrap();
    assert_eq!(
        board.castling(),
        Castling {
            white_kingside: false,
            white_queenside: true,
            black_kingside: true,
            black_queenside: false,
        }
    );
    // a rook that is captured on its corner takes its right along
    let board = play(&board, "h2h8").unwrap();
    assert_eq!(
        board.castling(),
        Castling {
            white_kingside: false,
            white_queenside: true,
            black_kingside: false,
            black_queenside: false,
        }
    );
    assert_eq!(board.halfmove(), 0);
}

#[test]
fn pawn_is_promoted_to_a_queen() {
    let board = Board::fen("4k3/1P6/8/8/8/8/7p/4K3 w - - 0 1").unwrap();
    let board = play(&board, "b7b8").unwrap();
    assert_eq!(at(&board, "b8"), piece(PieceKind::Queen, Color::White));
    assert_eq!(at(&board, "b7"), None);
    assert_eq!(board.pawns().count_ones(), 1);
    assert!(board.in_check(Color::Black));
    let board = play(&board, "e8e7").unwrap();
    let board = play(&board, "b8b7").unwrap();
    let board = play(&board, "e7e6").unwrap();
    let board = play(&board, "e1d2").unwrap();
    let board = play(&board, "h2h1").unwrap();
    assert_eq!(at(&board, "h1"), piece(PieceKind::Queen, Color::Black));
    assert_eq!(board.pawns(), 0);
}

#[test]
fn move_errors_in_order() {
    let board = Board::new();
    assert_eq!(board.make_move((8, 0), (0, 0)), Err(BoardError::InvalidXCoord(8)));
    assert_eq!(board.make_move((0, 8), (0, 0)), Err(BoardError::InvalidYCoord(8)));
    assert_eq!(board.make_move((4, 3), (4, 4)), Err(BoardError::SquareIsEmpty(4, 3)));
    assert_eq!(board.make_move((4, 6), (4, 5)), Err(BoardError::NotYourPiece(4, 6)));
    assert_eq!(board.make_move((4, 1), (8, 2)), Err(BoardError::InvalidXCoord(8)));
    assert_eq!(board.make_move((4, 1), (4, 9)), Err(BoardError::InvalidYCoord(9)));
    assert_eq!(board.make_move((0, 0), (0, 1)), Err(BoardError::SquareIsOccupied(0, 1)));
    assert_eq!(board.make_move((4, 1), (4, 1)), Err(BoardError::SquareIsOccupied(4, 1)));
    assert_eq!(board.make_move((4, 1), (4, 4)), Err(BoardError::OutOfReach(4, 4)));
    assert_eq!(board.make_move((0, 0), (0, 4)), Err(BoardError::OutOfReach(0, 4)));
    assert_eq!(board.make_move((4, 0), (6, 0)), Err(BoardError::SquareIsOccupied(6, 0)));
    assert!(!board.legal((8, 0), (0, 0)));
    assert!(!board.legal((4, 6), (4, 5)));
    assert!(board.legal((4, 1), (4, 2)));
}

#[test]
fn future_makes_few_checks() {
    let board = Board::new();
    assert_eq!(board.future((8, 0), (0, 0)), Err(BoardError::InvalidXCoord(8)));
    assert_eq!(board.future((4, 3), (9, 9)), Err(BoardError::SquareIsEmpty(4, 3)));
    assert_eq!(board.future((4, 1), (0, 8)), Err(BoardError::InvalidYCoord(8)));
    assert_eq!(board.future((4, 1), (3, 1)), Err(BoardError::SquareIsOccupied(3, 1)));
    // neither the turn nor the way the piece moves is looked at
    let next = board.future((0, 7), (0, 0)).unwrap();
    assert_eq!(next.get(0, 0), Ok(piece(PieceKind::Rook, Color::Black)));
    assert_eq!(next.get(0, 7), Ok(None));
    assert_eq!(next.white().count_ones(), 15);
    assert_eq!(next.turn(), Color::White);
    assert_eq!(next.fullmove(), 2);
    assert_eq!(next.halfmove(), 0);
    assert_eq!(next.castling().white_queenside, false);
    assert_eq!(next.castling().black_queenside, false);
    assert_eq!(next.castling().white_kingside, true);
    // the position that was asked stays as it was
    assert_eq!(board, Board::new());
}

#[test]
fn clocks_tick_and_stop_at_the_top() {
    let board = Board::fen("4k3/8/8/8/8/8/8/4K2R b - - 4294967295 4294967295").unwrap();
    let next = play(&board, "e8e7").unwrap();
    assert_eq!(next.halfmove(), u32::MAX);
    assert_eq!(next.fullmove(), u32::MAX);
    let board = Board::fen("4k3/8/8/8/8/8/8/4K2R w - - 10 20").unwrap();
    let next = play(&board, "h1h2").unwrap();
    assert_eq!(next.halfmove(), 11);
    assert_eq!(next.fullmove(), 20);
    let next = play(&next, "e8e7").unwrap();
    assert_eq!(next.halfmove(), 12);
    assert_eq!(next.fullmove(), 21);
}

#[test]
fn pseudo_legal_masks() {
    let board = Board::new();
    assert_eq!(board.pseudo_legal(4, 1), Ok(bit::xy(4, 2) | bit::xy(4, 3)));
    assert_eq!(board.pseudo_legal(1, 0), Ok(bit::xy(0, 2) | bit::xy(2, 2)));
    assert_eq!(board.pseudo_legal(0, 0), Ok(0));
    assert_eq!(board.pseudo_legal(4, 4), Err(BoardError::SquareIsEmpty(4, 4)));
    assert_eq!(board.pseudo_legal(4, 8), Err(BoardError::InvalidYCoord(8)));
    // a pawn does not capture straight ahead
    let board = Board::fen("4k3/8/8/8/4p3/4P3/8/4K3 w - - 0 1").unwrap();
    assert_eq!(board.pseudo_legal(4, 2), Ok(0));
}
