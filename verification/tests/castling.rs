//! Castling: every condition of the rule, and the rook's relocation.

use chess_engine::Board;
use chess_engine::ColorChess;
use chess_engine::PieceType;

/// A starting board with f1 and g1 vacated, so White's king-side castling is
/// available.
fn king_side_ready() -> Board {
    let mut board = Board::new();
    // Park the f1 bishop and g1 knight out of the way.
    board.make_move_for_test((7, 5), (4, 0));
    board.make_move_for_test((7, 6), (4, 1));
    board
}

#[test]
fn king_side_castling_is_legal_when_all_conditions_hold() {
    let board = king_side_ready();
    assert!(board.is_valid_move((7, 4), (7, 6), ColorChess::White));
}

#[test]
fn castling_moves_king_to_g1_and_rook_to_f1() {
    let mut board = king_side_ready();
    board.move_piece((7, 4), (7, 6));
    let king = board.piece_at(7, 6).unwrap();
    assert!(king.is_type(PieceType::King) && king.is_color(ColorChess::White));
    let rook = board.piece_at(7, 5).unwrap();
    assert!(rook.is_type(PieceType::Rook) && rook.is_color(ColorChess::White));
    assert!(board.piece_at(7, 4).is_none());
    assert!(board.piece_at(7, 7).is_none());
}

#[test]
fn castling_illegal_when_path_occupied() {
    let mut board = Board::new();
    // Only the knight has left; the f1 bishop still blocks.
    board.make_move_for_test((7, 6), (4, 1));
    assert!(!board.is_valid_move((7, 4), (7, 6), ColorChess::White));
}

#[test]
fn castling_illegal_after_king_has_moved() {
    let mut board = king_side_ready();
    board.move_piece((7, 4), (7, 5));
    board.move_piece((7, 5), (7, 4));
    assert!(!board.is_valid_move((7, 4), (7, 6), ColorChess::White));
}

#[test]
fn castling_illegal_after_rook_has_moved() {
    let mut board = king_side_ready();
    board.move_piece((7, 7), (7, 6));
    board.move_piece((7, 6), (7, 7));
    assert!(!board.is_valid_move((7, 4), (7, 6), ColorChess::White));
}

#[test]
fn castling_illegal_when_destination_attacked() {
    let mut board = king_side_ready();
    // A black knight on h3 attacks g1 (but neither e1 nor f1).
    board.make_move_for_test((0, 6), (5, 7));
    assert!(!board.is_in_check(ColorChess::White));
    assert!(!board.is_valid_move((7, 4), (7, 6), ColorChess::White));
}

#[test]
fn castling_illegal_while_in_check() {
    let mut board = king_side_ready();
    // A black knight on d3 gives check without touching f1 or g1.
    board.make_move_for_test((0, 1), (5, 3));
    assert!(board.is_in_check(ColorChess::White));
    assert!(!board.is_valid_move((7, 4), (7, 6), ColorChess::White));
}

#[test]
fn queen_side_castling() {
    let mut board = Board::new();
    // Vacate b1, c1 and d1.
    board.make_move_for_test((7, 1), (4, 1));
    board.make_move_for_test((7, 2), (4, 2));
    board.make_move_for_test((7, 3), (4, 3));
    assert!(board.is_valid_move((7, 4), (7, 2), ColorChess::White));
    board.move_piece((7, 4), (7, 2));
    let king = board.piece_at(7, 2).unwrap();
    assert!(king.is_type(PieceType::King) && king.is_color(ColorChess::White));
    let rook = board.piece_at(7, 3).unwrap();
    assert!(rook.is_type(PieceType::Rook) && rook.is_color(ColorChess::White));
    assert!(board.piece_at(7, 0).is_none());
    assert!(board.piece_at(7, 4).is_none());
}

#[test]
fn black_king_side_castling() {
    let mut board = Board::new();
    board.make_move_for_test((0, 5), (3, 0));
    board.make_move_for_test((0, 6), (3, 1));
    assert!(board.is_valid_move((0, 4), (0, 6), ColorChess::Black));
    board.move_piece((0, 4), (0, 6));
    let king = board.piece_at(0, 6).unwrap();
    assert!(king.is_type(PieceType::King) && king.is_color(ColorChess::Black));
    let rook = board.piece_at(0, 5).unwrap();
    assert!(rook.is_type(PieceType::Rook) && rook.is_color(ColorChess::Black));
}
