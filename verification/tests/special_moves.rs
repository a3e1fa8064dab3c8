//! En passant and pawn promotion.

use chess_engine::Board;
use chess_engine::ColorChess;
use chess_engine::PieceType;

/// Play a validated move and hand the turn to the other side.
fn play(board: &mut Board, start: (usize, usize), end: (usize, usize)) {
    assert!(board.is_valid_move(start, end, board.get_current_turn()));
    board.move_piece(start, end);
    board.switch_turn();
}

/// A game where Black's d-pawn double-steps beside White's e5 pawn:
/// 1. e4 a6  2. e5 d5.
fn en_passant_position() -> Board {
    let mut board = Board::new();
    play(&mut board, (6, 4), (4, 4));
    play(&mut board, (1, 0), (2, 0));
    play(&mut board, (4, 4), (3, 4));
    play(&mut board, (1, 3), (3, 3));
    board
}

#[test]
fn en_passant_capture_removes_the_bypassed_pawn() {
    let mut board = en_passant_position();
    // The double step set the target to d6, the skipped square.
    assert_eq!(board.en_passant_target, Some((2, 3)));
    // White's e5 pawn may capture to d6.
    assert!(board.is_valid_move((3, 4), (2, 3), ColorChess::White));
    board.move_piece((3, 4), (2, 3));
    // The capturing pawn stands on d6; the captured pawn leaves d5 (not d6).
    let capturer = board.piece_at(2, 3).unwrap();
    assert!(capturer.is_type(PieceType::Pawn) && capturer.is_color(ColorChess::White));
    assert!(board.piece_at(3, 3).is_none());
    assert!(board.piece_at(3, 4).is_none());
    // The capture is recorded for White.
    assert_eq!(board.points_for(ColorChess::White), 1);
    assert_eq!(board.captured_by(ColorChess::White).len(), 1);
    assert!(board.captured_by(ColorChess::White)[0].is_type(PieceType::Pawn));
    // The target is cleared by the move itself.
    assert_eq!(board.en_passant_target, None);
}

#[test]
fn en_passant_expires_after_one_move() {
    let mut board = en_passant_position();
    assert_eq!(board.en_passant_target, Some((2, 3)));
    // White declines the capture and plays h3; the target disappears.
    play(&mut board, (6, 7), (5, 7));
    assert_eq!(board.en_passant_target, None);
    // Black shuffles; White can no longer capture d6 en passant.
    play(&mut board, (2, 0), (3, 0));
    assert!(!board.is_valid_move((3, 4), (2, 3), ColorChess::White));
}

#[test]
fn promotion_makes_a_white_queen() {
    let mut board = Board::new();
    // Clear a8 and put White's a-pawn on a7.
    board.make_move_for_test((0, 0), (3, 3));
    board.make_move_for_test((6, 0), (1, 0));
    assert!(board.is_valid_move((1, 0), (0, 0), ColorChess::White));
    board.move_piece((1, 0), (0, 0));
    let promoted = board.piece_at(0, 0).unwrap();
    assert!(promoted.is_type(PieceType::Queen));
    assert!(promoted.is_color(ColorChess::White));
}

#[test]
fn promotion_makes_a_black_queen() {
    let mut board = Board::new();
    // Clear h1 and put Black's h-pawn on h2.
    board.make_move_for_test((7, 7), (3, 3));
    board.make_move_for_test((1, 7), (6, 7));
    assert!(board.is_valid_move((6, 7), (7, 7), ColorChess::Black));
    board.move_piece((6, 7), (7, 7));
    let promoted = board.piece_at(7, 7).unwrap();
    assert!(promoted.is_type(PieceType::Queen));
    assert!(promoted.is_color(ColorChess::Black));
}

#[test]
fn capture_points_accumulate() {
    let mut board = Board::new();
    // 1. e4 d5 2. exd5: White wins a pawn.
    play(&mut board, (6, 4), (4, 4));
    play(&mut board, (1, 3), (3, 3));
    play(&mut board, (4, 4), (3, 3));
    assert_eq!(board.points_for(ColorChess::White), 1);
    assert_eq!(board.points_for(ColorChess::Black), 0);
    // 2... Qxd5: Black wins the pawn back.
    play(&mut board, (0, 3), (3, 3));
    assert_eq!(board.points_for(ColorChess::Black), 1);
    assert_eq!(board.captured_by(ColorChess::Black).len(), 1);
}
