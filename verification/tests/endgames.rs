//! Check, checkmate, stalemate and the legal-move filter.

use chess_engine::Board;
use chess_engine::ColorChess;

/// Play a validated move and hand the turn to the other side.
fn play(board: &mut Board, start: (usize, usize), end: (usize, usize)) {
    assert!(board.is_valid_move(start, end, board.get_current_turn()));
    board.move_piece(start, end);
    board.switch_turn();
}

#[test]
fn initial_position_is_quiet() {
    let board = Board::new();
    assert!(!board.is_in_check(ColorChess::White));
    assert!(!board.is_in_check(ColorChess::Black));
    assert!(!board.is_checkmate(ColorChess::White));
    assert!(!board.is_stalemate(ColorChess::White));
    assert!(!board.is_game_over(ColorChess::White));
    assert!(board.has_king(ColorChess::White));
    assert!(board.has_king(ColorChess::Black));
}

#[test]
fn initial_position_has_twenty_legal_moves() {
    let board = Board::new();
    assert_eq!(board.get_all_legal_moves(ColorChess::White).len(), 20);
    assert_eq!(board.get_all_legal_moves(ColorChess::Black).len(), 20);
    // With no check-safety filtering the counts agree here: no opening move
    // can expose a king.
    assert_eq!(board.get_all_moves(ColorChess::White).len(), 20);
}

#[test]
fn legal_moves_never_leave_own_king_in_check() {
    let board = Board::new();
    for (start, end) in board.get_all_legal_moves(ColorChess::White) {
        let mut trial = board.duplicate();
        trial.make_move_for_test(start, end);
        assert!(!trial.is_in_check(ColorChess::White));
    }
}

#[test]
fn fools_mate_is_checkmate() {
    let mut board = Board::new();
    // 1. f3 e5  2. g4 Qh4#
    play(&mut board, (6, 5), (5, 5));
    play(&mut board, (1, 4), (3, 4));
    play(&mut board, (6, 6), (4, 6));
    play(&mut board, (0, 3), (4, 7));
    assert!(board.is_in_check(ColorChess::White));
    assert!(board.is_checkmate(ColorChess::White));
    assert!(board.is_game_over(ColorChess::White));
    assert!(!board.is_stalemate(ColorChess::White));
    assert!(board.get_all_legal_moves(ColorChess::White).is_empty());
    // The other side is unaffected.
    assert!(!board.is_in_check(ColorChess::Black));
    assert!(!board.is_checkmate(ColorChess::Black));
    assert!(!board.is_game_over(ColorChess::Black));
    assert!(!board.get_all_legal_moves(ColorChess::Black).is_empty());
}

#[test]
fn check_without_mate_is_not_game_over() {
    let mut board = Board::new();
    // 1. e4 f5 2. Qh5+: Black is in check but can block with g6.
    play(&mut board, (6, 4), (4, 4));
    play(&mut board, (1, 5), (3, 5));
    play(&mut board, (7, 3), (3, 7));
    assert!(board.is_in_check(ColorChess::Black));
    assert!(!board.is_checkmate(ColorChess::Black));
    assert!(!board.is_game_over(ColorChess::Black));
    let replies = board.get_all_legal_moves(ColorChess::Black);
    assert!(replies.contains(&((1, 6), (2, 6))));
}

/// Strip the board down to White's king and queen against Black's bare king
/// on a8, with the queen on b6: Black has no move but is not in check.
fn stalemate_position() -> Board {
    let mut board = Board::new();
    // Tuck the black king into the corner and park the white king.
    board.make_move_for_test((0, 4), (0, 0));
    board.make_move_for_test((7, 4), (5, 5));
    // The white queen devours every other piece.
    let mut queen = (7, 3);
    let victims = [
        (0, 1), (0, 2), (0, 3), (0, 5), (0, 6), (0, 7),
        (1, 0), (1, 1), (1, 2), (1, 3), (1, 4), (1, 5), (1, 6), (1, 7),
        (6, 0), (6, 1), (6, 2), (6, 3), (6, 4), (6, 5), (6, 6), (6, 7),
        (7, 0), (7, 1), (7, 2), (7, 5), (7, 6), (7, 7),
    ];
    for target in victims {
        board.make_move_for_test(queen, target);
        queen = target;
    }
    // The queen takes up her post on b6.
    board.make_move_for_test(queen, (2, 1));
    board
}

#[test]
fn bare_king_in_the_corner_is_stalemated() {
    let board = stalemate_position();
    assert!(!board.is_in_check(ColorChess::Black));
    assert!(board.get_all_legal_moves(ColorChess::Black).is_empty());
    assert!(board.is_stalemate(ColorChess::Black));
    assert!(!board.is_checkmate(ColorChess::Black));
    assert!(board.is_game_over(ColorChess::Black));
    // White still has moves.
    assert!(!board.is_stalemate(ColorChess::White));
    assert!(!board.is_game_over(ColorChess::White));
}

#[test]
fn captured_king_means_checkmate() {
    let mut board = Board::new();
    // Drop the black queen onto White's king.
    board.make_move_for_test((0, 3), (7, 4));
    assert!(!board.has_king(ColorChess::White));
    assert!(!board.is_in_check(ColorChess::White));
    assert!(board.is_checkmate(ColorChess::White));
    assert!(board.is_game_over(ColorChess::White));
    assert!(board.has_king(ColorChess::Black));
}
