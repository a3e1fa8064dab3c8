//! Per-piece move validation: degenerate rejections, pawn steps, knight
//! reach, and sliders blocked by intervening pieces.

use chess_engine::Board;
use chess_engine::ColorChess;
use chess_engine::PieceType;

#[test]
fn rejects_move_to_same_square() {
    let board = Board::new();
    assert!(!board.is_valid_move((6, 4), (6, 4), ColorChess::White));
}

#[test]
fn rejects_destination_off_the_board() {
    let board = Board::new();
    assert!(!board.is_valid_move((6, 4), (8, 4), ColorChess::White));
    assert!(!board.is_valid_move((6, 4), (6, 8), ColorChess::White));
    assert!(!board.is_valid_move((7, 7), (7, 100), ColorChess::White));
}

#[test]
fn rejects_empty_start_and_wrong_color() {
    let board = Board::new();
    // No piece in the middle of the board.
    assert!(!board.is_valid_move((4, 4), (3, 4), ColorChess::White));
    // White's pawn may not be moved by Black.
    assert!(!board.is_valid_move((6, 4), (5, 4), ColorChess::Black));
    // Black's pawn may not be moved by White.
    assert!(!board.is_valid_move((1, 4), (2, 4), ColorChess::White));
}

#[test]
fn pawn_double_step_from_home_rank() {
    let board = Board::new();
    // e2-e4 on the starting board.
    assert!(board.is_valid_move((6, 4), (4, 4), ColorChess::White));
    // e2-e3 as well.
    assert!(board.is_valid_move((6, 4), (5, 4), ColorChess::White));
}

#[test]
fn pawn_double_step_blocked_by_occupied_square() {
    // A piece on e3 blocks both e2-e3 and e2-e4.
    let mut board = Board::new();
    board.make_move_for_test((1, 3), (5, 4));
    assert!(!board.is_valid_move((6, 4), (4, 4), ColorChess::White));
    assert!(!board.is_valid_move((6, 4), (5, 4), ColorChess::White));

    // A piece on e4 blocks e2-e4 but not e2-e3.
    let mut board2 = Board::new();
    board2.make_move_for_test((1, 3), (4, 4));
    assert!(!board2.is_valid_move((6, 4), (4, 4), ColorChess::White));
    assert!(board2.is_valid_move((6, 4), (5, 4), ColorChess::White));
}

#[test]
fn pawn_diagonal_to_empty_square_is_illegal() {
    let board = Board::new();
    // e2 to d3 and to f3: both empty, no en-passant target.
    assert!(!board.is_valid_move((6, 4), (5, 3), ColorChess::White));
    assert!(!board.is_valid_move((6, 4), (5, 5), ColorChess::White));
}

#[test]
fn pawn_diagonal_capture() {
    let mut board = Board::new();
    // Put a black pawn on d3; e2 may capture it.
    board.make_move_for_test((1, 3), (5, 3));
    assert!(board.is_valid_move((6, 4), (5, 3), ColorChess::White));
    board.move_piece((6, 4), (5, 3));
    assert_eq!(board.points_for(ColorChess::White), 1);
    assert_eq!(board.captured_by(ColorChess::White).len(), 1);
    assert!(board.captured_by(ColorChess::White)[0].is_type(PieceType::Pawn));
    let landed = board.piece_at(5, 3).unwrap();
    assert!(landed.is_type(PieceType::Pawn) && landed.is_color(ColorChess::White));
}

#[test]
fn knight_reach_on_initial_position() {
    let board = Board::new();
    // The knight on b1 can reach only a3 and c3: d2 holds White's own pawn,
    // and every other geometric destination is off the board or occupied by
    // its own side.
    let mut reached = Vec::new();
    for x in 0..8 {
        for y in 0..8 {
            if board.is_valid_move((7, 1), (x, y), ColorChess::White) {
                reached.push((x, y));
            }
        }
    }
    assert_eq!(reached, vec![(5, 0), (5, 2)]);
}

#[test]
fn rook_cannot_pass_through_pieces() {
    let mut board = Board::new();
    // Free the a-file in front of the a1 rook by advancing the a2 pawn to a4.
    board.make_move_for_test((6, 0), (4, 0));
    // a1-a3 is now open.
    assert!(board.is_valid_move((7, 0), (5, 0), ColorChess::White));
    // a1-a4 lands on White's own pawn.
    assert!(!board.is_valid_move((7, 0), (4, 0), ColorChess::White));
    // a1-a5 would pass through the pawn on a4.
    assert!(!board.is_valid_move((7, 0), (3, 0), ColorChess::White));
    // Put a black piece on a3: the distant empty a5 square stays unreachable
    // and now even a3 onward is blocked from behind it.
    board.make_move_for_test((1, 7), (5, 0));
    assert!(board.is_valid_move((7, 0), (5, 0), ColorChess::White));
    assert!(!board.is_valid_move((7, 0), (4, 0), ColorChess::White));
    assert!(!board.is_valid_move((7, 0), (3, 0), ColorChess::White));
}

#[test]
fn bishop_and_queen_cannot_pass_through_pieces() {
    let board = Board::new();
    // The d1 queen's diagonal toward h5 is blocked by the e2 pawn.
    assert!(!board.is_valid_move((7, 3), (3, 7), ColorChess::White));
    // The f1 bishop cannot jump the e2 pawn either.
    assert!(!board.is_valid_move((7, 5), (5, 3), ColorChess::White));
    let mut open = Board::new();
    // With the e2 pawn gone, both lines open up.
    open.make_move_for_test((6, 4), (4, 4));
    assert!(open.is_valid_move((7, 3), (3, 7), ColorChess::White));
    assert!(open.is_valid_move((7, 5), (5, 3), ColorChess::White));
    // Blocking f3 shuts the queen's diagonal again but not the bishop's.
    let mut blocked = Board::new();
    blocked.make_move_for_test((6, 4), (4, 4));
    blocked.make_move_for_test((1, 0), (5, 5));
    assert!(!blocked.is_valid_move((7, 3), (3, 7), ColorChess::White));
    assert!(blocked.is_valid_move((7, 5), (5, 3), ColorChess::White));
}

#[test]
fn queen_moves_as_rook_or_bishop() {
    let mut board = Board::new();
    // Open the d-file: the queen moves straight like a rook.
    board.make_move_for_test((6, 3), (4, 3));
    assert!(board.is_valid_move((7, 3), (5, 3), ColorChess::White));
    // But never like a knight.
    assert!(!board.is_valid_move((7, 3), (5, 4), ColorChess::White));
}

#[test]
fn king_steps_one_square() {
    let mut board = Board::new();
    // Free e2 so the king can step there.
    board.make_move_for_test((6, 4), (4, 4));
    assert!(board.is_valid_move((7, 4), (6, 4), ColorChess::White));
    // Two squares forward is no king move (and no castling).
    assert!(!board.is_valid_move((7, 4), (5, 4), ColorChess::White));
    // Its own bishop's square is off limits.
    assert!(!board.is_valid_move((7, 4), (7, 5), ColorChess::White));
}
