//! The starting position, piece values and coordinate decoding.

use chess_engine::Board;
use chess_engine::ColorChess;
use chess_engine::Piece;
use chess_engine::PieceType;

#[test]
fn initial_board_piece_counts() {
    let board = Board::new();
    let mut pawns = 0;
    let mut rooks = 0;
    let mut knights = 0;
    let mut bishops = 0;
    let mut queens = 0;
    let mut kings = 0;
    let mut white = 0;
    let mut black = 0;
    for x in 0..8 {
        for y in 0..8 {
            if let Some(p) = board.piece_at(x, y) {
                match p.piece_type() {
                    PieceType::Pawn => pawns += 1,
                    PieceType::Rook => rooks += 1,
                    PieceType::Knight => knights += 1,
                    PieceType::Bishop => bishops += 1,
                    PieceType::Queen => queens += 1,
                    PieceType::King => kings += 1,
                }
                match p.color() {
                    ColorChess::White => white += 1,
                    ColorChess::Black => black += 1,
                }
            }
        }
    }
    assert_eq!(pawns, 16);
    assert_eq!(rooks, 4);
    assert_eq!(knights, 4);
    assert_eq!(bishops, 4);
    assert_eq!(queens, 2);
    assert_eq!(kings, 2);
    assert_eq!(white, 16);
    assert_eq!(black, 16);
}

#[test]
fn initial_board_standard_squares() {
    let board = Board::new();
    let back_rank = [
        PieceType::Rook,
        PieceType::Knight,
        PieceType::Bishop,
        PieceType::Queen,
        PieceType::King,
        PieceType::Bishop,
        PieceType::Knight,
        PieceType::Rook,
    ];
    for y in 0..8 {
        let top = board.piece_at(0, y).unwrap();
        assert!(top.is_type(back_rank[y]) && top.is_color(ColorChess::Black));
        let bp = board.piece_at(1, y).unwrap();
        assert!(bp.is_type(PieceType::Pawn) && bp.is_color(ColorChess::Black));
        for x in 2..6 {
            assert!(board.piece_at(x, y).is_none());
        }
        let wp = board.piece_at(6, y).unwrap();
        assert!(wp.is_type(PieceType::Pawn) && wp.is_color(ColorChess::White));
        let bottom = board.piece_at(7, y).unwrap();
        assert!(bottom.is_type(back_rank[y]) && bottom.is_color(ColorChess::White));
    }
    assert_eq!(board.get_current_turn(), ColorChess::White);
    assert_eq!(board.points_for(ColorChess::White), 0);
    assert_eq!(board.points_for(ColorChess::Black), 0);
    assert!(board.captured_by(ColorChess::White).is_empty());
    assert!(board.captured_by(ColorChess::Black).is_empty());
    assert_eq!(board.en_passant_target, None);
}

#[test]
fn piece_accessors() {
    let q = Piece::new(PieceType::Queen, ColorChess::Black);
    assert_eq!(q.piece_type(), PieceType::Queen);
    assert_eq!(q.color(), ColorChess::Black);
    assert!(q.is_type(PieceType::Queen));
    assert!(!q.is_type(PieceType::King));
    assert!(q.is_color(ColorChess::Black));
    assert!(!q.is_color(ColorChess::White));
}

#[test]
fn piece_point_values() {
    assert_eq!(Piece::new(PieceType::Pawn, ColorChess::White).points(), 1);
    assert_eq!(Piece::new(PieceType::Knight, ColorChess::White).points(), 3);
    assert_eq!(Piece::new(PieceType::Bishop, ColorChess::Black).points(), 3);
    assert_eq!(Piece::new(PieceType::Rook, ColorChess::Black).points(), 5);
    assert_eq!(Piece::new(PieceType::Queen, ColorChess::White).points(), 9);
    assert_eq!(Piece::new(PieceType::King, ColorChess::Black).points(), 0);
}

#[test]
fn piece_glyphs() {
    assert_eq!(Piece::new(PieceType::King, ColorChess::White).to_char(), '\u{265A}');
    assert_eq!(Piece::new(PieceType::Queen, ColorChess::White).to_char(), '\u{265B}');
    assert_eq!(Piece::new(PieceType::Rook, ColorChess::White).to_char(), '\u{265C}');
    assert_eq!(Piece::new(PieceType::Bishop, ColorChess::Black).to_char(), '\u{265D}');
    assert_eq!(Piece::new(PieceType::Knight, ColorChess::Black).to_char(), '\u{265E}');
    assert_eq!(Piece::new(PieceType::Pawn, ColorChess::Black).to_char(), '\u{265F}');
}

#[test]
fn parse_move_decodes_squares() {
    let board = Board::new();
    assert_eq!(board.parse_move("e2"), Some((6, 4)));
    assert_eq!(board.parse_move("E2"), Some((6, 4)));
    assert_eq!(board.parse_move("a8"), Some((0, 0)));
    assert_eq!(board.parse_move("h1"), Some((7, 7)));
    assert_eq!(board.parse_move("a1"), Some((7, 0)));
    assert_eq!(board.parse_move("h8"), Some((0, 7)));
}

#[test]
fn parse_move_rejects_malformed_text() {
    let board = Board::new();
    assert_eq!(board.parse_move(""), None);
    assert_eq!(board.parse_move("e"), None);
    assert_eq!(board.parse_move("e2e4"), None);
    assert_eq!(board.parse_move("i1"), None);
    assert_eq!(board.parse_move("e0"), None);
    assert_eq!(board.parse_move("e9"), None);
    assert_eq!(board.parse_move("22"), None);
    assert_eq!(board.parse_move("ee"), None);
}

#[test]
fn switch_turn_alternates() {
    let mut board = Board::new();
    assert_eq!(board.get_current_turn(), ColorChess::White);
    board.switch_turn();
    assert_eq!(board.get_current_turn(), ColorChess::Black);
    board.switch_turn();
    assert_eq!(board.get_current_turn(), ColorChess::White);
}

#[test]
fn player_color_is_white() {
    assert_eq!(Board::choose_player_color(), ColorChess::White);
}
