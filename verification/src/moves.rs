//! The full move-legality rule of the engine: the castling rule, the complete
//! king rule, and `is_valid_move`, the dispatcher over every piece type.
//!
//! `is_valid_move` decides whether a move obeys the moving piece's movement
//! pattern. It deliberately does not ask whether the move leaves the mover's
//! own king in check; that filtering is a separate stage built on trial
//! boards, so that attack scanning can reuse this movement logic without
//! recursing into check-safety filtering.

use vstd::prelude::*;

use crate::attack::in_check_spec;
use crate::attack::square_attacked_spec;
use crate::board::Board;
use crate::board::BoardModel;
use crate::piece::ColorChess;
use crate::piece::PieceType;
use crate::piece::opposite;
use crate::rules::bishop_ok;
use crate::rules::empty_at;
use crate::rules::king_basic_ok;
use crate::rules::knight_ok;
use crate::rules::on_board;
use crate::rules::pawn_ok;
use crate::rules::queen_ok;
use crate::rules::rook_ok;
use crate::rules::sq;

verus! {

/// Whether `c`'s king has ever moved.
pub open spec fn king_moved(m: BoardModel, c: ColorChess) -> bool {
    if c == ColorChess::White {
        m.white_king_moved
    } else {
        m.black_king_moved
    }
}

/// Whether `c`'s king-side or queen-side rook has ever moved.
pub open spec fn rook_moved(m: BoardModel, c: ColorChess, king_side: bool) -> bool {
    if c == ColorChess::White {
        if king_side {
            m.white_rook_king_side_moved
        } else {
            m.white_rook_queen_side_moved
        }
    } else {
        if king_side {
            m.black_rook_king_side_moved
        } else {
            m.black_rook_queen_side_moved
        }
    }
}

/// The home row of `c`'s king and rooks: row 7 for White, row 0 for Black.
pub open spec fn home_row(c: ColorChess) -> int {
    if c == ColorChess::White {
        7
    } else {
        0
    }
}

/// The castling rule: a two-square horizontal king move from the home square,
/// legal only when the king has never moved, the selected rook has never
/// moved, every square strictly between king and rook is empty, the king is
/// not currently in check, and neither the square the king passes through nor
/// its destination is attacked by the other side.
pub open spec fn castling_ok(m: BoardModel, sx: int, sy: int, ex: int, ey: int, c: ColorChess) -> bool {
    let home = home_row(c);
    &&& sx == home && sy == 4
    &&& !king_moved(m, c)
    &&& if ex == home && ey == 6 {
        &&& !rook_moved(m, c, true)
        &&& empty_at(m, home, 5) && empty_at(m, home, 6)
        &&& !in_check_spec(m, c)
        &&& !square_attacked_spec(m, home, 5, opposite(c))
        &&& !square_attacked_spec(m, home, 6, opposite(c))
    } else if ex == home && ey == 2 {
        &&& !rook_moved(m, c, false)
        &&& empty_at(m, home, 1) && empty_at(m, home, 2) && empty_at(m, home, 3)
        &&& !in_check_spec(m, c)
        &&& !square_attacked_spec(m, home, 3, opposite(c))
        &&& !square_attacked_spec(m, home, 2, opposite(c))
    } else {
        false
    }
}

/// The complete king rule: the castling rule or a one-square step.
pub open spec fn king_ok(m: BoardModel, sx: int, sy: int, ex: int, ey: int, c: ColorChess) -> bool {
    castling_ok(m, sx, sy, ex, ey, c) || king_basic_ok(m, sx, sy, ex, ey, c)
}

/// The movement-pattern legality of a move of `color` from `(sx, sy)` to
/// `(ex, ey)`: the move stays on the board and does not stand still, a piece
/// of the moving color stands on the start square, and the move obeys that
/// piece's rule. Whether the move exposes the mover's own king is a separate
/// question.
pub open spec fn valid_move_spec(m: BoardModel, sx: int, sy: int, ex: int, ey: int, c: ColorChess) -> bool {
    &&& !(sx == ex && sy == ey)
    &&& on_board(sx, sy)
    &&& on_board(ex, ey)
    &&& sq(m, sx, sy) matches Some(p) && p.color == c && (match p.piece_type {
        PieceType::Pawn => pawn_ok(m, sx, sy, ex, ey, c),
        PieceType::Knight => knight_ok(m, sx, sy, ex, ey, c),
        PieceType::Bishop => bishop_ok(m, sx, sy, ex, ey, c),
        PieceType::Rook => rook_ok(m, sx, sy, ex, ey, c),
        PieceType::Queen => queen_ok(m, sx, sy, ex, ey, c),
        PieceType::King => king_ok(m, sx, sy, ex, ey, c),
    })
}

impl Board {
    /// Decide the castling rule for a king move of `color` from `start` to
    /// `end`.
    pub fn is_valid_castling(&self, start: (usize, usize), end: (usize, usize), color: ColorChess) -> (r: bool)
        requires
            self.wf(),
        ensures
            r == castling_ok(self@, start.0 as int, start.1 as int, end.0 as int, end.1 as int, color),
    {
        // The king must stand on its home square.
        let home: usize = if color == ColorChess::White {
            7
        } else {
            0
        };
        if !(start.0 == home && start.1 == 4) {
            return false;
        }
        // The king must never have moved.
        let this_king_moved = if color == ColorChess::White {
            self.white_king_moved
        } else {
            self.black_king_moved
        };
        if this_king_moved {
            return false;
        }
        let attacker = match color {
            ColorChess::White => ColorChess::Black,
            ColorChess::Black => ColorChess::White,
        };
        if end.0 == home && end.1 == 6 {
            // King side: the rook must never have moved, the two squares
            // between king and rook must be empty, and neither the king's
            // square, the square it passes through, nor its destination may
            // be attacked.
            let rook_flag = if color == ColorChess::White {
                self.white_rook_king_side_moved
            } else {
                self.black_rook_king_side_moved
            };
            if rook_flag {
                return false;
            }
            if self.squares[home * 8 + 5].is_some() || self.squares[home * 8 + 6].is_some() {
                return false;
            }
            if self.is_in_check(color) || self.is_square_attacked((home, 5), attacker)
                || self.is_square_attacked((home, 6), attacker) {
                return false;
            }
            true
        } else if end.0 == home && end.1 == 2 {
            // Queen side: likewise, with three squares between king and rook.
            let rook_flag = if color == ColorChess::White {
                self.white_rook_queen_side_moved
            } else {
                self.black_rook_queen_side_moved
            };
            if rook_flag {
                return false;
            }
            if self.squares[home * 8 + 1].is_some() || self.squares[home * 8 + 2].is_some()
                || self.squares[home * 8 + 3].is_some() {
                return false;
            }
            if self.is_in_check(color) || self.is_square_attacked((home, 3), attacker)
                || self.is_square_attacked((home, 2), attacker) {
                return false;
            }
            true
        } else {
            false
        }
    }

    /// Decide the complete king rule for a move of `color` from `start` to
    /// `end`: castling, or else a one-square step.
    pub fn is_valid_king_move(&self, start: (usize, usize), end: (usize, usize), color: ColorChess) -> (r: bool)
        requires
            self.wf(),
            start.0 < 8 && start.1 < 8,
            end.0 < 8 && end.1 < 8,
        ensures
            r == king_ok(self@, start.0 as int, start.1 as int, end.0 as int, end.1 as int, color),
    {
        if self.is_valid_castling(start, end, color) {
            return true;
        }
        let dx = if start.0 > end.0 {
            start.0 - end.0
        } else {
            end.0 - start.0
        };
        let dy = if start.1 > end.1 {
            start.1 - end.1
        } else {
            end.1 - start.1
        };
        dx <= 1 && dy <= 1 && self.dest_empty_or_enemy(end.0, end.1, color)
    }

    /// Whether moving the piece at `start` to `end` is legal for that piece's
    /// movement pattern, with `color` required to match the occupant's color.
    /// Rejected outright: a move to the start square itself, a destination
    /// off the board, an empty start square, and a piece of the other color.
    /// This does not test whether the move leaves `color`'s own king in
    /// check.
    pub fn is_valid_move(&self, start: (usize, usize), end: (usize, usize), color: ColorChess) -> (r: bool)
        requires
            self.wf(),
            start.0 < 8 && start.1 < 8,
        ensures
            r == valid_move_spec(self@, start.0 as int, start.1 as int, end.0 as int, end.1 as int, color),
    {
        if (start.0 == end.0 && start.1 == end.1) || end.0 >= 8 || end.1 >= 8 {
            return false;
        }
        if let Some(piece) = self.squares[start.0 * 8 + start.1] {
            if piece.color() != color {
                return false;
            }
            match piece.piece_type() {
                PieceType::Pawn => self.is_valid_pawn_move(start, end, color),
                PieceType::Knight => self.is_valid_knight_move(start, end, color),
                PieceType::Bishop => self.is_valid_bishop_move(start, end, color),
                PieceType::Rook => self.is_valid_rook_move(start, end, color),
                PieceType::Queen => self.is_valid_queen_move(start, end, color),
                PieceType::King => self.is_valid_king_move(start, end, color),
            }
        } else {
            false
        }
    }
}

} // verus!
