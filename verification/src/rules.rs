//! Per-piece movement rules: the pseudo-legal move predicates for pawns,
//! knights, bishops, rooks, queens and the king's one-square step, and the
//! executable validators that decide them.
//!
//! Castling is deliberately absent here: the castling rule needs check and
//! attack scanning, which are themselves built on these basic predicates, so
//! castling lives one layer up.

use vstd::prelude::*;

use crate::board::Board;
use crate::board::BoardModel;
use crate::piece::ColorChess;
use crate::piece::PieceType;
use crate::piece::opposite;

verus! {

/// The absolute difference of two coordinates.
pub open spec fn dist(a: int, b: int) -> int {
    if a >= b {
        a - b
    } else {
        b - a
    }
}

/// `(x, y)` lies on the 8x8 board.
pub open spec fn on_board(x: int, y: int) -> bool {
    0 <= x < 8 && 0 <= y < 8
}

/// The occupant of square `(x, y)`.
pub open spec fn sq(m: BoardModel, x: int, y: int) -> Option<crate::piece::Piece> {
    m.squares[x * 8 + y]
}

/// Square `(x, y)` is empty.
pub open spec fn empty_at(m: BoardModel, x: int, y: int) -> bool {
    sq(m, x, y) is None
}

/// Square `(x, y)` is empty or holds a piece of the other side, so a piece of
/// color `c` may land on it.
pub open spec fn empty_or_enemy(m: BoardModel, x: int, y: int, c: ColorChess) -> bool {
    match sq(m, x, y) {
        None => true,
        Some(p) => p.color != c,
    }
}

/// The en-passant clause of the pawn rule: a diagonal step onto the
/// designated en-passant target square, permitted only from the rank adjacent
/// to that target and only while the target is set, capturing the pawn that
/// stands beside (not on) the destination.
pub open spec fn pawn_ep_ok(m: BoardModel, sx: int, sy: int, ex: int, ey: int, c: ColorChess) -> bool {
    &&& dist(sy, ey) == 1
    &&& m.en_passant_target matches Some(t)
    &&& if c == ColorChess::White {
        sx == 3 && ex == 2
    } else {
        sx == 4 && ex == 5
    }
    &&& ex == t.0 && ey == t.1
    &&& sq(m, sx, ey) matches Some(q) && q.piece_type == PieceType::Pawn && q.color == opposite(c)
}

/// The pawn rule: one square forward to an empty square; two squares forward
/// from the home rank when both squares are empty; one square diagonally
/// forward onto an opposing piece; or an en-passant capture. White advances
/// toward smaller row indices, Black toward larger ones.
pub open spec fn pawn_ok(m: BoardModel, sx: int, sy: int, ex: int, ey: int, c: ColorChess) -> bool {
    if c == ColorChess::White {
        ||| (ex == sx - 1 && sy == ey && empty_at(m, ex, ey))
        ||| (sx == 6 && ex == 4 && sy == ey && empty_at(m, 5, ey) && empty_at(m, ex, ey))
        ||| (ex == sx - 1 && dist(sy, ey) == 1 && (sq(m, ex, ey) matches Some(p) && p.color
            == ColorChess::Black))
        ||| pawn_ep_ok(m, sx, sy, ex, ey, c)
    } else {
        ||| (ex == sx + 1 && sy == ey && empty_at(m, ex, ey))
        ||| (sx == 1 && ex == 3 && sy == ey && empty_at(m, 2, ey) && empty_at(m, ex, ey))
        ||| (ex == sx + 1 && dist(sy, ey) == 1 && (sq(m, ex, ey) matches Some(p) && p.color
            == ColorChess::White))
        ||| pawn_ep_ok(m, sx, sy, ex, ey, c)
    }
}

/// The knight rule: an offset of one square on one axis and two on the other,
/// onto an empty or opposing square.
pub open spec fn knight_ok(m: BoardModel, sx: int, sy: int, ex: int, ey: int, c: ColorChess) -> bool {
    &&& (dist(sx, ex) == 2 && dist(sy, ey) == 1) || (dist(sx, ex) == 1 && dist(sy, ey) == 2)
    &&& empty_or_enemy(m, ex, ey, c)
}

/// Every square strictly between `(sx, sy)` and `(ex, ey)` on their shared
/// rank or file is empty.
pub open spec fn rook_path_clear(m: BoardModel, sx: int, sy: int, ex: int, ey: int) -> bool {
    if sx == ex {
        forall|y: int|
            (if sy < ey {
                sy < y < ey
            } else {
                ey < y < sy
            }) ==> empty_at(m, sx, y)
    } else {
        forall|x: int|
            (if sx < ex {
                sx < x < ex
            } else {
                ex < x < sx
            }) ==> empty_at(m, x, sy)
    }
}

/// The rook rule: destination shares a rank or file, every square strictly
/// between is empty, and the destination is empty or opposing.
pub open spec fn rook_ok(m: BoardModel, sx: int, sy: int, ex: int, ey: int, c: ColorChess) -> bool {
    &&& sx == ex || sy == ey
    &&& rook_path_clear(m, sx, sy, ex, ey)
    &&& empty_or_enemy(m, ex, ey, c)
}

/// The `k`-th square stepping from `s` toward `e`, one square at a time.
pub open spec fn step_toward(s: int, e: int, k: int) -> int {
    if e > s {
        s + k
    } else {
        s - k
    }
}

/// Every square strictly between `(sx, sy)` and `(ex, ey)` on their shared
/// diagonal is empty.
pub open spec fn bishop_path_clear(m: BoardModel, sx: int, sy: int, ex: int, ey: int) -> bool {
    forall|k: int|
        1 <= k < dist(sx, ex) ==> empty_at(m, #[trigger] step_toward(sx, ex, k), step_toward(sy, ey, k))
}

/// The bishop rule: destination lies on a diagonal (equal absolute rank and
/// file deltas), every square strictly between is empty, and the destination
/// is empty or opposing.
pub open spec fn bishop_ok(m: BoardModel, sx: int, sy: int, ex: int, ey: int, c: ColorChess) -> bool {
    &&& dist(sx, ex) == dist(sy, ey)
    &&& bishop_path_clear(m, sx, sy, ex, ey)
    &&& empty_or_enemy(m, ex, ey, c)
}

/// The queen rule: a queen moves as a rook or as a bishop.
pub open spec fn queen_ok(m: BoardModel, sx: int, sy: int, ex: int, ey: int, c: ColorChess) -> bool {
    rook_ok(m, sx, sy, ex, ey, c) || bishop_ok(m, sx, sy, ex, ey, c)
}

/// The king's ordinary rule: a one-square step in any direction onto an empty
/// or opposing square. Castling is treated separately.
pub open spec fn king_basic_ok(m: BoardModel, sx: int, sy: int, ex: int, ey: int, c: ColorChess) -> bool {
    &&& dist(sx, ex) <= 1 && dist(sy, ey) <= 1
    &&& empty_or_enemy(m, ex, ey, c)
}

/// A pseudo-legal move without the castling rule: the move stays on the
/// board, does not stand still, starts from a piece of the moving color, and
/// obeys that piece's movement pattern (with only the one-square rule for the
/// king). Check and attack scanning are defined over this predicate; a
/// castling king can never capture, so leaving castling out does not change
/// what it means for a square to be attacked.
pub open spec fn move_ok_basic(m: BoardModel, sx: int, sy: int, ex: int, ey: int, c: ColorChess) -> bool {
    &&& !(sx == ex && sy == ey)
    &&& on_board(sx, sy)
    &&& on_board(ex, ey)
    &&& sq(m, sx, sy) matches Some(p) && p.color == c && (match p.piece_type {
        PieceType::Pawn => pawn_ok(m, sx, sy, ex, ey, c),
        PieceType::Knight => knight_ok(m, sx, sy, ex, ey, c),
        PieceType::Bishop => bishop_ok(m, sx, sy, ex, ey, c),
        PieceType::Rook => rook_ok(m, sx, sy, ex, ey, c),
        PieceType::Queen => queen_ok(m, sx, sy, ex, ey, c),
        PieceType::King => king_basic_ok(m, sx, sy, ex, ey, c),
    })
}

impl Board {
    /// Destination test shared by every piece rule: the square is empty or
    /// holds an opposing piece.
    #[verifier::loop_isolation(false)]
    pub(crate) fn dest_empty_or_enemy(&self, x: usize, y: usize, color: ColorChess) -> (r: bool)
        requires
            self.wf(),
            x < 8,
            y < 8,
        ensures
            r == empty_or_enemy(self@, x as int, y as int, color),
    {
        match self.squares[x * 8 + y] {
            None => true,
            Some(p) => p.color() != color,
        }
    }

    /// Decide the pawn rule for a move of `color` from `start` to `end`.
    pub fn is_valid_pawn_move(&self, start: (usize, usize), end: (usize, usize), color: ColorChess) -> (r: bool)
        requires
            self.wf(),
            start.0 < 8 && start.1 < 8,
            end.0 < 8 && end.1 < 8,
        ensures
            r == pawn_ok(self@, start.0 as int, start.1 as int, end.0 as int, end.1 as int, color),
    {
        let (sx, sy) = start;
        let (ex, ey) = end;
        let dy = if sy > ey {
            sy - ey
        } else {
            ey - sy
        };
        if color == ColorChess::White {
            // One step forward onto an empty square.
            if sx > 0 && sx - 1 == ex && sy == ey && self.squares[ex * 8 + ey].is_none() {
                return true;
            }
            // Two steps forward from the home rank.
            if sx == 6 && ex == 4 && sy == ey && self.squares[5 * 8 + ey].is_none()
                && self.squares[ex * 8 + ey].is_none() {
                return true;
            }
            // Ordinary diagonal capture.
            if sx > 0 && sx - 1 == ex && dy == 1 {
                if let Some(p) = self.squares[ex * 8 + ey] {
                    if p.color() == ColorChess::Black {
                        return true;
                    }
                }
            }
        } else {
            // One step forward onto an empty square.
            if sx + 1 == ex && sy == ey && self.squares[ex * 8 + ey].is_none() {
                return true;
            }
            // Two steps forward from the home rank.
            if sx == 1 && ex == 3 && sy == ey && self.squares[2 * 8 + ey].is_none()
                && self.squares[ex * 8 + ey].is_none() {
                return true;
            }
            // Ordinary diagonal capture.
            if sx + 1 == ex && dy == 1 {
                if let Some(p) = self.squares[ex * 8 + ey] {
                    if p.color() == ColorChess::White {
                        return true;
                    }
                }
            }
        }
        // En passant.
        if dy == 1 {
            if let Some(t) = self.en_passant_target {
                let rank_ok = if color == ColorChess::White {
                    sx == 3 && ex == 2
                } else {
                    sx == 4 && ex == 5
                };
                if rank_ok && ex == t.0 && ey == t.1 {
                    if let Some(q) = self.squares[sx * 8 + ey] {
                        if q.is_type(PieceType::Pawn) && q.is_color(
                            match color {
                                ColorChess::White => ColorChess::Black,
                                ColorChess::Black => ColorChess::White,
                            },
                        ) {
                            return true;
                        }
                    }
                }
            }
        }
        false
    }

    /// Decide the knight rule for a move of `color` from `start` to `end`.
    pub fn is_valid_knight_move(&self, start: (usize, usize), end: (usize, usize), color: ColorChess) -> (r: bool)
        requires
            self.wf(),
            start.0 < 8 && start.1 < 8,
            end.0 < 8 && end.1 < 8,
        ensures
            r == knight_ok(self@, start.0 as int, start.1 as int, end.0 as int, end.1 as int, color),
    {
        let dx = if start.0 > end.0 {
            start.0 - end.0
        } else {
            end.0 - start.0
        };
        let dy = if start.1 > end.1 {
            start.1 - end.1
        } else {
            end.1 - start.1
        };
        if (dx == 2 && dy == 1) || (dx == 1 && dy == 2) {
            return self.dest_empty_or_enemy(end.0, end.1, color);
        }
        false
    }

    /// Decide the rook rule for a move of `color` from `start` to `end`.
    #[verifier::loop_isolation(false)]
    pub fn is_valid_rook_move(&self, start: (usize, usize), end: (usize, usize), color: ColorChess) -> (r: bool)
        requires
            self.wf(),
            start.0 < 8 && start.1 < 8,
            end.0 < 8 && end.1 < 8,
        ensures
            r == rook_ok(self@, start.0 as int, start.1 as int, end.0 as int, end.1 as int, color),
    {
        let (sx, sy) = start;
        let (ex, ey) = end;
        if sx != ex && sy != ey {
            return false;
        }
        if sx == ex {
            let (lo, hi) = if sy < ey {
                (sy, ey)
            } else {
                (ey, sy)
            };
            let mut y = lo + 1;
            while y < hi
                invariant
                    lo < y <= hi || y == lo + 1,
                    forall|j: int| lo < j < y ==> empty_at(self@, sx as int, j),
                decreases hi - y,
            {
                if self.squares[sx * 8 + y].is_some() {
                    proof {
                        assert(!empty_at(self@, sx as int, y as int));
                    }
                    return false;
                }
                y = y + 1;
            }
        } else {
            let (lo, hi) = if sx < ex {
                (sx, ex)
            } else {
                (ex, sx)
            };
            let mut x = lo + 1;
            while x < hi
                invariant
                    lo < x <= hi || x == lo + 1,
                    forall|j: int| lo < j < x ==> empty_at(self@, j, sy as int),
                decreases hi - x,
            {
                if self.squares[x * 8 + sy].is_some() {
                    proof {
                        assert(!empty_at(self@, x as int, sy as int));
                    }
                    return false;
                }
                x = x + 1;
            }
        }
        self.dest_empty_or_enemy(ex, ey, color)
    }

    /// Decide the bishop rule for a move of `color` from `start` to `end`.
    #[verifier::loop_isolation(false)]
    pub fn is_valid_bishop_move(&self, start: (usize, usize), end: (usize, usize), color: ColorChess) -> (r: bool)
        requires
            self.wf(),
            start.0 < 8 && start.1 < 8,
            end.0 < 8 && end.1 < 8,
            start != end,
        ensures
            r == bishop_ok(self@, start.0 as int, start.1 as int, end.0 as int, end.1 as int, color),
    {
        let (sx, sy) = start;
        let (ex, ey) = end;
        let dx = if sx > ex {
            sx - ex
        } else {
            ex - sx
        };
        let dy = if sy > ey {
            sy - ey
        } else {
            ey - sy
        };
        if dx != dy {
            return false;
        }
        let mut k: usize = 1;
        while k < dx
            invariant
                1 <= k <= dx || k == 1,
                forall|j: int|
                    1 <= j < k ==> empty_at(
                        self@,
                        #[trigger] step_toward(sx as int, ex as int, j),
                        step_toward(sy as int, ey as int, j),
                    ),
            decreases dx - k,
        {
            let x = if ex > sx {
                sx + k
            } else {
                sx - k
            };
            let y = if ey > sy {
                sy + k
            } else {
                sy - k
            };
            if self.squares[x * 8 + y].is_some() {
                proof {
                    assert(step_toward(sx as int, ex as int, k as int) == x as int);
                    assert(step_toward(sy as int, ey as int, k as int) == y as int);
                    assert(!empty_at(self@, x as int, y as int));
                }
                return false;
            }
            k = k + 1;
        }
        self.dest_empty_or_enemy(ex, ey, color)
    }

    /// Decide the queen rule for a move of `color` from `start` to `end`: a
    /// queen may move as a rook or as a bishop.
    pub fn is_valid_queen_move(&self, start: (usize, usize), end: (usize, usize), color: ColorChess) -> (r: bool)
        requires
            self.wf(),
            start.0 < 8 && start.1 < 8,
            end.0 < 8 && end.1 < 8,
            start != end,
        ensures
            r == queen_ok(self@, start.0 as int, start.1 as int, end.0 as int, end.1 as int, color),
    {
        self.is_valid_rook_move(start, end, color) || self.is_valid_bishop_move(start, end, color)
    }

    /// Decide the pseudo-legal move rule without castling. Attack and check
    /// scanning use this form, which never recurses into check detection.
    pub(crate) fn is_valid_move_basic(&self, start: (usize, usize), end: (usize, usize), color: ColorChess) -> (r: bool)
        requires
            self.wf(),
            start.0 < 8 && start.1 < 8,
        ensures
            r == move_ok_basic(self@, start.0 as int, start.1 as int, end.0 as int, end.1 as int, color),
    {
        if (start.0 == end.0 && start.1 == end.1) || end.0 >= 8 || end.1 >= 8 {
            return false;
        }
        if let Some(piece) = self.squares[start.0 * 8 + start.1] {
            if piece.color() != color {
                return false;
            }
            match piece.piece_type() {
                PieceType::Pawn => self.is_valid_pawn_move(start, end, color),
                PieceType::Knight => self.is_valid_knight_move(start, end, color),
                PieceType::Bishop => self.is_valid_bishop_move(start, end, color),
                PieceType::Rook => self.is_valid_rook_move(start, end, color),
                PieceType::Queen => self.is_valid_queen_move(start, end, color),
                PieceType::King => {
                    let dx = if start.0 > end.0 {
                        start.0 - end.0
                    } else {
                        end.0 - start.0
                    };
                    let dy = if start.1 > end.1 {
                        start.1 - end.1
                    } else {
                        end.1 - start.1
                    };
                    dx <= 1 && dy <= 1 && self.dest_empty_or_enemy(end.0, end.1, color)
                },
            }
        } else {
            false
        }
    }
}

} // verus!
