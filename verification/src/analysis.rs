//! Legal-move enumeration and terminal-state classification: the pseudo-legal
//! move list, the true legal move list (pseudo-legal moves that do not leave
//! the mover's own king in check, decided by applying each candidate to a
//! disposable copy of the board), and checkmate, stalemate and game-over
//! queries.

use vstd::prelude::*;

use crate::attack::has_king_spec;
use crate::attack::in_check_spec;
use crate::board::Board;
use crate::board::BoardModel;
use crate::execute::lemma_valid_implies_ep_safe;
use crate::execute::trial_move_spec;
use crate::moves::valid_move_spec;
use crate::piece::ColorChess;

verus! {

broadcast use {
    vstd::seq_lib::lemma_seq_contains_after_push,
    vstd::seq_lib::lemma_seq_empty_contains_nothing,
};

/// A move, as the presentation layer sees it: start and end coordinates.
pub type MoveCoords = ((usize, usize), (usize, usize));

/// `mv` obeys the movement pattern of the piece on its start square.
pub open spec fn valid_move_at(m: BoardModel, mv: MoveCoords, c: ColorChess) -> bool {
    valid_move_spec(m, mv.0.0 as int, mv.0.1 as int, mv.1.0 as int, mv.1.1 as int, c)
}

/// `mv` is a legal move for `c`: it obeys the mover's movement pattern, and
/// applying it on a trial board does not leave `c`'s own king in check.
pub open spec fn legal_move_spec(m: BoardModel, mv: MoveCoords, c: ColorChess) -> bool {
    &&& valid_move_at(m, mv, c)
    &&& !in_check_spec(trial_move_spec(m, mv.0, mv.1), c)
}

/// Color `c` has at least one legal move.
pub open spec fn has_legal_move(m: BoardModel, c: ColorChess) -> bool {
    exists|mv: MoveCoords| legal_move_spec(m, mv, c)
}

/// Checkmate for `c`: its king is already captured, or it is in check with no
/// legal move left.
pub open spec fn checkmate_spec(m: BoardModel, c: ColorChess) -> bool {
    !has_king_spec(m, c) || (in_check_spec(m, c) && !has_legal_move(m, c))
}

/// Stalemate for `c`: not in check, but no legal move left.
pub open spec fn stalemate_spec(m: BoardModel, c: ColorChess) -> bool {
    !in_check_spec(m, c) && !has_legal_move(m, c)
}

/// The game is over for `c`: checkmate or stalemate.
pub open spec fn game_over_spec(m: BoardModel, c: ColorChess) -> bool {
    checkmate_spec(m, c) || stalemate_spec(m, c)
}

/// The scan position of a move: moves are enumerated start square by start
/// square (row-major), and for one start square end square by end square.
pub open spec fn mv_code(mv: MoveCoords) -> int {
    mv.0.0 * 512 + mv.0.1 * 64 + mv.1.0 * 8 + mv.1.1
}

/// On the board, a move's scan position determines its coordinates.
proof fn lemma_mv_code_injective(a: MoveCoords, b: MoveCoords)
    requires
        a.0.0 < 8 && a.0.1 < 8 && a.1.0 < 8 && a.1.1 < 8,
        b.0.0 < 8 && b.0.1 < 8 && b.1.0 < 8 && b.1.1 < 8,
        mv_code(a) == mv_code(b),
    ensures
        a == b,
{
}

impl Board {
    /// Every pseudo-legal move for `color`, in scan order: each pair of
    /// on-board squares whose move obeys the mover's movement pattern, with
    /// no check-safety filtering.
    #[verifier::loop_isolation(false)]
    pub fn get_all_moves(&self, color: ColorChess) -> (r: Vec<MoveCoords>)
        requires
            self.wf(),
        ensures
            forall|mv: MoveCoords| #[trigger] r@.contains(mv) <==> valid_move_at(self@, mv, color),
            forall|i: int, j: int|
                #![trigger r@[i], r@[j]]
                0 <= i < j < r@.len() ==> mv_code(r@[i]) < mv_code(r@[j]),
    {
        let mut moves: Vec<MoveCoords> = Vec::new();
        let mut sx: usize = 0;
        let mut sy: usize = 0;
        let mut ex: usize = 0;
        let mut ey: usize = 0;
        let mut code: usize = 0;
        while code < 4096
            invariant
                code == sx * 512 + sy * 64 + ex * 8 + ey,
                sy < 8 && ex < 8 && ey < 8 && sx <= 8,
                forall|mv: MoveCoords|
                    #[trigger] moves@.contains(mv) <==> (valid_move_at(self@, mv, color) && mv_code(
                        mv,
                    ) < code),
                forall|i: int| 0 <= i < moves@.len() ==> mv_code(moves@[i]) < code,
                forall|i: int, j: int|
                    #![trigger moves@[i], moves@[j]]
                    0 <= i < j < moves@.len() ==> mv_code(moves@[i]) < mv_code(moves@[j]),
            decreases 4096 - code,
        {
            let mv = ((sx, sy), (ex, ey));
            if self.is_valid_move((sx, sy), (ex, ey), color) {
                moves.push(mv);
            }
            proof {
                assert forall|mv2: MoveCoords|
                    #[trigger] moves@.contains(mv2) <==> (valid_move_at(self@, mv2, color)
                        && mv_code(mv2) < code + 1) by {
                    if valid_move_at(self@, mv2, color) && mv_code(mv2) == code {
                        lemma_mv_code_injective(mv2, mv);
                    }
                }
            }
            ey = ey + 1;
            if ey == 8 {
                ey = 0;
                ex = ex + 1;
                if ex == 8 {
                    ex = 0;
                    sy = sy + 1;
                    if sy == 8 {
                        sy = 0;
                        sx = sx + 1;
                    }
                }
            }
            code = code + 1;
        }
        moves
    }

    /// Every legal move for `color`, in scan order: the pseudo-legal moves
    /// that, applied to a disposable copy of the board (with castling rook
    /// relocation and en-passant removal, but no promotion), do not leave
    /// `color`'s own king in check. This trial-on-copy filtering is the only
    /// mechanism that prevents a player from exposing their own king.
    #[verifier::loop_isolation(false)]
    pub fn get_all_legal_moves(&self, color: ColorChess) -> (r: Vec<MoveCoords>)
        requires
            self.wf(),
        ensures
            forall|mv: MoveCoords| #[trigger] r@.contains(mv) <==> legal_move_spec(self@, mv, color),
            forall|i: int, j: int|
                #![trigger r@[i], r@[j]]
                0 <= i < j < r@.len() ==> mv_code(r@[i]) < mv_code(r@[j]),
    {
        let mut legal_moves: Vec<MoveCoords> = Vec::new();
        let mut sx: usize = 0;
        let mut sy: usize = 0;
        let mut ex: usize = 0;
        let mut ey: usize = 0;
        let mut code: usize = 0;
        while code < 4096
            invariant
                code == sx * 512 + sy * 64 + ex * 8 + ey,
                sy < 8 && ex < 8 && ey < 8 && sx <= 8,
                forall|mv: MoveCoords|
                    #[trigger] legal_moves@.contains(mv) <==> (legal_move_spec(self@, mv, color)
                        && mv_code(mv) < code),
                forall|i: int| 0 <= i < legal_moves@.len() ==> mv_code(legal_moves@[i]) < code,
                forall|i: int, j: int|
                    #![trigger legal_moves@[i], legal_moves@[j]]
                    0 <= i < j < legal_moves@.len() ==> mv_code(legal_moves@[i]) < mv_code(
                        legal_moves@[j],
                    ),
            decreases 4096 - code,
        {
            let mv = ((sx, sy), (ex, ey));
            if self.is_valid_move((sx, sy), (ex, ey), color) {
                let mut temp_board = self.duplicate();
                proof {
                    lemma_valid_implies_ep_safe(self@, (sx, sy), (ex, ey), color);
                }
                temp_board.make_move_for_test((sx, sy), (ex, ey));
                if !temp_board.is_in_check(color) {
                    legal_moves.push(mv);
                }
            }
            proof {
                assert forall|mv2: MoveCoords|
                    #[trigger] legal_moves@.contains(mv2) <==> (legal_move_spec(self@, mv2, color)
                        && mv_code(mv2) < code + 1) by {
                    if legal_move_spec(self@, mv2, color) && mv_code(mv2) == code {
                        lemma_mv_code_injective(mv2, mv);
                    }
                }
            }
            ey = ey + 1;
            if ey == 8 {
                ey = 0;
                ex = ex + 1;
                if ex == 8 {
                    ex = 0;
                    sy = sy + 1;
                    if sy == 8 {
                        sy = 0;
                        sx = sx + 1;
                    }
                }
            }
            code = code + 1;
        }
        legal_moves
    }

    /// Whether `color` is checkmated: its king has been captured outright, or
    /// it is in check and has no legal move.
    pub fn is_checkmate(&self, color: ColorChess) -> (r: bool)
        requires
            self.wf(),
        ensures
            r == checkmate_spec(self@, color),
    {
        if self.find_king(color).is_none() {
            return true;
        }
        if !self.is_in_check(color) {
            return false;
        }
        let moves = self.get_all_legal_moves(color);
        proof {
            lemma_emptiness(moves@, self@, color);
        }
        moves.is_empty()
    }

    /// Whether `color` is stalemated: not in check, but with no legal move.
    pub fn is_stalemate(&self, color: ColorChess) -> (r: bool)
        requires
            self.wf(),
        ensures
            r == stalemate_spec(self@, color),
    {
        if self.is_in_check(color) {
            return false;
        }
        let moves = self.get_all_legal_moves(color);
        proof {
            lemma_emptiness(moves@, self@, color);
        }
        moves.is_empty()
    }

    /// Whether the game is over for `color`: checkmate or stalemate.
    pub fn is_game_over(&self, color: ColorChess) -> (r: bool)
        requires
            self.wf(),
        ensures
            r == game_over_spec(self@, color),
    {
        if self.is_checkmate(color) {
            return true;
        }
        if self.is_stalemate(color) {
            return true;
        }
        false
    }
}

/// A legal-move list that contains exactly the legal moves is empty exactly
/// when no legal move exists.
proof fn lemma_emptiness(r: Seq<MoveCoords>, m: BoardModel, c: ColorChess)
    requires
        forall|mv: MoveCoords| #[trigger] r.contains(mv) <==> legal_move_spec(m, mv, c),
    ensures
        (r.len() == 0) <==> !has_legal_move(m, c),
{
    if r.len() == 0 {
        if has_legal_move(m, c) {
            let mv = choose|mv: MoveCoords| legal_move_spec(m, mv, c);
            assert(r.contains(mv));
        }
    } else {
        assert(r.contains(r[0]));
    }
}

} // verus!
