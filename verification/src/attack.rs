//! Attack scanning: whether a square is attacked by a given color, locating a
//! king, and whether a king is in check.
//!
//! These scans decide attacks with the castling-free move predicate: a
//! castling king may only move onto an empty square, so castling can never
//! capture and contributes nothing to check or to the attack tests the
//! castling rule itself performs. That this loses nothing is proved in
//! [`crate::laws::lemma_check_agrees_with_full_move_rule`].

use vstd::prelude::*;

use crate::board::Board;
use crate::board::BoardModel;
use crate::board::board_wf;
use crate::board::is_king_at;
use crate::board::lemma_count_update;
use crate::piece::ColorChess;
use crate::piece::PieceType;
use crate::piece::opposite;
use crate::rules::move_ok_basic;

verus! {

/// Some piece of color `a` has a pseudo-legal (castling-free) move onto
/// square `(tx, ty)`.
pub open spec fn attacks_square(m: BoardModel, tx: int, ty: int, a: ColorChess) -> bool {
    exists|x: int, y: int| move_ok_basic(m, x, y, tx, ty, a)
}

/// The board with square `(x, y)` emptied; everything else unchanged.
pub open spec fn remove_at(m: BoardModel, x: int, y: int) -> BoardModel {
    BoardModel { squares: m.squares.update(x * 8 + y, None), ..m }
}

/// Square `(tx, ty)` is attacked by color `a`: with the occupant of the
/// square set aside, some piece of `a` could move onto it.
pub open spec fn square_attacked_spec(m: BoardModel, tx: int, ty: int, a: ColorChess) -> bool {
    attacks_square(remove_at(m, tx, ty), tx, ty, a)
}

/// There is a king of color `c` somewhere on the board.
pub open spec fn has_king_spec(m: BoardModel, c: ColorChess) -> bool {
    exists|x: int, y: int| is_king_at(m, x, y, c)
}

/// Color `c` is in check: its king stands on a square attacked by the other
/// side. A side whose king is absent is not in check.
pub open spec fn in_check_spec(m: BoardModel, c: ColorChess) -> bool {
    exists|kx: int, ky: int|
        #![auto]
        is_king_at(m, kx, ky, c) && attacks_square(m, kx, ky, opposite(c))
}

/// Emptying one square preserves well-formedness: it cannot add a king and
/// only lowers the piece count.
pub proof fn lemma_wf_remove(m: BoardModel, x: int, y: int)
    requires
        board_wf(m),
        0 <= x < 8,
        0 <= y < 8,
    ensures
        board_wf(remove_at(m, x, y)),
{
    let m2 = remove_at(m, x, y);
    assert forall|x1: int, y1: int, x2: int, y2: int, c: ColorChess|
        #[trigger] is_king_at(m2, x1, y1, c) && #[trigger] is_king_at(m2, x2, y2, c) implies x1
        == x2 && y1 == y2 by {
        assert(is_king_at(m, x1, y1, c));
        assert(is_king_at(m, x2, y2, c));
    }
    lemma_count_update(m.squares, x * 8 + y, None);
}

impl Board {
    /// The square of `color`'s king, or `None` when that king has been
    /// captured.
    #[verifier::loop_isolation(false)]
    pub fn find_king(&self, color: ColorChess) -> (r: Option<(usize, usize)>)
        requires
            self.wf(),
        ensures
            r matches Some(k) ==> is_king_at(self@, k.0 as int, k.1 as int, color),
            r is None ==> !has_king_spec(self@, color),
    {
        let mut x: usize = 0;
        while x < 8
            invariant
                x <= 8,
                forall|a: int, b: int|
                    0 <= a < x && 0 <= b < 8 ==> !is_king_at(self@, a, b, color),
            decreases 8 - x,
        {
            let mut y: usize = 0;
            while y < 8
                invariant
                    y <= 8,
                    forall|b: int| 0 <= b < y ==> !is_king_at(self@, x as int, b, color),
                decreases 8 - y,
            {
                if let Some(piece) = self.squares[x * 8 + y] {
                    if piece.is_type(PieceType::King) && piece.is_color(color) {
                        return Some((x, y));
                    }
                }
                y = y + 1;
            }
            x = x + 1;
        }
        None
    }

    /// Whether `color` still has its king on the board. A missing king means
    /// that side has already lost by capture.
    pub fn has_king(&self, color: ColorChess) -> (r: bool)
        requires
            self.wf(),
        ensures
            r == has_king_spec(self@, color),
    {
        self.find_king(color).is_some()
    }

    /// Whether `target_square` is attacked by `attacker_color`: the occupant
    /// of the target square (if any) is set aside on a scratch copy of the
    /// board, and every piece of the attacking color is tested for a
    /// pseudo-legal move onto the target.
    #[verifier::loop_isolation(false)]
    pub fn is_square_attacked(&self, target_square: (usize, usize), attacker_color: ColorChess) -> (r: bool)
        requires
            self.wf(),
            target_square.0 < 8 && target_square.1 < 8,
        ensures
            r == square_attacked_spec(
                self@,
                target_square.0 as int,
                target_square.1 as int,
                attacker_color,
            ),
    {
        let (tx, ty) = target_square;
        let mut temp = self.duplicate();
        temp.squares.set(tx * 8 + ty, None);
        proof {
            assert(temp@ =~= remove_at(self@, tx as int, ty as int));
            lemma_wf_remove(self@, tx as int, ty as int);
        }
        let mut x: usize = 0;
        while x < 8
            invariant
                x <= 8,
                temp@ == remove_at(self@, tx as int, ty as int),
                temp.wf(),
                forall|a: int, b: int|
                    0 <= a < x && 0 <= b < 8 ==> !move_ok_basic(
                        temp@,
                        a,
                        b,
                        tx as int,
                        ty as int,
                        attacker_color,
                    ),
            decreases 8 - x,
        {
            let mut y: usize = 0;
            while y < 8
                invariant
                    y <= 8,
                    forall|b: int|
                        0 <= b < y ==> !move_ok_basic(
                            temp@,
                            x as int,
                            b,
                            tx as int,
                            ty as int,
                            attacker_color,
                        ),
                decreases 8 - y,
            {
                if temp.is_valid_move_basic((x, y), (tx, ty), attacker_color) {
                    return true;
                }
                y = y + 1;
            }
            x = x + 1;
        }
        proof {
            assert forall|a: int, b: int| !move_ok_basic(
                temp@,
                a,
                b,
                tx as int,
                ty as int,
                attacker_color,
            ) by {
                if move_ok_basic(temp@, a, b, tx as int, ty as int, attacker_color) {
                    assert(crate::rules::on_board(a, b));
                }
            }
        }
        false
    }

    /// Whether `color` is in check: locate its king and test every opposing
    /// piece for a pseudo-legal move onto the king's square. A side with no
    /// king is not in check.
    #[verifier::loop_isolation(false)]
    pub fn is_in_check(&self, color: ColorChess) -> (r: bool)
        requires
            self.wf(),
        ensures
            r == in_check_spec(self@, color),
    {
        let king_position = match self.find_king(color) {
            Some(pos) => pos,
            None => {
                return false;
            },
        };
        let (kx, ky) = king_position;
        let opponent_color = match color {
            ColorChess::White => ColorChess::Black,
            ColorChess::Black => ColorChess::White,
        };
        let mut x: usize = 0;
        while x < 8
            invariant
                x <= 8,
                forall|a: int, b: int|
                    0 <= a < x && 0 <= b < 8 ==> !move_ok_basic(
                        self@,
                        a,
                        b,
                        kx as int,
                        ky as int,
                        opponent_color,
                    ),
            decreases 8 - x,
        {
            let mut y: usize = 0;
            while y < 8
                invariant
                    y <= 8,
                    forall|b: int|
                        0 <= b < y ==> !move_ok_basic(
                            self@,
                            x as int,
                            b,
                            kx as int,
                            ky as int,
                            opponent_color,
                        ),
                decreases 8 - y,
            {
                if self.is_valid_move_basic((x, y), (kx, ky), opponent_color) {
                    return true;
                }
                y = y + 1;
            }
            x = x + 1;
        }
        proof {
            if in_check_spec(self@, color) {
                let (qx, qy) = choose|qx: int, qy: int|
                    #![auto]
                    is_king_at(self@, qx, qy, color) && attacks_square(
                        self@,
                        qx,
                        qy,
                        opposite(color),
                    );
                assert(is_king_at(self@, kx as int, ky as int, color));
                assert(qx == kx as int && qy == ky as int);
                let (ax, ay) = choose|ax: int, ay: int|
                    move_ok_basic(self@, ax, ay, qx, qy, opposite(color));
                assert(crate::rules::on_board(ax, ay));
                assert(!move_ok_basic(self@, ax, ay, kx as int, ky as int, opponent_color));
            }
        }
        false
    }
}

} // verus!
