//! Move application: the trial move used for check-safety filtering, and the
//! real move executor with capture bookkeeping, castling rook relocation,
//! en-passant maintenance and pawn promotion.

use vstd::prelude::*;

use crate::board::Board;
use crate::board::BoardModel;
use crate::board::board_wf;
use crate::board::is_king_at;
use crate::board::lemma_count_update;
use crate::board::lemma_sum_bounds;
use crate::board::lemma_sum_push;
use crate::board::lemma_wf_same_material;
use crate::piece::ColorChess;
use crate::piece::Piece;
use crate::piece::PieceType;
use crate::piece::points_spec;
use crate::rules::dist;
use crate::rules::sq;

verus! {

/// The board after lifting the piece on `(fx, fy)` (if any) and putting it
/// down on `(tx, ty)`, whose previous occupant (if any) disappears.
pub open spec fn transfer(m: BoardModel, fx: int, fy: int, tx: int, ty: int) -> BoardModel {
    BoardModel {
        squares: m.squares.update(fx * 8 + fy, None).update(tx * 8 + ty, m.squares[fx * 8 + fy]),
        ..m
    }
}

/// A transfer cannot add a king or a piece, so it preserves well-formedness.
pub proof fn lemma_wf_transfer(m: BoardModel, fx: int, fy: int, tx: int, ty: int)
    requires
        board_wf(m),
        0 <= fx < 8 && 0 <= fy < 8,
        0 <= tx < 8 && 0 <= ty < 8,
    ensures
        board_wf(transfer(m, fx, fy, tx, ty)),
{
    let m2 = transfer(m, fx, fy, tx, ty);
    let fi = fx * 8 + fy;
    let ti = tx * 8 + ty;
    assert forall|x1: int, y1: int, x2: int, y2: int, c: ColorChess|
        #[trigger] is_king_at(m2, x1, y1, c) && #[trigger] is_king_at(m2, x2, y2, c) implies x1
        == x2 && y1 == y2 by {
        // Map each king square of the new board to a king square of the old
        // one: the landing square holds what the source square held.
        if x1 * 8 + y1 == ti {
            assert(is_king_at(m, fx, fy, c));
        } else {
            assert(is_king_at(m, x1, y1, c));
        }
        if x2 * 8 + y2 == ti {
            assert(is_king_at(m, fx, fy, c));
        } else {
            assert(is_king_at(m, x2, y2, c));
        }
        if x1 * 8 + y1 == ti && x2 * 8 + y2 != ti {
            // The old board has this king both on (fx, fy) and on (x2, y2),
            // so they are the same square; but the source square of the new
            // board is empty unless the piece landed back on it.
            assert(x2 == fx && y2 == fy);
            assert(m2.squares[x2 * 8 + y2] is None);
        }
        if x2 * 8 + y2 == ti && x1 * 8 + y1 != ti {
            assert(x1 == fx && y1 == fy);
            assert(m2.squares[x1 * 8 + y1] is None);
        }
    }
    lemma_count_update(m.squares, fi, None);
    lemma_count_update(m.squares.update(fi, None), ti, m.squares[fi]);
}

/// Emptying a square preserves well-formedness.
pub proof fn lemma_wf_clear(m: BoardModel, x: int, y: int)
    requires
        board_wf(m),
        0 <= x < 8 && 0 <= y < 8,
    ensures
        board_wf(BoardModel { squares: m.squares.update(x * 8 + y, None), ..m }),
{
    crate::attack::lemma_wf_remove(m, x, y);
    assert(BoardModel { squares: m.squares.update(x * 8 + y, None), ..m } =~= crate::attack::remove_at(
        m,
        x,
        y,
    ));
}

/// Record a capture: append `cap` to the capture list of `capturer` and
/// credit `cap`'s point value to `capturer`'s total.
pub open spec fn credit_capture(m: BoardModel, capturer: ColorChess, cap: Piece) -> BoardModel {
    if capturer == ColorChess::White {
        BoardModel {
            captured_by_white: m.captured_by_white.push(cap),
            white_points: m.white_points + points_spec(cap),
            ..m
        }
    } else {
        BoardModel {
            captured_by_black: m.captured_by_black.push(cap),
            black_points: m.black_points + points_spec(cap),
            ..m
        }
    }
}

/// Removing a piece from the board and recording it as captured preserves
/// well-formedness: the piece moves from a square to a capture list, and the
/// point credit matches its value.
pub proof fn lemma_wf_capture(m: BoardModel, x: int, y: int, capturer: ColorChess)
    requires
        board_wf(m),
        0 <= x < 8 && 0 <= y < 8,
        sq(m, x, y) is Some,
    ensures
        board_wf(
            credit_capture(
                BoardModel { squares: m.squares.update(x * 8 + y, None), ..m },
                capturer,
                sq(m, x, y)->Some_0,
            ),
        ),
{
    let removed = BoardModel { squares: m.squares.update(x * 8 + y, None), ..m };
    lemma_wf_clear(m, x, y);
    let cap = sq(m, x, y)->Some_0;
    let m2 = credit_capture(removed, capturer, cap);
    assert forall|x1: int, y1: int, x2: int, y2: int, c: ColorChess|
        #[trigger] is_king_at(m2, x1, y1, c) && #[trigger] is_king_at(m2, x2, y2, c) implies x1
        == x2 && y1 == y2 by {
        assert(is_king_at(removed, x1, y1, c));
        assert(is_king_at(removed, x2, y2, c));
    }
    lemma_count_update(m.squares, x * 8 + y, None);
    if capturer == ColorChess::White {
        lemma_sum_push(m.captured_by_white, cap);
    } else {
        lemma_sum_push(m.captured_by_black, cap);
    }
}

/// The en-passant removal a trial move simulates: a pawn stepping diagonally
/// onto an empty square removes the opposing pawn standing beside (not on)
/// the destination.
pub open spec fn trial_ep_removal(m: BoardModel, s: (usize, usize), e: (usize, usize)) -> BoardModel {
    match sq(m, s.0 as int, s.1 as int) {
        Some(p) => {
            if p.piece_type == PieceType::Pawn && dist(s.1 as int, e.1 as int) == 1 && sq(
                m,
                e.0 as int,
                e.1 as int,
            ) is None {
                let cx: int = if p.color == ColorChess::White {
                    e.0 + 1
                } else {
                    e.0 - 1
                };
                if 0 <= cx < 8 {
                    BoardModel { squares: m.squares.update(cx * 8 + e.1 as int, None), ..m }
                } else {
                    m
                }
            } else {
                m
            }
        },
        None => m,
    }
}

/// The rook relocation a trial move simulates for a castling king (a king
/// moving two files).
pub open spec fn trial_castle_rook(
    m: BoardModel,
    moved: Option<Piece>,
    s: (usize, usize),
    e: (usize, usize),
) -> BoardModel {
    if moved matches Some(q) && q.piece_type == PieceType::King && dist(s.1 as int, e.1 as int) == 2 {
        if e.1 == 6 {
            transfer(m, s.0 as int, 7, s.0 as int, 5)
        } else if e.1 == 2 {
            transfer(m, s.0 as int, 0, s.0 as int, 3)
        } else {
            m
        }
    } else {
        m
    }
}

/// The board a trial application of `start -> end` produces: the en-passant
/// removal if the move is a pawn's diagonal step onto an empty square, then
/// the bare piece move, then the rook relocation if the move is a castling
/// king's. No captures are recorded, no flags change and no promotion
/// happens: none of those can affect whether the mover's king ends up in
/// check.
pub open spec fn trial_move_spec(m: BoardModel, s: (usize, usize), e: (usize, usize)) -> BoardModel {
    let m1 = trial_ep_removal(m, s, e);
    let moved = sq(m1, s.0 as int, s.1 as int);
    let m2 = transfer(m1, s.0 as int, s.1 as int, e.0 as int, e.1 as int);
    trial_castle_rook(m2, moved, s, e)
}

/// The row arithmetic of an en-passant removal stays on the board.
pub open spec fn ep_capture_safe(m: BoardModel, s: (usize, usize), e: (usize, usize)) -> bool {
    (sq(m, s.0 as int, s.1 as int) matches Some(p) && p.piece_type == PieceType::Pawn && dist(
        s.1 as int,
        e.1 as int,
    ) == 1 && sq(m, e.0 as int, e.1 as int) is None) ==> (if (sq(
        m,
        s.0 as int,
        s.1 as int,
    )->Some_0).color == ColorChess::White {
        e.0 < 7
    } else {
        e.0 >= 1
    })
}

/// A movement-pattern-legal move has a safe en-passant removal: a pawn's
/// diagonal step onto an empty square can only be an en-passant capture,
/// whose destination rows keep the removed pawn's square on the board.
pub proof fn lemma_valid_implies_ep_safe(
    m: BoardModel,
    s: (usize, usize),
    e: (usize, usize),
    c: ColorChess,
)
    requires
        crate::moves::valid_move_spec(m, s.0 as int, s.1 as int, e.0 as int, e.1 as int, c),
    ensures
        ep_capture_safe(m, s, e),
{
}

/// A trial move preserves well-formedness: each of its steps only removes or
/// relocates pieces.
pub proof fn lemma_trial_wf(m: BoardModel, s: (usize, usize), e: (usize, usize))
    requires
        board_wf(m),
        s.0 < 8 && s.1 < 8,
        e.0 < 8 && e.1 < 8,
    ensures
        board_wf(trial_move_spec(m, s, e)),
{
    let m1 = trial_ep_removal(m, s, e);
    if m1 != m {
        let p = sq(m, s.0 as int, s.1 as int)->Some_0;
        let cx = if p.color == ColorChess::White {
            e.0 + 1
        } else {
            e.0 - 1
        };
        lemma_wf_clear(m, cx, e.1 as int);
        assert(m1 =~= BoardModel { squares: m.squares.update(cx * 8 + e.1 as int, None), ..m });
    }
    let m2 = transfer(m1, s.0 as int, s.1 as int, e.0 as int, e.1 as int);
    lemma_wf_transfer(m1, s.0 as int, s.1 as int, e.0 as int, e.1 as int);
    let moved = sq(m1, s.0 as int, s.1 as int);
    let m3 = trial_castle_rook(m2, moved, s, e);
    if m3 != m2 {
        if e.1 == 6 {
            lemma_wf_transfer(m2, s.0 as int, 7, s.0 as int, 5);
        } else {
            lemma_wf_transfer(m2, s.0 as int, 0, s.0 as int, 3);
        }
    }
}

/// The flag maintenance of a real move, given the moving piece `p`: a moving
/// king consumes its side's castling rights (and, when it castles, the
/// selected rook's); a rook leaving one of the four original rook squares
/// consumes that rook's; a pawn double-stepping from its home rank sets the
/// en-passant target to the skipped-over square. The grid itself is
/// untouched.
pub open spec fn updated_flags(m: BoardModel, p: Piece, s: (usize, usize), e: (usize, usize)) -> BoardModel {
    if p.piece_type == PieceType::King {
        let mk = if p.color == ColorChess::White {
            BoardModel { white_king_moved: true, ..m }
        } else {
            BoardModel { black_king_moved: true, ..m }
        };
        if dist(s.1 as int, e.1 as int) == 2 {
            if e.1 == 6 {
                if p.color == ColorChess::White {
                    BoardModel { white_rook_king_side_moved: true, ..mk }
                } else {
                    BoardModel { black_rook_king_side_moved: true, ..mk }
                }
            } else if e.1 == 2 {
                if p.color == ColorChess::White {
                    BoardModel { white_rook_queen_side_moved: true, ..mk }
                } else {
                    BoardModel { black_rook_queen_side_moved: true, ..mk }
                }
            } else {
                mk
            }
        } else {
            mk
        }
    } else if p.piece_type == PieceType::Rook {
        if p.color == ColorChess::White {
            if s.0 == 7 && s.1 == 0 {
                BoardModel { white_rook_queen_side_moved: true, ..m }
            } else if s.0 == 7 && s.1 == 7 {
                BoardModel { white_rook_king_side_moved: true, ..m }
            } else {
                m
            }
        } else {
            if s.0 == 0 && s.1 == 0 {
                BoardModel { black_rook_queen_side_moved: true, ..m }
            } else if s.0 == 0 && s.1 == 7 {
                BoardModel { black_rook_king_side_moved: true, ..m }
            } else {
                m
            }
        }
    } else if p.piece_type == PieceType::Pawn {
        if p.color == ColorChess::White && s.0 == 6 && e.0 == 4 {
            BoardModel { en_passant_target: Some((5, s.1)), ..m }
        } else if p.color == ColorChess::Black && s.0 == 1 && e.0 == 3 {
            BoardModel { en_passant_target: Some((2, s.1)), ..m }
        } else {
            m
        }
    } else {
        m
    }
}

/// The flag maintenance together with the castling rook relocation: a king
/// moving two files drags the selected rook to the square it jumps over
/// (file 5 king-side, file 3 queen-side).
pub open spec fn apply_flags_and_castle(m: BoardModel, p: Piece, s: (usize, usize), e: (usize, usize)) -> BoardModel {
    let mf = updated_flags(m, p, s, e);
    if p.piece_type == PieceType::King && dist(s.1 as int, e.1 as int) == 2 {
        if e.1 == 6 {
            transfer(mf, s.0 as int, 7, s.0 as int, 5)
        } else if e.1 == 2 {
            transfer(mf, s.0 as int, 0, s.0 as int, 3)
        } else {
            mf
        }
    } else {
        mf
    }
}

/// The en-passant capture of a real move: a pawn stepping diagonally onto an
/// empty square removes the opposing pawn standing beside the destination and
/// records the capture for the mover.
pub open spec fn apply_ep_capture(m: BoardModel, s: (usize, usize), e: (usize, usize)) -> BoardModel {
    match sq(m, s.0 as int, s.1 as int) {
        Some(p) => {
            if p.piece_type == PieceType::Pawn && dist(s.1 as int, e.1 as int) == 1 && sq(
                m,
                e.0 as int,
                e.1 as int,
            ) is None {
                let cx: int = if p.color == ColorChess::White {
                    e.0 + 1
                } else {
                    e.0 - 1
                };
                if 0 <= cx < 8 {
                    match sq(m, cx, e.1 as int) {
                        Some(cap) => credit_capture(
                            BoardModel { squares: m.squares.update(cx * 8 + e.1 as int, None), ..m },
                            p.color,
                            cap,
                        ),
                        None => m,
                    }
                } else {
                    m
                }
            } else {
                m
            }
        },
        None => m,
    }
}

/// The ordinary capture of a real move: an occupied destination square is
/// emptied and the capture recorded for the mover.
pub open spec fn apply_regular_capture(m: BoardModel, mover: ColorChess, e: (usize, usize)) -> BoardModel {
    match sq(m, e.0 as int, e.1 as int) {
        Some(cap) => credit_capture(
            BoardModel { squares: m.squares.update(e.0 as int * 8 + e.1 as int, None), ..m },
            mover,
            cap,
        ),
        None => m,
    }
}

/// The bare piece move from `s` to `e`.
pub open spec fn apply_move(m: BoardModel, s: (usize, usize), e: (usize, usize)) -> BoardModel {
    match sq(m, s.0 as int, s.1 as int) {
        Some(q) => transfer(m, s.0 as int, s.1 as int, e.0 as int, e.1 as int),
        None => m,
    }
}

/// The auto-promotion of a real move: a pawn that has reached the farthest
/// rank for its color (row 0 for White, row 7 for Black) is replaced by a new
/// queen of the same color.
pub open spec fn apply_promotion(m: BoardModel, e: (usize, usize)) -> BoardModel {
    match sq(m, e.0 as int, e.1 as int) {
        Some(q) => {
            if q.piece_type == PieceType::Pawn && ((q.color == ColorChess::White && e.0 == 0) || (
            q.color == ColorChess::Black && e.0 == 7)) {
                BoardModel {
                    squares: m.squares.update(
                        e.0 as int * 8 + e.1 as int,
                        Some(Piece { piece_type: PieceType::Queen, color: q.color }),
                    ),
                    ..m
                }
            } else {
                m
            }
        },
        None => m,
    }
}

/// The board a real application of `start -> end` produces, in order: the
/// stale en-passant target is cleared; flags are maintained and a castling
/// rook relocated; an en-passant capture removes and records the bypassed
/// pawn; an ordinary capture removes and records the destination's occupant;
/// the piece moves; and a pawn on its farthest rank becomes a queen.
pub open spec fn move_result_spec(m: BoardModel, s: (usize, usize), e: (usize, usize)) -> BoardModel {
    let m0 = BoardModel { en_passant_target: None, ..m };
    match sq(m, s.0 as int, s.1 as int) {
        None => m0,
        Some(p) => {
            let m1 = apply_flags_and_castle(m0, p, s, e);
            let m2 = apply_ep_capture(m1, s, e);
            let m3 = apply_regular_capture(m2, p.color, e);
            let m4 = apply_move(m3, s, e);
            apply_promotion(m4, e)
        },
    }
}

/// Flag maintenance and rook relocation preserve well-formedness.
pub proof fn lemma_wf_flags_castle(m: BoardModel, p: Piece, s: (usize, usize), e: (usize, usize))
    requires
        board_wf(m),
        s.0 < 8 && s.1 < 8,
        e.0 < 8 && e.1 < 8,
    ensures
        board_wf(apply_flags_and_castle(m, p, s, e)),
{
    let mf = updated_flags(m, p, s, e);
    lemma_wf_same_material(m, mf);
    if p.piece_type == PieceType::King && dist(s.1 as int, e.1 as int) == 2 {
        if e.1 == 6 {
            lemma_wf_transfer(mf, s.0 as int, 7, s.0 as int, 5);
        } else if e.1 == 2 {
            lemma_wf_transfer(mf, s.0 as int, 0, s.0 as int, 3);
        }
    }
}

/// The en-passant capture step preserves well-formedness.
pub proof fn lemma_wf_ep_capture(m: BoardModel, s: (usize, usize), e: (usize, usize))
    requires
        board_wf(m),
        s.0 < 8 && s.1 < 8,
        e.0 < 8 && e.1 < 8,
    ensures
        board_wf(apply_ep_capture(m, s, e)),
{
    match sq(m, s.0 as int, s.1 as int) {
        Some(p) => {
            if p.piece_type == PieceType::Pawn && dist(s.1 as int, e.1 as int) == 1 && sq(
                m,
                e.0 as int,
                e.1 as int,
            ) is None {
                let cx: int = if p.color == ColorChess::White {
                    e.0 + 1
                } else {
                    e.0 - 1
                };
                if 0 <= cx < 8 && sq(m, cx, e.1 as int) is Some {
                    lemma_wf_capture(m, cx, e.1 as int, p.color);
                }
            }
        },
        None => {},
    }
}

/// The ordinary capture step preserves well-formedness.
pub proof fn lemma_wf_regular_capture(m: BoardModel, mover: ColorChess, e: (usize, usize))
    requires
        board_wf(m),
        e.0 < 8 && e.1 < 8,
    ensures
        board_wf(apply_regular_capture(m, mover, e)),
{
    if sq(m, e.0 as int, e.1 as int) is Some {
        lemma_wf_capture(m, e.0 as int, e.1 as int, mover);
    }
}

/// The bare move step preserves well-formedness.
pub proof fn lemma_wf_move(m: BoardModel, s: (usize, usize), e: (usize, usize))
    requires
        board_wf(m),
        s.0 < 8 && s.1 < 8,
        e.0 < 8 && e.1 < 8,
    ensures
        board_wf(apply_move(m, s, e)),
{
    if sq(m, s.0 as int, s.1 as int) is Some {
        lemma_wf_transfer(m, s.0 as int, s.1 as int, e.0 as int, e.1 as int);
    }
}

/// The promotion step preserves well-formedness: it replaces a pawn with a
/// queen, so it can neither add a king nor change the piece count.
pub proof fn lemma_wf_promotion(m: BoardModel, e: (usize, usize))
    requires
        board_wf(m),
        e.0 < 8 && e.1 < 8,
    ensures
        board_wf(apply_promotion(m, e)),
{
    let m2 = apply_promotion(m, e);
    if m2 != m {
        let ei = e.0 as int * 8 + e.1 as int;
        assert forall|x1: int, y1: int, x2: int, y2: int, c: ColorChess|
            #[trigger] is_king_at(m2, x1, y1, c) && #[trigger] is_king_at(m2, x2, y2, c) implies x1
            == x2 && y1 == y2 by {
            assert(is_king_at(m, x1, y1, c));
            assert(is_king_at(m, x2, y2, c));
        }
        match sq(m, e.0 as int, e.1 as int) {
            Some(q) => {
                lemma_count_update(
                    m.squares,
                    ei,
                    Some(Piece { piece_type: PieceType::Queen, color: q.color }),
                );
            },
            None => {},
        }
    }
}

impl Board {
    /// Record a capture by `capturer`: append the piece to `capturer`'s
    /// capture list and credit its point value to `capturer`'s total. The
    /// well-formedness bound on the lists keeps the totals far below their
    /// counter's range.
    fn record_capture(&mut self, capturer: ColorChess, cap: Piece)
        requires
            board_wf(old(self)@),
        ensures
            final(self)@ == credit_capture(old(self)@, capturer, cap),
    {
        proof {
            crate::board::lemma_count_bounds(old(self)@.squares);
            lemma_sum_bounds(old(self)@.captured_by_white);
            lemma_sum_bounds(old(self)@.captured_by_black);
        }
        if capturer == ColorChess::White {
            self.captured_by_white.push(cap);
            self.white_points = self.white_points + cap.points();
        } else {
            self.captured_by_black.push(cap);
            self.black_points = self.black_points + cap.points();
        }
        proof {
            assert(self@ =~= credit_capture(old(self)@, capturer, cap));
        }
    }

    /// Apply `start -> end` for the purpose of a check test, on this board:
    /// simulate the en-passant removal and the castling rook relocation and
    /// move the piece, with no capture bookkeeping, flag updates or
    /// promotion. Callers apply this to a disposable copy of the live board.
    pub fn make_move_for_test(&mut self, start: (usize, usize), end: (usize, usize))
        requires
            old(self).wf(),
            start.0 < 8 && start.1 < 8,
            end.0 < 8 && end.1 < 8,
            ep_capture_safe(old(self)@, start, end),
        ensures
            final(self)@ == trial_move_spec(old(self)@, start, end),
            final(self).wf(),
    {
        let si = start.0 * 8 + start.1;
        let ei = end.0 * 8 + end.1;
        let dy = if start.1 > end.1 {
            start.1 - end.1
        } else {
            end.1 - start.1
        };
        // Simulate the en-passant removal: a pawn moving diagonally onto an
        // empty square captures the pawn standing beside the destination.
        if let Some(piece_moving) = self.squares[si] {
            if piece_moving.is_type(PieceType::Pawn) && dy == 1 && self.squares[ei].is_none() {
                let cx = if piece_moving.is_color(ColorChess::White) {
                    end.0 + 1
                } else {
                    end.0 - 1
                };
                self.squares.set(cx * 8 + end.1, None);
            }
        }
        proof {
            assert(self@ =~= trial_ep_removal(old(self)@, start, end));
        }
        let ghost m1 = self@;
        // Move the piece.
        let piece = self.squares[si];
        self.squares.set(si, None);
        self.squares.set(ei, piece);
        proof {
            assert(self@ =~= transfer(m1, start.0 as int, start.1 as int, end.0 as int, end.1 as int));
        }
        let ghost m2 = self@;
        // Simulate the castling rook relocation for a king moving two files.
        if let Some(moved_piece) = piece {
            if moved_piece.is_type(PieceType::King) && dy == 2 {
                if end.1 == 6 {
                    let rook = self.squares[start.0 * 8 + 7];
                    self.squares.set(start.0 * 8 + 7, None);
                    self.squares.set(start.0 * 8 + 5, rook);
                } else if end.1 == 2 {
                    let rook = self.squares[start.0 * 8 + 0];
                    self.squares.set(start.0 * 8 + 0, None);
                    self.squares.set(start.0 * 8 + 3, rook);
                }
            }
        }
        proof {
            assert(self@ =~= trial_castle_rook(m2, sq(m1, start.0 as int, start.1 as int), start, end));
            lemma_trial_wf(old(self)@, start, end);
        }
    }

    /// Stage one of a real move: consume castling rights, relocate a castling
    /// rook, and set the en-passant target after a pawn's double step.
    /// `piece_moving` is the occupant of `start`, read before any mutation.
    fn exec_flags_and_castle(&mut self, piece_moving: Option<Piece>, start: (usize, usize), end: (usize, usize))
        requires
            old(self).wf(),
            start.0 < 8 && start.1 < 8,
            end.0 < 8 && end.1 < 8,
            piece_moving == sq(old(self)@, start.0 as int, start.1 as int),
        ensures
            final(self)@ == (match piece_moving {
                Some(p) => apply_flags_and_castle(old(self)@, p, start, end),
                None => old(self)@,
            }),
            final(self).wf(),
    {
        let dy = if start.1 > end.1 {
            start.1 - end.1
        } else {
            end.1 - start.1
        };
        if let Some(piece) = piece_moving {
            if piece.is_type(PieceType::King) {
                if piece.color() == ColorChess::White {
                    self.white_king_moved = true;
                } else {
                    self.black_king_moved = true;
                }
                if dy == 2 {
                    if end.1 == 6 {
                        if piece.color() == ColorChess::White {
                            self.white_rook_king_side_moved = true;
                        } else {
                            self.black_rook_king_side_moved = true;
                        }
                        let rook = self.squares[start.0 * 8 + 7];
                        self.squares.set(start.0 * 8 + 7, None);
                        self.squares.set(start.0 * 8 + 5, rook);
                    } else if end.1 == 2 {
                        if piece.color() == ColorChess::White {
                            self.white_rook_queen_side_moved = true;
                        } else {
                            self.black_rook_queen_side_moved = true;
                        }
                        let rook = self.squares[start.0 * 8 + 0];
                        self.squares.set(start.0 * 8 + 0, None);
                        self.squares.set(start.0 * 8 + 3, rook);
                    }
                }
            } else if piece.is_type(PieceType::Rook) {
                if piece.color() == ColorChess::White {
                    if start.0 == 7 && start.1 == 0 {
                        self.white_rook_queen_side_moved = true;
                    } else if start.0 == 7 && start.1 == 7 {
                        self.white_rook_king_side_moved = true;
                    }
                } else {
                    if start.0 == 0 && start.1 == 0 {
                        self.black_rook_queen_side_moved = true;
                    } else if start.0 == 0 && start.1 == 7 {
                        self.black_rook_king_side_moved = true;
                    }
                }
            }
            if piece.is_type(PieceType::Pawn) {
                if piece.color() == ColorChess::White && start.0 == 6 && end.0 == 4 {
                    self.en_passant_target = Some((5, start.1));
                } else if piece.color() == ColorChess::Black && start.0 == 1 && end.0 == 3 {
                    self.en_passant_target = Some((2, start.1));
                }
            }
            proof {
                assert(self@ =~= apply_flags_and_castle(old(self)@, piece_moving->Some_0, start, end));
                lemma_wf_flags_castle(old(self)@, piece_moving->Some_0, start, end);
            }
        }
    }

    /// Stage two of a real move: the en-passant capture. A pawn moving
    /// diagonally onto an empty square removes the opposing pawn standing
    /// beside the destination and records it for the mover.
    fn exec_ep_capture(&mut self, start: (usize, usize), end: (usize, usize))
        requires
            old(self).wf(),
            start.0 < 8 && start.1 < 8,
            end.0 < 8 && end.1 < 8,
            ep_capture_safe(old(self)@, start, end),
        ensures
            final(self)@ == apply_ep_capture(old(self)@, start, end),
            final(self).wf(),
    {
        let dy = if start.1 > end.1 {
            start.1 - end.1
        } else {
            end.1 - start.1
        };
        let si = start.0 * 8 + start.1;
        let ei = end.0 * 8 + end.1;
        if let Some(piece_moving) = self.squares[si] {
            if piece_moving.is_type(PieceType::Pawn) && dy == 1 && self.squares[ei].is_none() {
                let cx = if piece_moving.is_color(ColorChess::White) {
                    end.0 + 1
                } else {
                    end.0 - 1
                };
                if let Some(captured) = self.squares[cx * 8 + end.1] {
                    self.squares.set(cx * 8 + end.1, None);
                    proof {
                        lemma_wf_clear(old(self)@, cx as int, end.1 as int);
                    }
                    self.record_capture(piece_moving.color(), captured);
                }
            }
        }
        proof {
            assert(self@ =~= apply_ep_capture(old(self)@, start, end));
            lemma_wf_ep_capture(old(self)@, start, end);
        }
    }

    /// Stage three of a real move: the ordinary capture. An occupied
    /// destination square is emptied and its piece recorded for `capturer`,
    /// the moving side.
    fn exec_regular_capture(&mut self, capturer: ColorChess, end: (usize, usize))
        requires
            old(self).wf(),
            end.0 < 8 && end.1 < 8,
        ensures
            final(self)@ == apply_regular_capture(old(self)@, capturer, end),
            final(self).wf(),
    {
        let ei = end.0 * 8 + end.1;
        if let Some(captured) = self.squares[ei] {
            self.squares.set(ei, None);
            proof {
                lemma_wf_clear(old(self)@, end.0 as int, end.1 as int);
            }
            self.record_capture(capturer, captured);
        }
        proof {
            assert(self@ =~= apply_regular_capture(old(self)@, capturer, end));
            lemma_wf_regular_capture(old(self)@, capturer, end);
        }
    }

    /// Stages four and five of a real move: move the piece, then auto-promote
    /// a pawn that has reached the farthest rank for its color to a queen.
    fn exec_move_and_promote(&mut self, start: (usize, usize), end: (usize, usize))
        requires
            old(self).wf(),
            start.0 < 8 && start.1 < 8,
            end.0 < 8 && end.1 < 8,
        ensures
            final(self)@ == apply_promotion(apply_move(old(self)@, start, end), end),
            final(self).wf(),
    {
        let si = start.0 * 8 + start.1;
        let ei = end.0 * 8 + end.1;
        if self.squares[si].is_some() {
            let piece = self.squares[si];
            self.squares.set(si, None);
            self.squares.set(ei, piece);
        }
        let ghost m4 = self@;
        proof {
            assert(m4 =~= apply_move(old(self)@, start, end));
            lemma_wf_move(old(self)@, start, end);
        }
        if let Some(piece) = self.squares[ei] {
            if piece.is_type(PieceType::Pawn) {
                if (piece.is_color(ColorChess::White) && end.0 == 0) || (piece.is_color(
                    ColorChess::Black,
                ) && end.0 == 7) {
                    self.squares.set(ei, Some(Piece::new(PieceType::Queen, piece.color())));
                }
            }
        }
        proof {
            assert(self@ =~= apply_promotion(m4, end));
            lemma_wf_promotion(m4, end);
        }
    }

    /// Apply the already-validated move `start -> end` to the live board, in
    /// the order of `move_result_spec`: clear the stale en-passant target,
    /// maintain the castling flags and relocate a castling rook, perform the
    /// en-passant or ordinary capture with its bookkeeping, move the piece,
    /// and auto-promote a pawn on its farthest rank to a queen. No legality
    /// re-checking happens here: callers must have validated the move.
    pub fn move_piece(&mut self, start: (usize, usize), end: (usize, usize))
        requires
            old(self).wf(),
            start.0 < 8 && start.1 < 8,
            exists|c: ColorChess|
                crate::moves::valid_move_spec(
                    old(self)@,
                    start.0 as int,
                    start.1 as int,
                    end.0 as int,
                    end.1 as int,
                    c,
                ),
        ensures
            final(self)@ == move_result_spec(old(self)@, start, end),
            final(self).wf(),
    {
        let ghost c_mv = choose|c: ColorChess|
            crate::moves::valid_move_spec(
                old(self)@,
                start.0 as int,
                start.1 as int,
                end.0 as int,
                end.1 as int,
                c,
            );
        proof {
            assert(crate::rules::on_board(end.0 as int, end.1 as int));
        }
        let si = start.0 * 8 + start.1;
        // Clear any stale en-passant target before evaluating the new move.
        self.en_passant_target = None;
        let ghost m0 = self@;
        proof {
            lemma_wf_same_material(old(self)@, m0);
        }
        let piece_moving_clone = self.squares[si];
        let ghost p = piece_moving_clone->Some_0;
        self.exec_flags_and_castle(piece_moving_clone, start, end);
        proof {
            lemma_ep_safe_after_flags(old(self)@, m0, p, start, end, c_mv);
        }
        self.exec_ep_capture(start, end);
        let capturer = match piece_moving_clone {
            Some(pm) => pm.color(),
            None => ColorChess::White,
        };
        self.exec_regular_capture(capturer, end);
        self.exec_move_and_promote(start, end);
        proof {
            assert(self@ == move_result_spec(old(self)@, start, end));
        }
    }
}

/// After the flag-and-castle stage of a valid move, the en-passant capture
/// stage's row arithmetic is safe: if the mover is a pawn stepping diagonally
/// onto an empty square, the move validated as an en-passant capture, whose
/// rows keep the removed pawn's square on the board; and a castling king
/// starts from file 4, so the rook relocation never disturbs the start
/// square.
proof fn lemma_ep_safe_after_flags(
    m_orig: BoardModel,
    m0: BoardModel,
    p: Piece,
    s: (usize, usize),
    e: (usize, usize),
    c: ColorChess,
)
    requires
        board_wf(m_orig),
        crate::moves::valid_move_spec(m_orig, s.0 as int, s.1 as int, e.0 as int, e.1 as int, c),
        m0 == (BoardModel { en_passant_target: None, ..m_orig }),
        p == sq(m_orig, s.0 as int, s.1 as int)->Some_0,
    ensures
        ep_capture_safe(apply_flags_and_castle(m0, p, s, e), s, e),
{
    let m1 = apply_flags_and_castle(m0, p, s, e);
    if p.piece_type == PieceType::King && dist(s.1 as int, e.1 as int) == 2 && (e.1 == 6 || e.1
        == 2) {
        // The move validated as castling (a king's basic step spans at most
        // one file), so the king starts on file 4 and the rook relocation
        // touches files 0, 3, 5 and 7 only: the start square keeps its king,
        // and the en-passant stage sees no pawn there.
        assert(crate::moves::castling_ok(m_orig, s.0 as int, s.1 as int, e.0 as int, e.1 as int, c));
        assert(s.1 == 4);
        assert(sq(m1, s.0 as int, s.1 as int) == Some(p));
    } else {
        assert(m1.squares == m0.squares);
        if p.piece_type == PieceType::Pawn && dist(s.1 as int, e.1 as int) == 1 && sq(
            m1,
            e.0 as int,
            e.1 as int,
        ) is None {
            // A valid diagonal pawn move onto an empty square is an
            // en-passant capture.
            assert(crate::rules::pawn_ok(
                m_orig,
                s.0 as int,
                s.1 as int,
                e.0 as int,
                e.1 as int,
                c,
            ));
            if c == ColorChess::White {
                assert(s.0 == 3 && e.0 == 2);
            } else {
                assert(s.0 == 4 && e.0 == 5);
            }
        }
    }
}

} // verus!
