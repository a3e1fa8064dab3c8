//! Laws of the engine: properties that hold of every board and every move,
//! stated and proved over the same spec functions the public contracts use.

use vstd::prelude::*;

use crate::analysis::MoveCoords;
use crate::analysis::legal_move_spec;
use crate::attack::in_check_spec;
use crate::attack::square_attacked_spec;
use crate::board::BoardModel;
use crate::execute::move_result_spec;
use crate::execute::trial_move_spec;
use crate::moves::castling_ok;
use crate::moves::valid_move_spec;
use crate::piece::ColorChess;
use crate::piece::Piece;
use crate::piece::PieceType;
use crate::rules::dist;
use crate::rules::empty_at;
use crate::rules::sq;
use crate::rules::step_toward;

verus! {

/// A move is never legal when it stands still, when its destination lies off
/// the board, when its start square is empty, or when the piece on the start
/// square belongs to the other side.
pub proof fn lemma_degenerate_moves_rejected(
    m: BoardModel,
    sx: int,
    sy: int,
    ex: int,
    ey: int,
    c: ColorChess,
)
    ensures
        sx == ex && sy == ey ==> !valid_move_spec(m, sx, sy, ex, ey, c),
        !(0 <= ex < 8 && 0 <= ey < 8) ==> !valid_move_spec(m, sx, sy, ex, ey, c),
        sq(m, sx, sy) is None ==> !valid_move_spec(m, sx, sy, ex, ey, c),
        (sq(m, sx, sy) matches Some(p) && p.color != c) ==> !valid_move_spec(m, sx, sy, ex, ey, c),
{
}

/// A pawn can never step diagonally onto an empty square that is not the
/// en-passant target: a diagonal pawn move is either an ordinary capture of
/// an occupied square or an en-passant capture of the target square.
pub proof fn lemma_pawn_diagonal_requires_capture(
    m: BoardModel,
    sx: int,
    sy: int,
    ex: int,
    ey: int,
    c: ColorChess,
)
    requires
        sq(m, sx, sy) matches Some(p) && p.piece_type == PieceType::Pawn,
        sy != ey,
        empty_at(m, ex, ey),
        !(m.en_passant_target matches Some(t) && ex == t.0 && ey == t.1),
    ensures
        !valid_move_spec(m, sx, sy, ex, ey, c),
{
}

/// `(bx, by)` lies strictly between `(sx, sy)` and `(ex, ey)` on a shared
/// rank, file or diagonal.
pub open spec fn strictly_between(sx: int, sy: int, ex: int, ey: int, bx: int, by: int) -> bool {
    ||| (sx == ex && bx == sx && (if sy < ey {
        sy < by < ey
    } else {
        ey < by < sy
    }))
    ||| (sy == ey && by == sy && (if sx < ex {
        sx < bx < ex
    } else {
        ex < bx < sx
    }))
    ||| (dist(sx, ex) == dist(sy, ey) && (exists|k: int|
        1 <= k < dist(sx, ex) && bx == #[trigger] step_toward(sx, ex, k) && by == step_toward(
            sy,
            ey,
            k,
        )))
}

/// A rook, bishop or queen can never move through an occupied square: any
/// piece standing strictly between the start and the destination makes the
/// destination unreachable.
pub proof fn lemma_slider_blocked(
    m: BoardModel,
    sx: int,
    sy: int,
    ex: int,
    ey: int,
    bx: int,
    by: int,
    c: ColorChess,
)
    requires
        sq(m, sx, sy) matches Some(p) && (p.piece_type == PieceType::Rook || p.piece_type
            == PieceType::Bishop || p.piece_type == PieceType::Queen),
        strictly_between(sx, sy, ex, ey, bx, by),
        sq(m, bx, by) is Some,
    ensures
        !valid_move_spec(m, sx, sy, ex, ey, c),
{
    if sx == ex && bx == sx {
        // A blocked rank: the rook rule's clear-path condition fails at
        // (sx, by), and the rank is no diagonal.
        assert(!empty_at(m, sx, by));
        assert(!crate::rules::rook_path_clear(m, sx, sy, ex, ey));
    } else if sy == ey && by == sy {
        assert(!empty_at(m, bx, sy));
        assert(!crate::rules::rook_path_clear(m, sx, sy, ex, ey));
    } else {
        // A blocked diagonal: the bishop rule's clear-path condition fails at
        // the blocker's step index, and a proper diagonal is neither a rank
        // nor a file.
        let k = choose|k: int|
            1 <= k < dist(sx, ex) && bx == #[trigger] step_toward(sx, ex, k) && by == step_toward(
                sy,
                ey,
                k,
            );
        assert(!empty_at(m, step_toward(sx, ex, k), step_toward(sy, ey, k)));
        assert(!crate::rules::bishop_path_clear(m, sx, sy, ex, ey));
        assert(sx != ex && sy != ey);
    }
}

/// White's king-side castling, e1 to g1, is legal exactly when the king and
/// the king-side rook have never moved, f1 and g1 are empty, and e1, f1 and
/// g1 are not attacked by Black.
pub proof fn lemma_white_king_side_castling_conditions(m: BoardModel)
    ensures
        castling_ok(m, 7, 4, 7, 6, ColorChess::White) <==> {
            &&& !m.white_king_moved
            &&& !m.white_rook_king_side_moved
            &&& empty_at(m, 7, 5) && empty_at(m, 7, 6)
            &&& !in_check_spec(m, ColorChess::White)
            &&& !square_attacked_spec(m, 7, 5, ColorChess::Black)
            &&& !square_attacked_spec(m, 7, 6, ColorChess::Black)
        },
{
}

/// Executing White's king-side castling puts the king on g1 and the rook on
/// f1, and empties e1 and h1.
pub proof fn lemma_white_king_side_castling_execution(m: BoardModel)
    requires
        m.squares.len() == 64,
        sq(m, 7, 4) matches Some(p) && p.piece_type == PieceType::King && p.color
            == ColorChess::White,
        castling_ok(m, 7, 4, 7, 6, ColorChess::White),
    ensures
        ({
            let m2 = move_result_spec(m, (7, 4), (7, 6));
            &&& sq(m2, 7, 6) == sq(m, 7, 4)
            &&& sq(m2, 7, 5) == sq(m, 7, 7)
            &&& sq(m2, 7, 4) is None
            &&& sq(m2, 7, 7) is None
        }),
{
    let s = (7usize, 4usize);
    let e = (7usize, 6usize);
    let p = sq(m, 7, 4)->Some_0;
    let m0 = BoardModel { en_passant_target: None, ..m };
    let m1 = crate::execute::apply_flags_and_castle(m0, p, s, e);
    // The rook moves from h1 to f1; e1 and g1 are untouched.
    assert(m1.squares == m0.squares.update(63, None).update(61, m0.squares[63]));
    assert(sq(m1, 7, 4) == Some(p));
    let m2 = crate::execute::apply_ep_capture(m1, s, e);
    assert(m2 == m1);
    // The destination g1 is empty by the castling rule, so nothing is
    // captured.
    assert(sq(m1, 7, 6) == sq(m, 7, 6));
    let m3 = crate::execute::apply_regular_capture(m2, p.color, e);
    assert(m3 == m2);
    // The king moves from e1 to g1.
    let m4 = crate::execute::apply_move(m3, s, e);
    assert(m4.squares == m3.squares.update(60, None).update(62, Some(p)));
    // A king is not promoted.
    assert(sq(m4, 7, 6) == Some(p));
    let m5 = crate::execute::apply_promotion(m4, e);
    assert(m5 == m4);
    assert(move_result_spec(m, s, e) == m5);
}

/// After any executed move, the en-passant target is gone unless the move
/// itself was a pawn's double step, in which case it is exactly the square
/// the pawn skipped over.
pub proof fn lemma_en_passant_target_lifecycle(m: BoardModel, s: (usize, usize), e: (usize, usize))
    requires
        s.0 < 8 && s.1 < 8,
        e.0 < 8 && e.1 < 8,
    ensures
        ({
            let m2 = move_result_spec(m, s, e);
            m2.en_passant_target matches Some(t) ==> (sq(m, s.0 as int, s.1 as int) matches Some(p)
                && p.piece_type == PieceType::Pawn && ((p.color == ColorChess::White && s.0 == 6
                && e.0 == 4 && t == (5usize, s.1)) || (p.color == ColorChess::Black && s.0 == 1
                && e.0 == 3 && t == (2usize, s.1))))
        }),
{
}

/// A pawn that moves onto the farthest rank for its color comes out of move
/// execution as a queen of the same color.
pub proof fn lemma_promotion(m: BoardModel, s: (usize, usize), e: (usize, usize), c: ColorChess)
    requires
        m.squares.len() == 64,
        sq(m, s.0 as int, s.1 as int) matches Some(p) && p.piece_type == PieceType::Pawn
            && p.color == c,
        valid_move_spec(m, s.0 as int, s.1 as int, e.0 as int, e.1 as int, c),
        e.0 == (if c == ColorChess::White {
            0int
        } else {
            7int
        }),
    ensures
        sq(move_result_spec(m, s, e), e.0 as int, e.1 as int) == Some(
            Piece { piece_type: PieceType::Queen, color: c },
        ),
{
    let p = sq(m, s.0 as int, s.1 as int)->Some_0;
    // A pawn move to the farthest rank is a single step (straight or
    // diagonal): the double step ends on row 4 or 3, never 0 or 7. So the
    // start row adjoins the destination row, and neither the en-passant
    // removal (one row past the destination) nor the destination capture
    // touches the start square: the pawn is still there when the move step
    // runs, and promotion replaces it with a queen.
    if c == ColorChess::White {
        assert(s.0 == 1);
    } else {
        assert(s.0 == 6);
    }
    let m0 = BoardModel { en_passant_target: None, ..m };
    let m1 = crate::execute::apply_flags_and_castle(m0, p, s, e);
    assert(m1.squares == m0.squares);
    let m2 = crate::execute::apply_ep_capture(m1, s, e);
    assert(sq(m2, s.0 as int, s.1 as int) == Some(p));
    let m3 = crate::execute::apply_regular_capture(m2, p.color, e);
    assert(sq(m3, s.0 as int, s.1 as int) == Some(p));
    let m4 = crate::execute::apply_move(m3, s, e);
    assert(sq(m4, e.0 as int, e.1 as int) == Some(p));
    let m5 = crate::execute::apply_promotion(m4, e);
    assert(sq(m5, e.0 as int, e.1 as int) == Some(
        Piece { piece_type: PieceType::Queen, color: c },
    ));
    assert(move_result_spec(m, s, e) == m5);
}

/// Check detection loses nothing by ignoring castling: a side is in check
/// exactly when some opposing piece has a move onto the king's square under
/// the full move rule, castling included. A castling king may only land on an
/// empty square, and the king's square is occupied, so the castling-free
/// predicate the attack scan uses decides the same thing.
pub proof fn lemma_check_agrees_with_full_move_rule(m: BoardModel, c: ColorChess)
    ensures
        in_check_spec(m, c) <==> (exists|kx: int, ky: int, ax: int, ay: int|
            #![auto]
            crate::board::is_king_at(m, kx, ky, c) && valid_move_spec(
                m,
                ax,
                ay,
                kx,
                ky,
                crate::piece::opposite(c),
            )),
{
    let o = crate::piece::opposite(c);
    if in_check_spec(m, c) {
        let (kx, ky) = choose|kx: int, ky: int|
            #![auto]
            crate::board::is_king_at(m, kx, ky, c) && crate::attack::attacks_square(m, kx, ky, o);
        let (ax, ay) = choose|ax: int, ay: int| crate::rules::move_ok_basic(m, ax, ay, kx, ky, o);
        // The castling-free rule is part of the full rule: every piece's
        // clause is identical, and the king's one-square step is one arm of
        // the full king rule.
        assert(valid_move_spec(m, ax, ay, kx, ky, o));
    }
    if exists|kx: int, ky: int, ax: int, ay: int|
        #![auto]
        crate::board::is_king_at(m, kx, ky, c) && valid_move_spec(m, ax, ay, kx, ky, o) {
        let (kx, ky, ax, ay) = choose|kx: int, ky: int, ax: int, ay: int|
            #![auto]
            crate::board::is_king_at(m, kx, ky, c) && valid_move_spec(m, ax, ay, kx, ky, o);
        // A valid move onto the occupied king square cannot be castling,
        // whose destination must be empty; so it is a castling-free move.
        assert(!empty_at(m, kx, ky));
        assert(crate::rules::move_ok_basic(m, ax, ay, kx, ky, o));
        assert(crate::attack::attacks_square(m, kx, ky, o));
    }
}

/// No legal move leaves the mover's own king in check: everything
/// `get_all_legal_moves` returns satisfies `legal_move_spec`, whose trial
/// application ends with the mover's king safe.
pub proof fn lemma_legal_move_keeps_king_safe(m: BoardModel, mv: MoveCoords, c: ColorChess)
    requires
        legal_move_spec(m, mv, c),
    ensures
        !in_check_spec(trial_move_spec(m, mv.0, mv.1), c),
{
}

} // verus!
