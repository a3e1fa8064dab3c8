//! The board: an 8x8 grid of optional pieces plus the auxiliary game state
//! (capture lists, point totals, current turn, castling-rights flags and the
//! en-passant target square).
//!
//! Coordinates are zero-based `(rank-from-top, file)` pairs: rank 8 is row 0
//! and file `a` is column 0. Black's pieces therefore start on rows 0 and 1
//! and White's on rows 6 and 7, and White's pawns advance toward smaller row
//! indices.

use vstd::prelude::*;

use crate::piece::ColorChess;
use crate::piece::Piece;
use crate::piece::PieceType;
use crate::piece::points_spec;

verus! {

/// The mathematical model of a board: the 64 squares in row-major order
/// together with the auxiliary game state.
#[verifier::ext_equal]
pub struct BoardModel {
    /// Square `(x, y)` of the grid is entry `x * 8 + y`.
    pub squares: Seq<Option<Piece>>,
    /// Pieces White has captured, in capture order.
    pub captured_by_white: Seq<Piece>,
    /// Pieces Black has captured, in capture order.
    pub captured_by_black: Seq<Piece>,
    /// The side to move.
    pub turn: ColorChess,
    /// Sum of the point values of the pieces White has captured.
    pub white_points: int,
    /// Sum of the point values of the pieces Black has captured.
    pub black_points: int,
    pub white_king_moved: bool,
    pub black_king_moved: bool,
    pub white_rook_king_side_moved: bool,
    pub white_rook_queen_side_moved: bool,
    pub black_rook_king_side_moved: bool,
    pub black_rook_queen_side_moved: bool,
    /// The square a pawn skipped over on its most recent double step, if the
    /// move just made was such a step.
    pub en_passant_target: Option<(usize, usize)>,
}

/// How many squares of `s` hold a piece.
pub open spec fn count_pieces(s: Seq<Option<Piece>>) -> int
    decreases s.len(),
{
    if s.len() == 0 {
        0
    } else {
        count_pieces(s.drop_last()) + (if s.last() is Some {
            1int
        } else {
            0int
        })
    }
}

/// The total point value of a sequence of captured pieces.
pub open spec fn sum_points(s: Seq<Piece>) -> int
    decreases s.len(),
{
    if s.len() == 0 {
        0
    } else {
        sum_points(s.drop_last()) + points_spec(s.last())
    }
}

/// There is a king of color `c` on square `(x, y)`.
pub open spec fn is_king_at(m: BoardModel, x: int, y: int, c: ColorChess) -> bool {
    &&& 0 <= x < 8 && 0 <= y < 8
    &&& m.squares[x * 8 + y] matches Some(p) && p.piece_type == PieceType::King && p.color == c
}

/// Each side has at most one king on the board.
pub open spec fn kings_unique(m: BoardModel) -> bool {
    forall|x1: int, y1: int, x2: int, y2: int, c: ColorChess|
        #[trigger] is_king_at(m, x1, y1, c) && #[trigger] is_king_at(m, x2, y2, c) ==> x1 == x2
            && y1 == y2
}

/// Well-formedness of a board model: the grid has 64 squares, each side has
/// at most one king, each point total equals the value of that side's capture
/// list, and captures plus pieces on the board never exceed the 64 squares a
/// game can start from (so point totals cannot overflow their counters).
pub open spec fn board_wf(m: BoardModel) -> bool {
    &&& m.squares.len() == 64
    &&& kings_unique(m)
    &&& m.captured_by_white.len() + m.captured_by_black.len() + count_pieces(m.squares) <= 64
    &&& m.white_points == sum_points(m.captured_by_white)
    &&& m.black_points == sum_points(m.captured_by_black)
}

pub proof fn lemma_count_bounds(s: Seq<Option<Piece>>)
    ensures
        0 <= count_pieces(s) <= s.len(),
    decreases s.len(),
{
    if s.len() > 0 {
        lemma_count_bounds(s.drop_last());
    }
}

pub proof fn lemma_count_update(s: Seq<Option<Piece>>, i: int, v: Option<Piece>)
    requires
        0 <= i < s.len(),
    ensures
        count_pieces(s.update(i, v)) == count_pieces(s) - (if s[i] is Some {
            1int
        } else {
            0int
        }) + (if v is Some {
            1int
        } else {
            0int
        }),
    decreases s.len(),
{
    if i == s.len() - 1 {
        assert(s.update(i, v).drop_last() =~= s.drop_last());
    } else {
        assert(s.update(i, v).drop_last() =~= s.drop_last().update(i, v));
        lemma_count_update(s.drop_last(), i, v);
    }
}

pub proof fn lemma_sum_push(s: Seq<Piece>, p: Piece)
    ensures
        sum_points(s.push(p)) == sum_points(s) + points_spec(p),
{
    assert(s.push(p).drop_last() =~= s);
}

pub proof fn lemma_sum_bounds(s: Seq<Piece>)
    ensures
        0 <= sum_points(s) <= 9 * s.len(),
    decreases s.len(),
{
    if s.len() > 0 {
        lemma_sum_bounds(s.drop_last());
    }
}

/// The back-rank arrangement, by file: rook, knight, bishop, queen, king,
/// bishop, knight, rook.
pub open spec fn back_rank_type(y: int) -> PieceType {
    if y == 0 || y == 7 {
        PieceType::Rook
    } else if y == 1 || y == 6 {
        PieceType::Knight
    } else if y == 2 || y == 5 {
        PieceType::Bishop
    } else if y == 3 {
        PieceType::Queen
    } else {
        PieceType::King
    }
}

/// The standard starting occupant of square `(x, y)`: Black's back rank on
/// row 0 (rank 8) and pawns on row 1 (rank 7), White's pawns on row 6 (rank
/// 2) and back rank on row 7 (rank 1).
pub open spec fn initial_square(x: int, y: int) -> Option<Piece> {
    if x == 0 {
        Some(Piece { piece_type: back_rank_type(y), color: ColorChess::Black })
    } else if x == 1 {
        Some(Piece { piece_type: PieceType::Pawn, color: ColorChess::Black })
    } else if x == 6 {
        Some(Piece { piece_type: PieceType::Pawn, color: ColorChess::White })
    } else if x == 7 {
        Some(Piece { piece_type: back_rank_type(y), color: ColorChess::White })
    } else {
        None
    }
}

/// The model of a freshly constructed board: the standard starting position,
/// White to move, nothing captured, all castling rights intact, no en-passant
/// target.
pub open spec fn initial_board() -> BoardModel {
    BoardModel {
        squares: Seq::new(64, |i: int| initial_square(i / 8, i % 8)),
        captured_by_white: Seq::empty(),
        captured_by_black: Seq::empty(),
        turn: ColorChess::White,
        white_points: 0,
        black_points: 0,
        white_king_moved: false,
        black_king_moved: false,
        white_rook_king_side_moved: false,
        white_rook_queen_side_moved: false,
        black_rook_king_side_moved: false,
        black_rook_queen_side_moved: false,
        en_passant_target: None,
    }
}

/// The board and all auxiliary game state of one chess game.
pub struct Board {
    pub squares: Vec<Option<Piece>>,
    pub captured_by_white: Vec<Piece>,
    pub captured_by_black: Vec<Piece>,
    pub current_turn: ColorChess,
    pub white_points: u32,
    pub black_points: u32,
    pub white_king_moved: bool,
    pub black_king_moved: bool,
    pub white_rook_king_side_moved: bool,
    pub white_rook_queen_side_moved: bool,
    pub black_rook_king_side_moved: bool,
    pub black_rook_queen_side_moved: bool,
    pub en_passant_target: Option<(usize, usize)>,
}

impl View for Board {
    type V = BoardModel;

    open spec fn view(&self) -> BoardModel {
        BoardModel {
            squares: self.squares@,
            captured_by_white: self.captured_by_white@,
            captured_by_black: self.captured_by_black@,
            turn: self.current_turn,
            white_points: self.white_points as int,
            black_points: self.black_points as int,
            white_king_moved: self.white_king_moved,
            black_king_moved: self.black_king_moved,
            white_rook_king_side_moved: self.white_rook_king_side_moved,
            white_rook_queen_side_moved: self.white_rook_queen_side_moved,
            black_rook_king_side_moved: self.black_rook_king_side_moved,
            black_rook_queen_side_moved: self.black_rook_queen_side_moved,
            en_passant_target: self.en_passant_target,
        }
    }
}

/// The starting occupant of square `(x, y)`, as executable code.
fn initial_square_exec(x: usize, y: usize) -> (r: Option<Piece>)
    requires
        x < 8,
        y < 8,
    ensures
        r == initial_square(x as int, y as int),
{
    let back_rank: PieceType = if y == 0 || y == 7 {
        PieceType::Rook
    } else if y == 1 || y == 6 {
        PieceType::Knight
    } else if y == 2 || y == 5 {
        PieceType::Bishop
    } else if y == 3 {
        PieceType::Queen
    } else {
        PieceType::King
    };
    if x == 0 {
        Some(Piece::new(back_rank, ColorChess::Black))
    } else if x == 1 {
        Some(Piece::new(PieceType::Pawn, ColorChess::Black))
    } else if x == 6 {
        Some(Piece::new(PieceType::Pawn, ColorChess::White))
    } else if x == 7 {
        Some(Piece::new(back_rank, ColorChess::White))
    } else {
        None
    }
}

/// Copy a vector of copyable elements.
fn copy_vec<T: Copy>(v: &Vec<T>) -> (r: Vec<T>)
    ensures
        r@ == v@,
{
    let mut r: Vec<T> = Vec::new();
    let mut i: usize = 0;
    while i < v.len()
        invariant
            i <= v.len(),
            r@ =~= v@.subrange(0, i as int),
        decreases v.len() - i,
    {
        r.push(v[i]);
        i = i + 1;
    }
    proof {
        assert(r@ =~= v@);
    }
    r
}

impl Board {
    /// Well-formedness of this board's state.
    pub open spec fn wf(self) -> bool {
        board_wf(self@)
    }

    /// Construct a board in the standard chess starting position.
    pub fn new() -> (b: Board)
        ensures
            b@ == initial_board(),
            b.wf(),
    {
        let mut squares: Vec<Option<Piece>> = Vec::new();
        let mut i: usize = 0;
        while i < 64
            invariant
                i <= 64,
                squares@.len() == i,
                forall|j: int| 0 <= j < i ==> squares@[j] == initial_square(j / 8, j % 8),
            decreases 64 - i,
        {
            squares.push(initial_square_exec(i / 8, i % 8));
            i = i + 1;
        }
        let b = Board {
            squares,
            captured_by_white: Vec::new(),
            captured_by_black: Vec::new(),
            current_turn: ColorChess::White,
            white_points: 0,
            black_points: 0,
            white_king_moved: false,
            black_king_moved: false,
            white_rook_king_side_moved: false,
            white_rook_queen_side_moved: false,
            black_rook_king_side_moved: false,
            black_rook_queen_side_moved: false,
            en_passant_target: None,
        };
        proof {
            assert(b@ =~= initial_board());
            lemma_initial_board_wf();
        }
        b
    }

    /// The side whose turn it is to move.
    pub fn get_current_turn(&self) -> (c: ColorChess)
        ensures
            c == self@.turn,
    {
        self.current_turn
    }

    /// Pass the turn to the other side. Nothing else changes.
    pub fn switch_turn(&mut self)
        ensures
            final(self)@ == (BoardModel { turn: crate::piece::opposite(old(self)@.turn), ..old(self)@ }),
            old(self).wf() ==> final(self).wf(),
    {
        self.current_turn = match self.current_turn {
            ColorChess::White => ColorChess::Black,
            ColorChess::Black => ColorChess::White,
        };
        proof {
            if board_wf(old(self)@) {
                lemma_wf_same_material(old(self)@, self@);
            }
        }
    }

    /// The side the local player plays; this engine always seats the player
    /// as White.
    pub fn choose_player_color() -> (c: ColorChess)
        ensures
            c == ColorChess::White,
    {
        ColorChess::White
    }

    /// The occupant of square `(x, y)`.
    pub fn piece_at(&self, x: usize, y: usize) -> (r: Option<Piece>)
        requires
            self.wf(),
            x < 8,
            y < 8,
        ensures
            r == self@.squares[x as int * 8 + y as int],
    {
        self.squares[x * 8 + y]
    }

    /// An independent deep copy of the whole game state, so a hypothetical
    /// move can be tried without touching the authoritative board.
    pub fn duplicate(&self) -> (r: Board)
        ensures
            r@ == self@,
    {
        let r = Board {
            squares: copy_vec(&self.squares),
            captured_by_white: copy_vec(&self.captured_by_white),
            captured_by_black: copy_vec(&self.captured_by_black),
            current_turn: self.current_turn,
            white_points: self.white_points,
            black_points: self.black_points,
            white_king_moved: self.white_king_moved,
            black_king_moved: self.black_king_moved,
            white_rook_king_side_moved: self.white_rook_king_side_moved,
            white_rook_queen_side_moved: self.white_rook_queen_side_moved,
            black_rook_king_side_moved: self.black_rook_king_side_moved,
            black_rook_queen_side_moved: self.black_rook_queen_side_moved,
            en_passant_target: self.en_passant_target,
        };
        proof {
            assert(r@ =~= self@);
        }
        r
    }

    /// Decode a square name typed by the player (`"e2"`, case-insensitive)
    /// to board coordinates; malformed text decodes to nothing rather than
    /// an error.
    pub fn parse_move(&self, move_str: &str) -> (r: Option<(usize, usize)>)
        ensures
            r == parse_square_spec(move_str@),
            r matches Some(p) ==> p.0 < 8 && p.1 < 8,
    {
        if move_str.unicode_len() != 2 {
            return None;
        }
        let c0 = move_str.get_char(0);
        let c1 = move_str.get_char(1);
        let v0 = c0 as u32;
        let col: u32 = if v0 >= 'A' as u32 && v0 <= 'Z' as u32 {
            v0 + 32
        } else {
            v0
        };
        let row = c1 as u32;
        if col < 'a' as u32 || col > 'h' as u32 || row < '1' as u32 || row > '8' as u32 {
            return None;
        }
        let col_index = (col - 'a' as u32) as usize;
        let row_index = (8 - (row - '0' as u32)) as usize;
        Some((row_index, col_index))
    }

    /// The running point total of `color`: the summed value of the pieces it
    /// has captured.
    pub fn points_for(&self, color: ColorChess) -> (v: u32)
        ensures
            v == (if color == ColorChess::White {
                self@.white_points
            } else {
                self@.black_points
            }),
    {
        match color {
            ColorChess::White => self.white_points,
            ColorChess::Black => self.black_points,
        }
    }

    /// The pieces `color` has captured, in capture order.
    pub fn captured_by(&self, color: ColorChess) -> (v: &Vec<Piece>)
        ensures
            v@ == (if color == ColorChess::White {
                self@.captured_by_white
            } else {
                self@.captured_by_black
            }),
    {
        match color {
            ColorChess::White => &self.captured_by_white,
            ColorChess::Black => &self.captured_by_black,
        }
    }
}

/// The lower-cased code point of `c`: ASCII capital letters map to their
/// small form, anything else is unchanged.
pub open spec fn lower_code(c: char) -> int {
    if ('A' as int) <= c as int <= ('Z' as int) {
        c as int + 32
    } else {
        c as int
    }
}

/// The coordinate a two-character square name decodes to: a file letter
/// `a`-`h` (case-insensitive) and a rank digit `1`-`8`, as a zero-based
/// `(rank-from-top, file)` pair, with rank 8 mapping to row 0 and file `a` to
/// column 0. Anything else decodes to nothing.
pub open spec fn parse_square_spec(s: Seq<char>) -> Option<(usize, usize)> {
    if s.len() == 2 {
        let col = lower_code(s[0]);
        let row = s[1] as int;
        if ('a' as int) <= col <= ('h' as int) && ('1' as int) <= row <= ('8' as int) {
            Some(((8 - (row - ('0' as int))) as usize, (col - ('a' as int)) as usize))
        } else {
            None
        }
    } else {
        None
    }
}

/// Well-formedness only concerns the squares, the capture lists and the
/// point totals; the turn, the castling flags and the en-passant target are
/// free to differ.
pub proof fn lemma_wf_same_material(m1: BoardModel, m2: BoardModel)
    requires
        board_wf(m1),
        m2.squares == m1.squares,
        m2.captured_by_white == m1.captured_by_white,
        m2.captured_by_black == m1.captured_by_black,
        m2.white_points == m1.white_points,
        m2.black_points == m1.black_points,
    ensures
        board_wf(m2),
{
    assert forall|x1: int, y1: int, x2: int, y2: int, c: ColorChess|
        #[trigger] is_king_at(m2, x1, y1, c) && #[trigger] is_king_at(m2, x2, y2, c) implies x1
        == x2 && y1 == y2 by {
        assert(is_king_at(m1, x1, y1, c));
        assert(is_king_at(m1, x2, y2, c));
    }
}

/// The starting position is well formed.
proof fn lemma_initial_board_wf()
    ensures
        board_wf(initial_board()),
{
    let m = initial_board();
    assert forall|x1: int, y1: int, x2: int, y2: int, c: ColorChess|
        #[trigger] is_king_at(m, x1, y1, c) && #[trigger] is_king_at(m, x2, y2, c) implies x1 == x2
        && y1 == y2 by {
        assert(m.squares[x1 * 8 + y1] == initial_square((x1 * 8 + y1) / 8, (x1 * 8 + y1) % 8));
        assert((x1 * 8 + y1) / 8 == x1 && (x1 * 8 + y1) % 8 == y1) by (nonlinear_arith)
            requires
                0 <= x1 < 8 && 0 <= y1 < 8,
        ;
        assert(m.squares[x2 * 8 + y2] == initial_square((x2 * 8 + y2) / 8, (x2 * 8 + y2) % 8));
        assert((x2 * 8 + y2) / 8 == x2 && (x2 * 8 + y2) % 8 == y2) by (nonlinear_arith)
            requires
                0 <= x2 < 8 && 0 <= y2 < 8,
        ;
    }
    lemma_count_bounds(m.squares);
}

} // verus!
