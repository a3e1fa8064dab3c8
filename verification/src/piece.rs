//! Pieces: a chess piece is a type (king, queen, rook, bishop, knight, pawn)
//! together with a color, plus a fixed point value used for capture scoring.

use vstd::prelude::*;

verus! {

/// The six kinds of chess piece.
#[derive(Clone, Copy, PartialEq, Eq, Structural, Debug)]
pub enum PieceType {
    King,
    Queen,
    Rook,
    Bishop,
    Knight,
    Pawn,
}

/// The two sides of a chess game.
#[derive(Clone, Copy, PartialEq, Eq, Structural, Debug)]
pub enum ColorChess {
    White,
    Black,
}

/// The color of the opposing side.
pub open spec fn opposite(c: ColorChess) -> ColorChess {
    match c {
        ColorChess::White => ColorChess::Black,
        ColorChess::Black => ColorChess::White,
    }
}

/// An immutable piece value: its type and color are fixed for the piece's
/// lifetime. Promotion replaces a pawn with a new queen value; it never
/// mutates a piece in place.
#[derive(Clone, Copy, PartialEq, Eq, Structural, Debug)]
pub struct Piece {
    pub piece_type: PieceType,
    pub color: ColorChess,
}

/// The conventional point value of a piece: pawn 1, knight and bishop 3,
/// rook 5, queen 9. The king is never scored as a capture (capturing it ends
/// the game through a separate path), so its value is 0.
pub open spec fn points_spec(p: Piece) -> u32 {
    match p.spec_piece_type() {
        PieceType::Pawn => 1,
        PieceType::Knight => 3,
        PieceType::Bishop => 3,
        PieceType::Rook => 5,
        PieceType::Queen => 9,
        PieceType::King => 0,
    }
}

impl Piece {
    /// The type of this piece.
    pub open spec fn spec_piece_type(self) -> PieceType {
        self.piece_type
    }

    /// The color of this piece.
    pub open spec fn spec_color(self) -> ColorChess {
        self.color
    }

    pub fn new(piece_type: PieceType, color: ColorChess) -> (p: Piece)
        ensures
            p.spec_piece_type() == piece_type,
            p.spec_color() == color,
    {
        Piece { piece_type, color }
    }

    pub fn piece_type(&self) -> (t: PieceType)
        ensures
            t == self.spec_piece_type(),
    {
        self.piece_type
    }

    pub fn color(&self) -> (c: ColorChess)
        ensures
            c == self.spec_color(),
    {
        self.color
    }

    pub fn is_color(&self, color: ColorChess) -> (r: bool)
        ensures
            r == (self.spec_color() == color),
    {
        self.color == color
    }

    pub fn is_type(&self, piece_type: PieceType) -> (r: bool)
        ensures
            r == (self.spec_piece_type() == piece_type),
    {
        self.piece_type == piece_type
    }

    /// The glyph used by a presentation layer to draw this piece.
    pub fn to_char(&self) -> (c: char)
        ensures
            c == (match self.spec_piece_type() {
                PieceType::King => '\u{265A}',
                PieceType::Queen => '\u{265B}',
                PieceType::Rook => '\u{265C}',
                PieceType::Bishop => '\u{265D}',
                PieceType::Knight => '\u{265E}',
                PieceType::Pawn => '\u{265F}',
            }),
    {
        match self.piece_type {
            PieceType::King => '\u{265A}',
            PieceType::Queen => '\u{265B}',
            PieceType::Rook => '\u{265C}',
            PieceType::Bishop => '\u{265D}',
            PieceType::Knight => '\u{265E}',
            PieceType::Pawn => '\u{265F}',
        }
    }

    /// The point value credited to the capturing side when this piece is
    /// captured.
    pub fn points(&self) -> (v: u32)
        ensures
            v == points_spec(*self),
    {
        match self.piece_type {
            PieceType::Pawn => 1,
            PieceType::Knight | PieceType::Bishop => 3,
            PieceType::Rook => 5,
            PieceType::Queen => 9,
            PieceType::King => 0,
        }
    }
}

} // verus!
