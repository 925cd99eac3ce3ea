//! The value types shared by the classifier, the resolver and the interpreter.

use vstd::prelude::*;

verus! {

/// The side whose turn it is.
#[derive(Clone, Copy, Debug, PartialEq, Eq, Structural)]
pub enum Color {
    White,
    Black,
}

impl Color {
    /// The other side.
    pub open spec fn other(self) -> Color {
        match self {
            Color::White => Color::Black,
            Color::Black => Color::White,
        }
    }

    /// 0 for White, 1 for Black: the number the oracle knows the side by.
    pub open spec fn index(self) -> int {
        match self {
            Color::White => 0,
            Color::Black => 1,
        }
    }

    pub fn toggled(self) -> (next: Color)
        ensures
            next == self.other(),
    {
        match self {
            Color::White => Color::Black,
            Color::Black => Color::White,
        }
    }

    pub fn to_index(self) -> (i: u8)
        ensures
            i == self.index(),
    {
        match self {
            Color::White => 0,
            Color::Black => 1,
        }
    }
}

/// The kind of a piece, as a move token names it.
#[derive(Clone, Copy, Debug, PartialEq, Eq, Structural)]
pub enum PieceType {
    Pawn,
    Knight,
    Bishop,
    Rook,
    Queen,
    King,
}

impl PieceType {
    /// 0 for a pawn up to 5 for a king: the number the oracle knows the kind by.
    pub open spec fn index(self) -> int {
        match self {
            PieceType::Pawn => 0,
            PieceType::Knight => 1,
            PieceType::Bishop => 2,
            PieceType::Rook => 3,
            PieceType::Queen => 4,
            PieceType::King => 5,
        }
    }

    pub fn to_index(self) -> (i: u8)
        ensures
            i == self.index(),
            i < 6,
    {
        match self {
            PieceType::Pawn => 0,
            PieceType::Knight => 1,
            PieceType::Bishop => 2,
            PieceType::Rook => 3,
            PieceType::Queen => 4,
            PieceType::King => 5,
        }
    }
}

/// The wing on which a king castles.
#[derive(Clone, Copy, Debug, PartialEq, Eq, Structural)]
pub enum CastleSide {
    KingSide,
    QueenSide,
}

/// What a move token says, before the position is looked at.
#[derive(Clone, Copy, Debug, PartialEq, Eq, Structural)]
pub struct ParsedToken {
    /// The kind of piece that moves.
    pub piece: PieceType,
    /// The file the piece starts from (0 for `a` up to 7 for `h`), if the token names it.
    pub file_hint: Option<u8>,
    /// The rank the piece starts from (0 for `1` up to 7 for `8`), if the token names it.
    pub rank_hint: Option<u8>,
    /// Whether the token marks a capture.
    pub capture: bool,
    /// The square the piece moves to.
    pub target: u8,
}

/// The shape of a well-formed token.
#[derive(Clone, Copy, Debug, PartialEq, Eq, Structural)]
pub enum Token {
    Castle(CastleSide),
    Move(ParsedToken),
}

/// Why a token has no shape.
#[derive(Clone, Copy, Debug, PartialEq, Eq, Structural)]
pub enum TokenError {
    /// The token matches none of the shapes.
    Malformed,
    /// The token is a pawn move with a promotion suffix, which is not resolved.
    PromotionUnsupported,
}

/// A move with its origin found.
#[derive(Clone, Copy, Debug, PartialEq, Eq, Structural)]
pub struct ResolvedMove {
    pub origin: u8,
    pub destination: u8,
}

/// What a token did to the game.
#[derive(Clone, Copy, Debug, PartialEq, Eq, Structural)]
pub enum Played {
    Move(ResolvedMove),
    Castle(CastleSide),
}

/// The file of a square, 0 for `a` up to 7 for `h`.
pub open spec fn file_of(square: u8) -> int {
    square as int % 8
}

/// The rank of a square, 0 for the first rank up to 7 for the eighth.
pub open spec fn rank_of(square: u8) -> int {
    square as int / 8
}

/// The square on a file and a rank: eight squares to a rank.
pub open spec fn square_at(file: int, rank: int) -> int {
    rank * 8 + file
}

/// Why a token produced no move.
#[derive(Clone, Debug, PartialEq, Eq)]
pub enum MoveError {
    /// The token matches none of the shapes.
    MalformedToken,
    /// No piece of the named kind can legally make the move.
    UnresolvedMove,
    /// More than one piece of the named kind can legally make the move: these origins.
    AmbiguousMove(Vec<u8>),
    /// The token is a promotion, which is not resolved.
    PromotionUnsupported,
}

/// A `MoveError` as contracts speak of it.
pub enum Failure {
    Malformed,
    Unresolved,
    Ambiguous(Seq<u8>),
    PromotionUnsupported,
}

impl View for MoveError {
    type V = Failure;

    open spec fn view(&self) -> Failure {
        match self {
            MoveError::MalformedToken => Failure::Malformed,
            MoveError::UnresolvedMove => Failure::Unresolved,
            MoveError::AmbiguousMove(origins) => Failure::Ambiguous(origins@),
            MoveError::PromotionUnsupported => Failure::PromotionUnsupported,
        }
    }
}

/// A result as contracts speak of it: the error by its view.
pub open spec fn lift<T>(r: Result<T, MoveError>) -> Result<T, Failure> {
    match r {
        Ok(v) => Ok(v),
        Err(e) => Err(e@),
    }
}

} // verus!
