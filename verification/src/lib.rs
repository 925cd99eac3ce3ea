//! Resolves chess moves written in Standard Algebraic Notation into
//! origin/destination square pairs, asking a position oracle for occupancy
//! and legality.

pub mod classify;
pub mod game;
pub mod laws;
pub mod model;
pub mod oracle;
pub mod processor;
pub mod resolve;
pub mod text;
pub mod tokens;

pub use model::{
    CastleSide, Color, MoveError, ParsedToken, PieceType, Played, ResolvedMove, Token, TokenError,
};
pub use processor::PgnProcessor;
