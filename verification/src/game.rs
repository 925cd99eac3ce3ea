//! The game as the interpreter sees it: a position, the side to move, and
//! what each token does to them.
//!
//! These are the statements that the interpreter's functions are proved
//! against. The position is the oracle's, as FEN text; what the oracle
//! answers about it is named in `oracle`.

use vstd::prelude::*;
use crate::classify::{sanitized, token_shape};
use crate::model::{
    CastleSide, Color, Failure, ParsedToken, Played, ResolvedMove, Token, TokenError,
};
use crate::oracle::{
    after_move, after_pass, first_blank, legal_in, occupied_in, start_fen, white_to_move,
};
use crate::resolve::{hinted, unique_of};
use crate::text::played_text;

verus! {

/// The state of a game between two tokens.
pub struct GameState {
    /// The position, as FEN text.
    pub position: Seq<char>,
    /// The side to move, as the interpreter keeps it.
    pub turn: Color,
}

/// The state in which every game starts.
pub open spec fn start_state() -> GameState {
    GameState { position: start_fen(), turn: Color::White }
}

/// Every game starts with White to move, for the interpreter and in the
/// position.
pub proof fn start_is_in_step()
    ensures
        in_step(start_state()),
{
    reveal_strlit("rnbqkbnr/pppppppp/8/8/8/8/PPPPPPPP/RNBQKBNR w KQkq - 0 1");
    reveal_with_fuel(first_blank, 48);
    assert(first_blank(start_fen(), 0) == 43);
}

/// Whether the interpreter and the oracle agree on the side to move.
pub open spec fn in_step(state: GameState) -> bool {
    white_to_move(state.position) == (state.turn == Color::White)
}

/// Whether the side that the interpreter has to move may play from one
/// square to another. The oracle answers for the side that it has to move
/// itself, so its answer counts only where the two agree on the side. A
/// number that is no square is never part of a legal move.
pub open spec fn legal_step(state: GameState, from: u8, to: u8) -> bool {
    in_step(state) && from < 64 && to < 64 && legal_in(state.position, from as int, to as int)
}

/// `legal_step` to a fixed target, as a predicate on origins.
pub open spec fn legal_filter(state: GameState, target: u8) -> spec_fn(u8) -> bool {
    |origin: u8| legal_step(state, origin, target)
}

/// The origins that a token can mean: the squares on which the side to move
/// has pieces of the token's kind, narrowed by the hints, then by legality.
pub open spec fn candidates(state: GameState, parsed: ParsedToken) -> Seq<u8> {
    hinted(
        occupied_in(state.position, state.turn.index(), parsed.piece.index()),
        parsed,
    ).filter(legal_filter(state, parsed.target))
}

/// The origin that a token means, or why it means none.
pub open spec fn resolution(state: GameState, parsed: ParsedToken) -> Result<u8, Failure> {
    unique_of(candidates(state, parsed))
}

/// The king's move that castles: from the e-file to the g-file or the
/// c-file, on the first rank for White and on the eighth for Black.
pub open spec fn castle_move(turn: Color, side: CastleSide) -> ResolvedMove {
    match (turn, side) {
        (Color::White, CastleSide::KingSide) => ResolvedMove { origin: 4, destination: 6 },
        (Color::White, CastleSide::QueenSide) => ResolvedMove { origin: 4, destination: 2 },
        (Color::Black, CastleSide::KingSide) => ResolvedMove { origin: 60, destination: 62 },
        (Color::Black, CastleSide::QueenSide) => ResolvedMove { origin: 60, destination: 58 },
    }
}

/// What a token does in a state: the move it plays, or why it plays none.
/// A castle token is always played: it is taken as it stands.
pub open spec fn step_outcome(state: GameState, token: Seq<char>) -> Result<Played, Failure> {
    match token_shape(sanitized(token)) {
        Err(TokenError::Malformed) => Err(Failure::Malformed),
        Err(TokenError::PromotionUnsupported) => Err(Failure::PromotionUnsupported),
        Ok(Token::Castle(side)) => Ok(Played::Castle(side)),
        Ok(Token::Move(parsed)) => match resolution(state, parsed) {
            Ok(origin) => Ok(Played::Move((ResolvedMove { origin, destination: parsed.target }))),
            Err(failure) => Err(failure),
        },
    }
}

/// The state after the oracle has applied a move, if it is legal: the new
/// position, and the other side to move. An illegal move changes nothing.
pub open spec fn applied(state: GameState, m: ResolvedMove) -> GameState {
    if legal_step(state, m.origin, m.destination) {
        GameState {
            position: after_move(state.position, m.origin as int, m.destination as int),
            turn: state.turn.other(),
        }
    } else {
        state
    }
}

/// The state after the turn has passed without a move: the other side to
/// move, and the position in which the oracle has passed the turn too. The
/// oracle cannot pass while the side to move is in check: the position then
/// stays as it is.
pub open spec fn passed(state: GameState) -> GameState {
    GameState {
        position: match after_pass(state.position) {
            Some(position) => position,
            None => state.position,
        },
        turn: state.turn.other(),
    }
}

/// The state after a castle. Where the oracle finds the king's move legal,
/// it has played it. Where it does not, the pieces stay where they are and
/// the turn passes all the same.
pub open spec fn castled(state: GameState, side: CastleSide) -> GameState {
    let king = castle_move(state.turn, side);
    if legal_step(state, king.origin, king.destination) {
        applied(state, king)
    } else {
        passed(state)
    }
}

/// Whether the oracle can go along with a castle: it plays the king's move,
/// or it passes the turn.
pub open spec fn castle_followed(state: GameState, side: CastleSide) -> bool {
    let king = castle_move(state.turn, side);
    legal_step(state, king.origin, king.destination) || after_pass(state.position) is Some
}

/// Whether the oracle can go along with a token. It can with every token
/// but a castle that it refuses while the side to move is in check.
pub open spec fn oracle_follows(state: GameState, token: Seq<char>) -> bool {
    token_shape(sanitized(token)) matches Ok(Token::Castle(side)) ==> castle_followed(state, side)
}

/// The state after a token: after its move or its castle if it plays one,
/// unchanged if not.
pub open spec fn step_state(state: GameState, token: Seq<char>) -> GameState {
    match step_outcome(state, token) {
        Ok(Played::Move(m)) => applied(state, m),
        Ok(Played::Castle(side)) => castled(state, side),
        Err(_) => state,
    }
}

/// Whether the oracle can go along with each of a run of tokens, from a
/// state on.
pub open spec fn oracle_follows_all(state: GameState, tokens: Seq<Seq<char>>) -> bool
    decreases tokens.len(),
{
    tokens.len() > 0 ==> {
        &&& oracle_follows(state, tokens[0])
        &&& oracle_follows_all(step_state(state, tokens[0]), tokens.drop_first())
    }
}

/// What each of a run of tokens does, from a state on.
pub open spec fn outcomes(state: GameState, tokens: Seq<Seq<char>>) -> Seq<Result<Played, Failure>>
    decreases tokens.len(),
{
    if tokens.len() == 0 {
        Seq::empty()
    } else {
        seq![step_outcome(state, tokens[0])] + outcomes(
            step_state(state, tokens[0]),
            tokens.drop_first(),
        )
    }
}

/// The state after a run of tokens.
pub open spec fn end_state(state: GameState, tokens: Seq<Seq<char>>) -> GameState
    decreases tokens.len(),
{
    if tokens.len() == 0 {
        state
    } else {
        end_state(step_state(state, tokens[0]), tokens.drop_first())
    }
}

/// A played token written out; a failure as it is.
pub open spec fn text_or_failure() -> spec_fn(Result<Played, Failure>) -> Result<
    Seq<char>,
    Failure,
> {
    |outcome: Result<Played, Failure>|
        match outcome {
            Ok(played) => Ok(played_text(played)),
            Err(failure) => Err(failure),
        }
}

/// How many of the outcomes are played tokens.
pub open spec fn played_count(results: Seq<Result<Played, Failure>>) -> nat
    decreases results.len(),
{
    if results.len() == 0 {
        0
    } else {
        (if results[0] is Ok { 1nat } else { 0nat }) + played_count(results.drop_first())
    }
}

/// The side to move after the turn has passed a number of times.
pub open spec fn turn_after(turn: Color, passes: nat) -> Color {
    if passes % 2 == 0 {
        turn
    } else {
        turn.other()
    }
}

} // verus!
