//! What holds of the interpreter in every position and for every token.

use vstd::prelude::*;
use crate::classify::{file_index, is_file_char, is_square_text, sanitized, token_shape};
use crate::game::{
    GameState, applied, candidates, castle_move, castled, end_state, in_step, legal_filter,
    legal_step, outcomes, played_count, resolution, start_state, step_outcome, step_state,
    turn_after,
};
use crate::model::{
    CastleSide, Failure, ParsedToken, PieceType, Played, ResolvedMove, Token, TokenError, file_of,
};
use crate::oracle::{after_move, after_pass, occupied_in};
use crate::resolve::{agrees_with_hints, hint_filter, hinted, lemma_filter_keeps_members};
use crate::text::played_text;
use crate::tokens::move_tokens;

verus! {

/// The resolver never guesses. An origin is returned only if it is the one
/// candidate; it is then a square of the side's pieces of the token's kind,
/// it agrees with the hints, and the move from it is legal. With several
/// candidates the answer is `Ambiguous` with all of them, and with none it
/// is `Unresolved`.
pub proof fn resolution_never_guesses(state: GameState, parsed: ParsedToken)
    ensures
        match resolution(state, parsed) {
            Ok(origin) => {
                &&& candidates(state, parsed) == seq![origin]
                &&& occupied_in(
                    state.position,
                    state.turn.index(),
                    parsed.piece.index(),
                ).contains(origin)
                &&& agrees_with_hints(parsed, origin)
                &&& legal_step(state, origin, parsed.target)
            },
            Err(Failure::Ambiguous(origins)) => {
                origins == candidates(state, parsed) && origins.len() > 1
            },
            Err(Failure::Unresolved) => candidates(state, parsed).len() == 0,
            Err(_) => false,
        },
{
    let occupied = occupied_in(state.position, state.turn.index(), parsed.piece.index());
    let by_hints = hinted(occupied, parsed);
    let survivors = candidates(state, parsed);
    if survivors.len() == 1 {
        let origin = survivors[0];
        assert(survivors =~= seq![origin]);
        assert(survivors.contains(origin));
        assert(by_hints.contains(origin)) by {
            lemma_filter_keeps_members(by_hints, legal_filter(state, parsed.target), origin);
        }
        assert(occupied.contains(origin) && agrees_with_hints(parsed, origin)) by {
            lemma_filter_keeps_members(occupied, hint_filter(parsed), origin);
        }
    }
}

/// A pawn token is never resolved by a guess. It carries no rank hint, and
/// a file hint exactly when it is a capture. If it plays a move, the origin
/// is the one pawn that can legally make it, on the named file if the token
/// is a capture. If several pawns can, it fails as `Ambiguous` with all of
/// them; if none can, as `Unresolved`.
pub proof fn pawn_token_never_guesses(state: GameState, token: Seq<char>, parsed: ParsedToken)
    requires
        sanitized(token).len() > 0,
        is_file_char(sanitized(token)[0]),
        token_shape(sanitized(token)) == Ok::<Token, TokenError>(Token::Move(parsed)),
    ensures
        parsed.piece == PieceType::Pawn,
        parsed.rank_hint is None,
        parsed.capture <==> parsed.file_hint is Some,
        parsed.capture ==> parsed.file_hint == Some(file_index(sanitized(token)[0]) as u8),
        match step_outcome(state, token) {
            Ok(Played::Move(m)) => {
                &&& candidates(state, parsed) == seq![m.origin]
                &&& m.destination == parsed.target
                &&& legal_step(state, m.origin, m.destination)
                &&& parsed.capture ==> file_of(m.origin) == file_index(sanitized(token)[0])
            },
            Ok(Played::Castle(_)) => false,
            Err(Failure::Ambiguous(origins)) => {
                origins == candidates(state, parsed) && origins.len() > 1
            },
            Err(Failure::Unresolved) => candidates(state, parsed).len() == 0,
            Err(_) => false,
        },
{
    resolution_never_guesses(state, parsed);
}

/// Playing a token and handing its squares to the oracle are the same
/// thing: after a token that plays a move, the state is the one in which
/// the oracle has applied that move, and the turn has passed.
pub proof fn played_move_is_oracle_move(state: GameState, token: Seq<char>, m: ResolvedMove)
    requires
        step_outcome(state, token) == Ok::<Played, Failure>(Played::Move(m)),
    ensures
        legal_step(state, m.origin, m.destination),
        step_state(state, token) == applied(state, m),
        step_state(state, token).position == after_move(
            state.position,
            m.origin as int,
            m.destination as int,
        ),
        step_state(state, token).turn == state.turn.other(),
{
    match token_shape(sanitized(token)) {
        Ok(Token::Move(parsed)) => {
            resolution_never_guesses(state, parsed);
        },
        _ => {},
    }
}

/// A castle token is played in every state, by either side: it comes back
/// as it stands, and the turn passes. The position is the one after the
/// king's move where the oracle finds that move legal; where it does not,
/// it is the one in which the oracle has passed the turn, or the same one
/// where the oracle cannot pass.
pub proof fn castle_is_always_played(state: GameState, token: Seq<char>, side: CastleSide)
    requires
        token_shape(sanitized(token)) == Ok::<Token, TokenError>(Token::Castle(side)),
    ensures
        step_outcome(state, token) == Ok::<Played, Failure>(Played::Castle(side)),
        played_text(Played::Castle(side)) == sanitized(token),
        step_state(state, token) == castled(state, side),
        step_state(state, token).turn == state.turn.other(),
        ({
            let king = castle_move(state.turn, side);
            step_state(state, token).position == if legal_step(
                state,
                king.origin,
                king.destination,
            ) {
                after_move(state.position, king.origin as int, king.destination as int)
            } else if after_pass(state.position) is Some {
                after_pass(state.position)->0
            } else {
                state.position
            }
        }),
{
}

/// A token that fails changes nothing.
pub proof fn failed_token_changes_nothing(state: GameState, token: Seq<char>)
    requires
        step_outcome(state, token) is Err,
    ensures
        step_state(state, token) == state,
{
}

/// After a reset the same move text gives the same outcomes and the same
/// end, whatever was played before.
pub proof fn same_text_same_outcomes_from_start(
    first: GameState,
    second: GameState,
    text: Seq<char>,
)
    requires
        first == start_state(),
        second == start_state(),
    ensures
        outcomes(first, move_tokens(text)) == outcomes(second, move_tokens(text)),
        end_state(first, move_tokens(text)) == end_state(second, move_tokens(text)),
{
}

/// A token of at most two characters is malformed, unless it is a square
/// written out, which is a pawn move.
pub proof fn short_token_is_malformed(state: GameState, token: Seq<char>)
    requires
        token.len() <= 2,
        !is_square_text(token),
    ensures
        token_shape(token) == Err::<Token, TokenError>(TokenError::Malformed),
        step_outcome(state, token) == Err::<Played, Failure>(Failure::Malformed),
{
    reveal_with_fuel(sanitized, 3);
    let t = sanitized(token);
    assert(t.len() <= 2);
    if t.len() == 2 {
        assert(t == token);
    }
    if t.len() >= 1 {
        assert(t[0] == token[0]);
    }
}

/// Where interpreter and oracle disagree on the side to move, no move is
/// legal for the interpreter's side: no token has a candidate, and every
/// move token is unresolved.
pub proof fn out_of_step_nothing_resolves(state: GameState, parsed: ParsedToken)
    requires
        !in_step(state),
    ensures
        candidates(state, parsed).len() == 0,
        resolution(state, parsed) == Err::<u8, Failure>(Failure::Unresolved),
{
    let survivors = candidates(state, parsed);
    if survivors.len() > 0 {
        assert(survivors.contains(survivors[0]));
        lemma_filter_keeps_members(
            hinted(occupied_in(state.position, state.turn.index(), parsed.piece.index()), parsed),
            legal_filter(state, parsed.target),
            survivors[0],
        );
    }
}

/// The turn passes with a token exactly if the token is played.
pub proof fn turn_passes_with_a_played_token(state: GameState, token: Seq<char>)
    ensures
        step_state(state, token).turn == if step_outcome(state, token) is Ok {
            state.turn.other()
        } else {
            state.turn
        },
{
    match token_shape(sanitized(token)) {
        Ok(Token::Move(parsed)) => {
            resolution_never_guesses(state, parsed);
        },
        _ => {},
    }
}

/// There is one outcome for each token.
pub proof fn one_outcome_for_each_token(state: GameState, tokens: Seq<Seq<char>>)
    ensures
        outcomes(state, tokens).len() == tokens.len(),
    decreases tokens.len(),
{
    if tokens.len() > 0 {
        one_outcome_for_each_token(step_state(state, tokens[0]), tokens.drop_first());
    }
}

/// The outcomes come in the order of the tokens: each is what its token
/// does in the state that the tokens before it have left.
pub proof fn outcome_belongs_to_its_token(state: GameState, tokens: Seq<Seq<char>>, i: int)
    requires
        0 <= i < tokens.len(),
    ensures
        outcomes(state, tokens).len() == tokens.len(),
        outcomes(state, tokens)[i] == step_outcome(end_state(state, tokens.take(i)), tokens[i]),
    decreases i,
{
    one_outcome_for_each_token(state, tokens);
    let rest = tokens.drop_first();
    let next = step_state(state, tokens[0]);
    one_outcome_for_each_token(next, rest);
    if i == 0 {
        assert(tokens.take(0) =~= Seq::<Seq<char>>::empty());
    } else {
        outcome_belongs_to_its_token(next, rest, i - 1);
        assert(tokens.take(i).drop_first() =~= rest.take(i - 1));
        assert(tokens.take(i)[0] == tokens[0]);
        assert(rest[i - 1] == tokens[i]);
    }
}

/// After a run of tokens the turn has passed once for each played token,
/// and not at all for the failed ones.
pub proof fn turn_passes_once_for_each_played_token(state: GameState, tokens: Seq<Seq<char>>)
    ensures
        end_state(state, tokens).turn == turn_after(
            state.turn,
            played_count(outcomes(state, tokens)),
        ),
    decreases tokens.len(),
{
    if tokens.len() > 0 {
        let next = step_state(state, tokens[0]);
        let rest = tokens.drop_first();
        turn_passes_with_a_played_token(state, tokens[0]);
        turn_passes_once_for_each_played_token(next, rest);
        let all = outcomes(state, tokens);
        assert(all.drop_first() =~= outcomes(next, rest));
        assert(all[0] == step_outcome(state, tokens[0]));
    }
}

} // verus!
