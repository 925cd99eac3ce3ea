//! The move interpreter: one oracle board, the side to move, and the
//! tokens of a game played on them one after the other.

use vstd::prelude::*;
use chess::Board;
use crate::classify::{classify_chars, strip_check_marks};
use crate::game::{
    GameState, applied, candidates, castle_followed, castled, end_state, in_step, legal_filter,
    legal_step, oracle_follows, oracle_follows_all, outcomes, resolution, start_is_in_step,
    start_state, step_outcome, step_state, text_or_failure,
};
use crate::model::{
    CastleSide, Color, Failure, MoveError, ParsedToken, Played, ResolvedMove, Token, TokenError,
    lift,
};
use crate::oracle::{
    board_apply, board_fen, board_legal, board_occupied, board_pass, board_start,
    board_white_to_move, fen_of,
};
use crate::resolve::{
    ascending_squares, filter_by_hints, hint_filter, lemma_filter_keeps_ascending, pick_unique,
};
use crate::text::{chars_of, render};
use crate::tokens::{move_tokens, texts, tokenize};

verus! {

/// Plays the moves of a game, token by token, on a board of its own.
pub struct PgnProcessor {
    board: Board,
    current_turn: Color,
}

impl View for PgnProcessor {
    type V = GameState;

    closed spec fn view(&self) -> GameState {
        GameState { position: fen_of(self.board), turn: self.current_turn }
    }
}

/// The outcomes as contracts speak of them: each error by its view.
pub open spec fn lifted(results: Seq<Result<Played, MoveError>>) -> Seq<Result<Played, Failure>> {
    Seq::new(results.len(), |i: int| lift(results[i]))
}

/// An entry as contracts speak of it: a text by its characters, an error
/// by its view.
pub open spec fn entry_view(entry: Result<String, MoveError>) -> Result<Seq<char>, Failure> {
    match entry {
        Ok(text) => Ok(text@),
        Err(e) => Err(e@),
    }
}

/// The entries as contracts speak of them.
pub open spec fn written(entries: Seq<Result<String, MoveError>>) -> Seq<
    Result<Seq<char>, Failure>,
> {
    Seq::new(entries.len(), |i: int| entry_view(entries[i]))
}

/// Writes out an outcome: a played token as its text, a failure as it is.
pub fn write_outcome(outcome: Result<Played, MoveError>) -> (entry: Result<String, MoveError>)
    ensures
        entry_view(entry) == text_or_failure()(lift(outcome)),
{
    match outcome {
        Ok(played) => Ok(render(&played)),
        Err(e) => Err(e),
    }
}

/// The king's move that castles for a side on a wing.
pub fn castle_squares(turn: Color, side: CastleSide) -> (king: ResolvedMove)
    ensures
        king == crate::game::castle_move(turn, side),
{
    match (turn, side) {
        (Color::White, CastleSide::KingSide) => ResolvedMove { origin: 4, destination: 6 },
        (Color::White, CastleSide::QueenSide) => ResolvedMove { origin: 4, destination: 2 },
        (Color::Black, CastleSide::KingSide) => ResolvedMove { origin: 60, destination: 62 },
        (Color::Black, CastleSide::QueenSide) => ResolvedMove { origin: 60, destination: 58 },
    }
}

impl PgnProcessor {
    /// A processor at the start of a game.
    pub fn new() -> (processor: Self)
        ensures
            processor@ == start_state(),
            in_step(processor@),
    {
        proof {
            start_is_in_step();
        }
        PgnProcessor { board: board_start(), current_turn: Color::White }
    }

    /// Goes back to the start of a game.
    pub fn reset(&mut self)
        ensures
            final(self)@ == start_state(),
            in_step(final(self)@),
    {
        proof {
            start_is_in_step();
        }
        self.board = board_start();
        self.current_turn = Color::White;
    }

    /// The side to move.
    pub fn side_to_move(&self) -> (turn: Color)
        ensures
            turn == self@.turn,
    {
        self.current_turn
    }

    /// Whether the oracle has the same side to move as this processor.
    pub fn agrees_with_oracle(&self) -> (agrees: bool)
        ensures
            agrees == in_step(self@),
    {
        let white = board_white_to_move(&self.board);
        match self.current_turn {
            Color::White => white,
            Color::Black => !white,
        }
    }

    /// The position, as FEN text.
    pub fn fen(&self) -> (text: String)
        ensures
            text@ == self@.position,
    {
        board_fen(&self.board)
    }

    /// Whether the side that this processor has to move may play from one
    /// square to another. The oracle is asked only where it has the same
    /// side to move.
    pub fn is_legal(&self, from: u8, to: u8) -> (legal: bool)
        ensures
            legal == legal_step(self@, from, to),
    {
        self.agrees_with_oracle() && from < 64 && to < 64 && board_legal(&self.board, from, to)
    }

    /// Keeps the origins from which the move to `target` is legal.
    fn legal_origins(&self, origins: &Vec<u8>, target: u8) -> (kept: Vec<u8>)
        ensures
            kept@ == origins@.filter(legal_filter(self@, target)),
    {
        let mut kept: Vec<u8> = Vec::new();
        let mut i: usize = 0;
        while i < origins.len()
            invariant
                i <= origins@.len(),
                kept@ == origins@.take(i as int).filter(legal_filter(self@, target)),
            decreases origins@.len() - i,
        {
            proof {
                reveal(Seq::filter);
                assert(origins@.take(i + 1).drop_last() =~= origins@.take(i as int));
            }
            if self.is_legal(origins[i], target) {
                kept.push(origins[i]);
            }
            i += 1;
        }
        assert(origins@.take(i as int) =~= origins@);
        kept
    }

    /// Finds the origin that a token means: the one square, among those on
    /// which the side to move has pieces of the token's kind, that agrees
    /// with the hints and from which the move is legal.
    pub fn resolve(&self, parsed: &ParsedToken) -> (origin: Result<u8, MoveError>)
        ensures
            lift(origin) == resolution(self@, *parsed),
            origin matches Err(MoveError::AmbiguousMove(origins)) ==> ascending_squares(origins@),
    {
        let occupied = board_occupied(
            &self.board,
            self.current_turn.to_index(),
            parsed.piece.to_index(),
        );
        let by_hints = filter_by_hints(&occupied, parsed);
        let survivors = self.legal_origins(&by_hints, parsed.target);
        proof {
            lemma_filter_keeps_ascending(occupied@, hint_filter(*parsed));
            lemma_filter_keeps_ascending(by_hints@, legal_filter(self@, parsed.target));
        }
        pick_unique(survivors)
    }

    /// Has the oracle play a move, if it is legal, and passes the turn.
    /// Says whether the move was played.
    pub fn apply(&mut self, m: ResolvedMove) -> (played: bool)
        ensures
            played == legal_step(old(self)@, m.origin, m.destination),
            final(self)@ == applied(old(self)@, m),
            in_step(old(self)@) ==> in_step(final(self)@),
    {
        if self.is_legal(m.origin, m.destination) {
            self.board = board_apply(&self.board, m.origin, m.destination);
            self.current_turn = self.current_turn.toggled();
            true
        } else {
            false
        }
    }

    /// Castles for the side to move, and passes the turn. Where the oracle
    /// finds the king's move legal, it plays it. Where it does not, the
    /// pieces stay where they are and the oracle passes the turn too. It
    /// cannot do so while the side to move is in check: the board then stays
    /// as it is, and processor and oracle no longer agree on the side to move.
    pub fn castle(&mut self, side: CastleSide)
        ensures
            final(self)@ == castled(old(self)@, side),
            final(self)@.turn == old(self)@.turn.other(),
            in_step(old(self)@) && castle_followed(old(self)@, side) ==> in_step(final(self)@),
            in_step(old(self)@) && !castle_followed(old(self)@, side) ==> !in_step(final(self)@),
    {
        let king = castle_squares(self.current_turn, side);
        if !self.apply(king) {
            match board_pass(&self.board) {
                Some(next) => {
                    self.board = next;
                },
                None => {},
            }
            self.current_turn = self.current_turn.toggled();
        }
    }

    /// Plays one token given by its characters.
    pub fn process_chars(&mut self, token: &Vec<char>) -> (outcome: Result<Played, MoveError>)
        ensures
            lift(outcome) == step_outcome(old(self)@, token@),
            final(self)@ == step_state(old(self)@, token@),
            outcome is Err ==> final(self)@ == old(self)@,
            outcome is Ok ==> final(self)@.turn == old(self)@.turn.other(),
            outcome matches Err(MoveError::AmbiguousMove(origins)) ==> ascending_squares(origins@),
            in_step(old(self)@) && oracle_follows(old(self)@, token@) ==> in_step(final(self)@),
    {
        let cleaned = strip_check_marks(token);
        match classify_chars(&cleaned) {
            Err(TokenError::Malformed) => Err(MoveError::MalformedToken),
            Err(TokenError::PromotionUnsupported) => Err(MoveError::PromotionUnsupported),
            Ok(Token::Castle(side)) => {
                self.castle(side);
                Ok(Played::Castle(side))
            },
            Ok(Token::Move(parsed)) => match self.resolve(&parsed) {
                Ok(origin) => {
                    let m = ResolvedMove { origin, destination: parsed.target };
                    proof {
                        let survivors = candidates(self@, parsed);
                        assert(survivors.len() == 1 && survivors[0] == origin);
                        crate::resolve::hinted(
                            crate::oracle::occupied_in(
                                self@.position,
                                self@.turn.index(),
                                parsed.piece.index(),
                            ),
                            parsed,
                        ).lemma_filter_pred(legal_filter(self@, parsed.target), 0);
                        assert(legal_step(self@, origin, parsed.target));
                    }
                    let played = self.apply(m);
                    assert(played);
                    Ok(Played::Move(m))
                },
                Err(e) => Err(e),
            },
        }
    }

    /// Plays one token: finds the move it means in the position, has the
    /// oracle play it and passes the turn. A token that fails changes
    /// neither the position nor the turn.
    pub fn process_move(&mut self, token: &str) -> (outcome: Result<Played, MoveError>)
        ensures
            lift(outcome) == step_outcome(old(self)@, token@),
            final(self)@ == step_state(old(self)@, token@),
            outcome is Err ==> final(self)@ == old(self)@,
            outcome is Ok ==> final(self)@.turn == old(self)@.turn.other(),
            outcome matches Err(MoveError::AmbiguousMove(origins)) ==> ascending_squares(origins@),
            in_step(old(self)@) && oracle_follows(old(self)@, token@) ==> in_step(final(self)@),
    {
        let chars = chars_of(token);
        self.process_chars(&chars)
    }

    /// Plays the move tokens of a move text in order, and reports what each
    /// did: the move it played, or why it played none. A token that fails
    /// is passed over, and the game goes on from the same state.
    pub fn process(&mut self, pgn: &str) -> (results: Vec<Result<Played, MoveError>>)
        ensures
            lifted(results@) == outcomes(old(self)@, move_tokens(pgn@)),
            results@.len() == move_tokens(pgn@).len(),
            final(self)@ == end_state(old(self)@, move_tokens(pgn@)),
            in_step(old(self)@) && oracle_follows_all(old(self)@, move_tokens(pgn@)) ==> in_step(
                final(self)@,
            ),
    {
        let chars = chars_of(pgn);
        let tokens = tokenize(&chars);
        let ghost all = texts(tokens@);
        let ghost start = self@;
        let mut results: Vec<Result<Played, MoveError>> = Vec::new();
        let mut i: usize = 0;
        assert(all.skip(0) =~= all);
        assert(lifted(results@) + outcomes(start, all) =~= outcomes(start, all));
        while i < tokens.len()
            invariant
                i <= tokens@.len(),
                results@.len() == i,
                all == texts(tokens@),
                lifted(results@) + outcomes(self@, all.skip(i as int)) == outcomes(start, all),
                end_state(self@, all.skip(i as int)) == end_state(start, all),
                oracle_follows_all(start, all) ==> oracle_follows_all(self@, all.skip(i as int)),
                in_step(start) && oracle_follows_all(start, all) ==> in_step(self@),
            decreases tokens@.len() - i,
        {
            let ghost state = self@;
            let ghost so_far = lifted(results@);
            let outcome = self.process_chars(&tokens[i]);
            results.push(outcome);
            proof {
                let rest = all.skip(i as int);
                assert(rest[0] == tokens@[i as int]@);
                assert(rest.drop_first() =~= all.skip(i + 1));
                assert(lifted(results@) =~= so_far + seq![lift(outcome)]);
                assert(lifted(results@) + outcomes(self@, all.skip(i + 1)) =~= so_far + outcomes(
                    state,
                    rest,
                ));
            }
            i += 1;
        }
        assert(lifted(results@) + Seq::<Result<Played, Failure>>::empty() =~= lifted(results@));
        results
    }

    /// Plays the move tokens of a move text in order, and reports for each
    /// what it did: its text, if it played (a move as four characters,
    /// origin and destination; a castle as its token), or why it did not.
    /// There is one entry for each move token, in the order of the text.
    pub fn process_pgn(&mut self, pgn: &str) -> (entries: Vec<Result<String, MoveError>>)
        ensures
            written(entries@) == outcomes(old(self)@, move_tokens(pgn@)).map_values(
                text_or_failure(),
            ),
            entries@.len() == move_tokens(pgn@).len(),
            final(self)@ == end_state(old(self)@, move_tokens(pgn@)),
            in_step(old(self)@) && oracle_follows_all(old(self)@, move_tokens(pgn@)) ==> in_step(
                final(self)@,
            ),
    {
        let results = self.process(pgn);
        let ghost raw = results@;
        let mut entries: Vec<Result<String, MoveError>> = Vec::new();
        for outcome in it: results
            invariant
                it.seq() == raw,
                entries@.len() == it.index(),
                forall|j: int|
                    0 <= j < entries@.len() ==> written(entries@)[j] == text_or_failure()(
                        lift(raw[j]),
                    ),
        {
            let ghost before = entries@;
            let entry = write_outcome(outcome);
            entries.push(entry);
            assert forall|j: int| 0 <= j < entries@.len() implies written(entries@)[j]
                == text_or_failure()(lift(raw[j])) by {
                if j < before.len() {
                    assert(entries@[j] == before[j]);
                    assert(written(before)[j] == text_or_failure()(lift(raw[j])));
                }
            }
        }
        assert(written(entries@) =~= lifted(raw).map_values(text_or_failure()));
        entries
    }
}

} // verus!
