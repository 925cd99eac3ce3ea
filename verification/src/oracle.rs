//! The position oracle: the `chess` crate's board behind contracts.
//!
//! The contracts of the functions in this file are not proved. Each states
//! what the `chess` crate's source shows of the call it makes; the rest of
//! the library is verified against these statements.

use vstd::prelude::*;
use chess::Board;

verus! {

/// The `chess` crate's board. Its inside is not visible to the verifier.
#[verifier::external_type_specification]
#[verifier::external_body]
pub struct ExBoard(Board);

/// The position that a board holds, as the FEN text that `Board`'s `Display`
/// writes for it: the placement, the side to move, the castling rights and
/// the en-passant square. The names below take a board by this text, on the
/// ground that what else a `Board` keeps (pins, checkers, hash) is computed
/// from these.
pub uninterp spec fn fen_of(board: Board) -> Seq<char>;

/// Where the first blank of a text stands, at or after `from`: the length
/// of the text if there is none.
pub open spec fn first_blank(fen: Seq<char>, from: int) -> int
    decreases fen.len() - from,
{
    if from < 0 || from >= fen.len() || fen[from] == ' ' {
        from
    } else {
        first_blank(fen, from + 1)
    }
}

/// Whether White is to move in a position. In FEN text the side to move
/// stands behind the first blank, as `w` or `b`.
pub open spec fn white_to_move(fen: Seq<char>) -> bool {
    let side = first_blank(fen, 0) + 1;
    side < fen.len() && fen[side] == 'w'
}

/// What `Board::legal` answers for the move from one square to another,
/// without promotion, in a position.
pub uninterp spec fn legal_in(fen: Seq<char>, from: int, to: int) -> bool;

/// The position after `Board::make_move_new` has played the move from one
/// square to another, without promotion.
pub uninterp spec fn after_move(fen: Seq<char>, from: int, to: int) -> Seq<char>;

/// The position after `Board::null_move` has passed the turn: the same
/// placement with the other side to move, or nothing where the side to
/// move is in check.
pub uninterp spec fn after_pass(fen: Seq<char>) -> Option<Seq<char>>;

/// The squares on which a side has pieces of a kind, in the order in which
/// the `chess` crate's `BitBoard` hands them out.
pub uninterp spec fn occupied_in(fen: Seq<char>, color: int, piece: int) -> Seq<u8>;

/// The FEN text of the starting position.
pub open spec fn start_fen() -> Seq<char> {
    "rnbqkbnr/pppppppp/8/8/8/8/PPPPPPPP/RNBQKBNR w KQkq - 0 1"@
}

/// `Board::default`: the starting position.
#[verifier::external_body]
pub(crate) fn board_start() -> (board: Board)
    ensures
        fen_of(board) == start_fen(),
{
    Board::default()
}

/// `Board::side_to_move`: whether White is to move. `Display` writes the
/// side behind the first blank of the text, `w` for White.
#[verifier::external_body]
pub(crate) fn board_white_to_move(board: &Board) -> (white: bool)
    ensures
        white == white_to_move(fen_of(*board)),
{
    match board.side_to_move() {
        chess::Color::White => true,
        chess::Color::Black => false,
    }
}

/// `Board`'s `Display`: the FEN text of the position.
#[verifier::external_body]
pub(crate) fn board_fen(board: &Board) -> (fen: String)
    ensures
        fen@ == fen_of(*board),
{
    format!("{}", board)
}

/// `Board::pieces` and `Board::color_combined`, intersected and walked: the
/// squares on which the side `color` (0 White, 1 Black) has pieces of the
/// kind `piece` (0 pawn, 1 knight, 2 bishop, 3 rook, 4 queen, 5 king). A
/// `BitBoard` hands out the squares of its set bits from the lowest up, so
/// each is one of the 64 squares and they ascend.
#[verifier::external_body]
pub(crate) fn board_occupied(board: &Board, color: u8, piece: u8) -> (squares: Vec<u8>)
    requires
        color < 2,
        piece < 6,
    ensures
        squares@ == occupied_in(fen_of(*board), color as int, piece as int),
        forall|i: int| 0 <= i < squares@.len() ==> squares@[i] < 64,
        forall|i: int, j: int| 0 <= i < j < squares@.len() ==> squares@[i] < squares@[j],
{
    let side = chess::ALL_COLORS[color as usize];
    let kind = chess::ALL_PIECES[piece as usize];
    (board.pieces(kind) & board.color_combined(side)).map(|sq| sq.to_int()).collect()
}

/// `Board::legal` on the move from `from` to `to` without promotion: whether
/// the side to move may play it.
#[verifier::external_body]
pub(crate) fn board_legal(board: &Board, from: u8, to: u8) -> (legal: bool)
    requires
        from < 64,
        to < 64,
    ensures
        legal == legal_in(fen_of(*board), from as int, to as int),
{
    let m = chess::ChessMove::new(chess::ALL_SQUARES[from as usize], chess::ALL_SQUARES[to as usize], None);
    board.legal(m)
}

/// `Board::make_move_new` on a legal move from `from` to `to` without
/// promotion: the board after it, on which the other side is to move.
#[verifier::external_body]
pub(crate) fn board_apply(board: &Board, from: u8, to: u8) -> (next: Board)
    requires
        from < 64,
        to < 64,
        legal_in(fen_of(*board), from as int, to as int),
    ensures
        fen_of(next) == after_move(fen_of(*board), from as int, to as int),
        white_to_move(fen_of(next)) == !white_to_move(fen_of(*board)),
{
    let m = chess::ChessMove::new(chess::ALL_SQUARES[from as usize], chess::ALL_SQUARES[to as usize], None);
    board.make_move_new(m)
}

/// `Board::null_move`: the board with the same pieces on which the other
/// side is to move. There is none while the side to move is in check.
#[verifier::external_body]
pub(crate) fn board_pass(board: &Board) -> (passed: Option<Board>)
    ensures
        match passed {
            Some(next) => {
                &&& after_pass(fen_of(*board)) == Some(fen_of(next))
                &&& white_to_move(fen_of(next)) == !white_to_move(fen_of(*board))
            },
            None => after_pass(fen_of(*board)) is None,
        },
{
    board.null_move()
}

} // verus!
