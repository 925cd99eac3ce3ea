//! The token classifier: from the characters of one move token to its shape.
//!
//! A token is a castle (`O-O`, `O-O-O`), a pawn move (`e4`, `exd5`) or a
//! piece move (`Nf3`, `Nbd2`, `R1a3`, `Qh4xe1`). The grammar is stated by
//! `token_shape`; `classify` computes it.

use vstd::prelude::*;
use crate::model::{CastleSide, ParsedToken, PieceType, Token, TokenError, square_at};
use crate::text::{chars_of, copy_range};

verus! {

/// A file letter, `a` to `h`.
pub open spec fn is_file_char(c: char) -> bool {
    'a' <= c && c <= 'h'
}

/// A rank digit, `1` to `8`.
pub open spec fn is_rank_char(c: char) -> bool {
    '1' <= c && c <= '8'
}

/// The file that a file letter names, 0 for `a` up to 7 for `h`.
pub open spec fn file_index(c: char) -> int {
    c as int - 'a' as int
}

/// The rank that a rank digit names, 0 for `1` up to 7 for `8`.
pub open spec fn rank_index(c: char) -> int {
    c as int - '1' as int
}

/// A square written out: a file letter, then a rank digit.
pub open spec fn is_square_text(s: Seq<char>) -> bool {
    s.len() == 2 && is_file_char(s[0]) && is_rank_char(s[1])
}

/// The square that a square text names.
pub open spec fn square_of_text(s: Seq<char>) -> u8 {
    square_at(file_index(s[0]), rank_index(s[1])) as u8
}

/// The kind of piece that a leading letter names. A pawn has no letter.
pub open spec fn piece_of_letter(c: char) -> Option<PieceType> {
    if c == 'N' {
        Some(PieceType::Knight)
    } else if c == 'B' {
        Some(PieceType::Bishop)
    } else if c == 'R' {
        Some(PieceType::Rook)
    } else if c == 'Q' {
        Some(PieceType::Queen)
    } else if c == 'K' {
        Some(PieceType::King)
    } else {
        None
    }
}

/// The token `O-O`.
pub open spec fn short_castle_text() -> Seq<char> {
    seq!['O', '-', 'O']
}

/// The token `O-O-O`.
pub open spec fn long_castle_text() -> Seq<char> {
    seq!['O', '-', 'O', '-', 'O']
}

/// A mark of check or mate, which says nothing of the move itself.
pub open spec fn is_check_mark(c: char) -> bool {
    c == '+' || c == '#'
}

/// A token without the check marks at its end.
pub open spec fn sanitized(t: Seq<char>) -> Seq<char>
    decreases t.len(),
{
    if t.len() > 0 && is_check_mark(t.last()) {
        sanitized(t.drop_last())
    } else {
        t
    }
}

/// The shape of a token that starts with a file letter: an optional file
/// letter and `x`, then the target square. A `=` after the target square
/// announces a promotion, which is refused; anything else there is malformed.
pub open spec fn pawn_shape(t: Seq<char>) -> Result<Token, TokenError> {
    let capture = t.len() > 1 && t[1] == 'x';
    let start: int = if capture { 2 } else { 0 };
    if t.len() < start + 2 || !is_square_text(t.subrange(start, start + 2)) {
        Err(TokenError::Malformed)
    } else if t.len() == start + 2 {
        Ok(Token::Move((ParsedToken {
            piece: PieceType::Pawn,
            file_hint: if capture { Some(file_index(t[0]) as u8) } else { None },
            rank_hint: None,
            capture: capture,
            target: square_of_text(t.subrange(start, start + 2)),
        })))
    } else if t[start + 2] == '=' {
        Err(TokenError::PromotionUnsupported)
    } else {
        Err(TokenError::Malformed)
    }
}

/// The shape of a token that starts with a piece letter. The target square
/// is the last two characters. Between the letter and the target stand, in
/// this order and each at most once, a file letter, a rank digit and `x`.
pub open spec fn piece_shape(t: Seq<char>, piece: PieceType) -> Result<Token, TokenError> {
    let n = t.len() as int;
    if n < 3 || !is_square_text(t.subrange(n - 2, n)) {
        Err(TokenError::Malformed)
    } else {
        let middle = t.subrange(1, n - 2);
        let capture = middle.len() > 0 && middle.last() == 'x';
        let hints = if capture { middle.drop_last() } else { middle };
        let target = square_of_text(t.subrange(n - 2, n));
        if hints.len() == 0 {
            Ok(Token::Move((ParsedToken { piece, file_hint: None, rank_hint: None, capture, target })))
        } else if hints.len() == 1 && is_file_char(hints[0]) {
            Ok(Token::Move((ParsedToken {
                piece,
                file_hint: Some(file_index(hints[0]) as u8),
                rank_hint: None,
                capture,
                target,
            })))
        } else if hints.len() == 1 && is_rank_char(hints[0]) {
            Ok(Token::Move((ParsedToken {
                piece,
                file_hint: None,
                rank_hint: Some(rank_index(hints[0]) as u8),
                capture,
                target,
            })))
        } else if hints.len() == 2 && is_file_char(hints[0]) && is_rank_char(hints[1]) {
            Ok(Token::Move((ParsedToken {
                piece,
                file_hint: Some(file_index(hints[0]) as u8),
                rank_hint: Some(rank_index(hints[1]) as u8),
                capture,
                target,
            })))
        } else {
            Err(TokenError::Malformed)
        }
    }
}

/// The shape of a token, or why it has none.
pub open spec fn token_shape(t: Seq<char>) -> Result<Token, TokenError> {
    if t == short_castle_text() {
        Ok(Token::Castle(CastleSide::KingSide))
    } else if t == long_castle_text() {
        Ok(Token::Castle(CastleSide::QueenSide))
    } else if t.len() == 0 {
        Err(TokenError::Malformed)
    } else if is_file_char(t[0]) {
        pawn_shape(t)
    } else if piece_of_letter(t[0]) is Some {
        piece_shape(t, piece_of_letter(t[0])->0)
    } else {
        Err(TokenError::Malformed)
    }
}

/// The file that a character names, if it is a file letter.
pub fn file_from_char(c: char) -> (file: Option<u8>)
    ensures
        file is Some <==> is_file_char(c),
        file is Some ==> file->0 == file_index(c) && file->0 < 8,
{
    if 'a' <= c && c <= 'h' {
        Some((c as u32 - 'a' as u32) as u8)
    } else {
        None
    }
}

/// The rank that a character names, if it is a rank digit.
pub fn rank_from_char(c: char) -> (rank: Option<u8>)
    ensures
        rank is Some <==> is_rank_char(c),
        rank is Some ==> rank->0 == rank_index(c) && rank->0 < 8,
{
    if '1' <= c && c <= '8' {
        Some((c as u32 - '1' as u32) as u8)
    } else {
        None
    }
}

/// The square that a file letter and a rank digit name, if they are such.
pub fn square_from_chars(file: char, rank: char) -> (square: Option<u8>)
    ensures
        square is Some <==> is_square_text(seq![file, rank]),
        square is Some ==> square->0 == square_of_text(seq![file, rank]) && square->0 < 64,
{
    match (file_from_char(file), rank_from_char(rank)) {
        (Some(f), Some(r)) => Some(r * 8 + f),
        _ => None,
    }
}

/// The kind of piece that a leading letter names.
pub fn get_piece_type(c: char) -> (piece: Option<PieceType>)
    ensures
        piece == piece_of_letter(c),
{
    match c {
        'N' => Some(PieceType::Knight),
        'B' => Some(PieceType::Bishop),
        'R' => Some(PieceType::Rook),
        'Q' => Some(PieceType::Queen),
        'K' => Some(PieceType::King),
        _ => None,
    }
}

/// Takes the check marks off the end of a token.
pub fn strip_check_marks(t: &Vec<char>) -> (cleaned: Vec<char>)
    ensures
        cleaned@ == sanitized(t@),
{
    let mut n = t.len();
    assert(t@.take(n as int) =~= t@);
    while n > 0 && (t[n - 1] == '+' || t[n - 1] == '#')
        invariant
            n <= t@.len(),
            sanitized(t@) == sanitized(t@.take(n as int)),
        decreases n,
    {
        assert(t@.take(n as int).drop_last() =~= t@.take(n - 1));
        n -= 1;
    }
    copy_range(t, 0, n)
}

/// Classifies a token that starts with a file letter.
fn classify_pawn(t: &Vec<char>) -> (shape: Result<Token, TokenError>)
    requires
        t@.len() >= 1,
        is_file_char(t@[0]),
    ensures
        shape == pawn_shape(t@),
{
    let n = t.len();
    let capture = n > 1 && t[1] == 'x';
    let start: usize = if capture { 2 } else { 0 };
    if n - start < 2 {
        return Err(TokenError::Malformed);
    }
    assert(t@.subrange(start as int, start + 2) =~= seq![t@[start as int], t@[start + 1]]);
    match square_from_chars(t[start], t[start + 1]) {
        None => Err(TokenError::Malformed),
        Some(target) => {
            if n == start + 2 {
                let file_hint = if capture { file_from_char(t[0]) } else { None };
                Ok(Token::Move(ParsedToken {
                    piece: PieceType::Pawn,
                    file_hint,
                    rank_hint: None,
                    capture,
                    target,
                }))
            } else if t[start + 2] == '=' {
                Err(TokenError::PromotionUnsupported)
            } else {
                Err(TokenError::Malformed)
            }
        },
    }
}

/// Classifies a token that starts with the letter of `piece`, reading it
/// from the left: a file letter and a rank digit count as hints only while
/// at least two characters follow them.
fn classify_piece(t: &Vec<char>, piece: PieceType) -> (shape: Result<Token, TokenError>)
    requires
        t@.len() >= 1,
    ensures
        shape == piece_shape(t@, piece),
{
    let n = t.len();
    if n < 3 {
        return Err(TokenError::Malformed);
    }
    let mut idx: usize = 1;
    let mut file_hint: Option<u8> = None;
    let mut rank_hint: Option<u8> = None;
    let mut capture = false;
    if idx + 2 < n {
        file_hint = file_from_char(t[idx]);
        if file_hint.is_some() {
            idx += 1;
        }
    }
    if idx + 2 < n {
        rank_hint = rank_from_char(t[idx]);
        if rank_hint.is_some() {
            idx += 1;
        }
    }
    if idx + 2 < n && t[idx] == 'x' {
        capture = true;
        idx += 1;
    }
    proof {
        let middle = t@.subrange(1, n - 2);
        assert(forall|i: int| 0 <= i < middle.len() ==> middle[i] == t@[i + 1]);
        assert(t@.subrange(n - 2, n as int) =~= seq![t@[n - 2], t@[n - 1]]);
        if middle.len() > 0 && middle.last() == 'x' {
            let hints = middle.drop_last();
            assert(forall|i: int| 0 <= i < hints.len() ==> hints[i] == t@[i + 1]);
        }
    }
    if idx + 2 != n {
        return Err(TokenError::Malformed);
    }
    match square_from_chars(t[idx], t[idx + 1]) {
        None => Err(TokenError::Malformed),
        Some(target) => Ok(Token::Move(ParsedToken { piece, file_hint, rank_hint, capture, target })),
    }
}

/// The shape of a token given by its characters.
pub fn classify_chars(t: &Vec<char>) -> (shape: Result<Token, TokenError>)
    ensures
        shape == token_shape(t@),
{
    let n = t.len();
    if n == 3 && t[0] == 'O' && t[1] == '-' && t[2] == 'O' {
        assert(t@ =~= short_castle_text());
        return Ok(Token::Castle(CastleSide::KingSide));
    }
    if n == 5 && t[0] == 'O' && t[1] == '-' && t[2] == 'O' && t[3] == '-' && t[4] == 'O' {
        assert(t@ =~= long_castle_text());
        return Ok(Token::Castle(CastleSide::QueenSide));
    }
    if n == 0 {
        return Err(TokenError::Malformed);
    }
    if file_from_char(t[0]).is_some() {
        return classify_pawn(t);
    }
    match get_piece_type(t[0]) {
        Some(piece) => classify_piece(t, piece),
        None => Err(TokenError::Malformed),
    }
}

/// The shape of a token.
pub fn classify(token: &str) -> (shape: Result<Token, TokenError>)
    ensures
        shape == token_shape(token@),
{
    let chars = chars_of(token);
    classify_chars(&chars)
}

} // verus!
