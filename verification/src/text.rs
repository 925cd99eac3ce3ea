//! Characters in and out of strings.

use vstd::prelude::*;
use crate::classify::{long_castle_text, short_castle_text};
use crate::model::{CastleSide, Played, ResolvedMove, file_of, rank_of};

verus! {

/// The characters of a string, in order.
pub fn chars_of(s: &str) -> (chars: Vec<char>)
    ensures
        chars@ == s@,
{
    let mut chars: Vec<char> = Vec::new();
    for c in it: s.chars()
        invariant
            it.seq() == s@,
            chars@.len() == it.index(),
            forall|j: int| 0 <= j < chars@.len() ==> chars@[j] == it.seq()[j],
    {
        chars.push(c);
    }
    assert(chars@ =~= s@);
    chars
}

/// A copy of the characters from `from` up to `to`.
pub(crate) fn copy_range(chars: &Vec<char>, from: usize, to: usize) -> (part: Vec<char>)
    requires
        from <= to <= chars@.len(),
    ensures
        part@ == chars@.subrange(from as int, to as int),
{
    let mut part: Vec<char> = Vec::new();
    let mut i: usize = from;
    while i < to
        invariant
            from <= i <= to <= chars@.len(),
            part@ == chars@.subrange(from as int, i as int),
        decreases to - i,
    {
        part.push(chars[i]);
        assert(part@ =~= chars@.subrange(from as int, i + 1));
        i += 1;
    }
    part
}

/// A square written out: its file letter, then its rank digit.
pub open spec fn square_text(square: u8) -> Seq<char> {
    seq![('a' as int + file_of(square)) as char, ('1' as int + rank_of(square)) as char]
}

/// A move in coordinates: the origin written out, then the destination.
pub open spec fn move_text(m: ResolvedMove) -> Seq<char> {
    square_text(m.origin) + square_text(m.destination)
}

/// A played token written out: a move in coordinates, a castle as its token.
pub open spec fn played_text(played: Played) -> Seq<char> {
    match played {
        Played::Move(m) => move_text(m),
        Played::Castle(CastleSide::KingSide) => short_castle_text(),
        Played::Castle(CastleSide::QueenSide) => long_castle_text(),
    }
}

/// `String::push`: the string with one character more at its end.
#[verifier::external_body]
fn push_char(s: &mut String, c: char)
    ensures
        final(s)@ == old(s)@.push(c),
{
    s.push(c);
}

/// Writes a square at the end of a string.
fn push_square(s: &mut String, square: u8)
    ensures
        final(s)@ == old(s)@ + square_text(square),
{
    let file = (('a' as u8) + square % 8) as char;
    let rank = (('1' as u8) + square / 8) as char;
    push_char(s, file);
    push_char(s, rank);
    assert(s@ =~= old(s)@ + square_text(square));
}

/// Writes out a played token: a move as four characters, such as `e2e4`,
/// a castle as `O-O` or `O-O-O`.
pub fn render(played: &Played) -> (text: String)
    ensures
        text@ == played_text(*played),
{
    let mut text = String::new();
    match played {
        Played::Move(m) => {
            push_square(&mut text, m.origin);
            push_square(&mut text, m.destination);
            assert(text@ =~= move_text(*m));
        },
        Played::Castle(side) => {
            push_char(&mut text, 'O');
            push_char(&mut text, '-');
            push_char(&mut text, 'O');
            match side {
                CastleSide::KingSide => {
                    assert(text@ =~= short_castle_text());
                },
                CastleSide::QueenSide => {
                    push_char(&mut text, '-');
                    push_char(&mut text, 'O');
                    assert(text@ =~= long_castle_text());
                },
            }
        },
    }
    text
}

} // verus!
