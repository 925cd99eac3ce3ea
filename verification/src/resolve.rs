//! The candidate resolver: from the squares a side's pieces stand on to the
//! one origin that a token means.
//!
//! The squares are narrowed by the token's file and rank hints, then by
//! legality. Exactly one survivor is the origin; none or several is a
//! failure. Nothing is ever picked among several.

use vstd::prelude::*;
use crate::model::{Failure, MoveError, ParsedToken, file_of, rank_of};

verus! {

/// Whether an origin square agrees with the hints of a token.
pub open spec fn agrees_with_hints(parsed: ParsedToken, origin: u8) -> bool {
    &&& parsed.file_hint matches Some(f) ==> file_of(origin) == f
    &&& parsed.rank_hint matches Some(r) ==> rank_of(origin) == r
}

/// `agrees_with_hints` as a predicate on origins.
pub open spec fn hint_filter(parsed: ParsedToken) -> spec_fn(u8) -> bool {
    |origin: u8| agrees_with_hints(parsed, origin)
}

/// The origins among `occupied` that agree with the hints, in order.
pub open spec fn hinted(occupied: Seq<u8>, parsed: ParsedToken) -> Seq<u8> {
    occupied.filter(hint_filter(parsed))
}

/// The verdict on the origins that survived: the only one, or the failure.
pub open spec fn unique_of(survivors: Seq<u8>) -> Result<u8, Failure> {
    if survivors.len() == 1 {
        Ok(survivors[0])
    } else if survivors.len() == 0 {
        Err(Failure::Unresolved)
    } else {
        Err(Failure::Ambiguous(survivors))
    }
}

/// Squares of the board in ascending order, so that none comes twice.
pub open spec fn ascending_squares(s: Seq<u8>) -> bool {
    &&& forall|i: int| 0 <= i < s.len() ==> s[i] < 64
    &&& forall|i: int, j: int| 0 <= i < j < s.len() ==> s[i] < s[j]
}

/// What a filter keeps was there before, and meets the predicate.
pub proof fn lemma_filter_keeps_members(s: Seq<u8>, pred: spec_fn(u8) -> bool, x: u8)
    requires
        s.filter(pred).contains(x),
    ensures
        s.contains(x),
        pred(x),
    decreases s.len(),
{
    reveal(Seq::filter);
    if s.len() > 0 {
        let rest = s.drop_last();
        if pred(s.last()) && x == s.last() {
            assert(s[s.len() - 1] == x);
        } else {
            if pred(s.last()) {
                let kept = rest.filter(pred).push(s.last());
                let i = choose|i: int| 0 <= i < kept.len() && kept[i] == x;
                assert(rest.filter(pred)[i] == x);
            }
            assert(rest.filter(pred).contains(x));
            lemma_filter_keeps_members(rest, pred, x);
            let j = choose|j: int| 0 <= j < rest.len() && rest[j] == x;
            assert(s[j] == x);
        }
    }
}

/// A filter keeps ascending squares ascending.
pub proof fn lemma_filter_keeps_ascending(s: Seq<u8>, pred: spec_fn(u8) -> bool)
    requires
        ascending_squares(s),
    ensures
        ascending_squares(s.filter(pred)),
    decreases s.len(),
{
    reveal(Seq::filter);
    if s.len() > 0 {
        let rest = s.drop_last();
        let kept = rest.filter(pred);
        lemma_filter_keeps_ascending(rest, pred);
        if pred(s.last()) {
            assert forall|i: int| 0 <= i < kept.len() implies kept[i] < s.last() by {
                assert(kept.contains(kept[i]));
                lemma_filter_keeps_members(rest, pred, kept[i]);
                let j = choose|j: int| 0 <= j < rest.len() && rest[j] == kept[i];
                assert(s[j] < s[s.len() - 1]);
            }
        }
    }
}

/// Whether an origin square agrees with the hints of a token.
pub fn matches_hints(parsed: &ParsedToken, origin: u8) -> (agrees: bool)
    ensures
        agrees == agrees_with_hints(*parsed, origin),
{
    let file_ok = match parsed.file_hint {
        Some(f) => origin % 8 == f,
        None => true,
    };
    let rank_ok = match parsed.rank_hint {
        Some(r) => origin / 8 == r,
        None => true,
    };
    file_ok && rank_ok
}

/// Keeps the origins that agree with the hints of a token.
pub fn filter_by_hints(occupied: &Vec<u8>, parsed: &ParsedToken) -> (kept: Vec<u8>)
    ensures
        kept@ == hinted(occupied@, *parsed),
{
    let mut kept: Vec<u8> = Vec::new();
    let mut i: usize = 0;
    while i < occupied.len()
        invariant
            i <= occupied@.len(),
            kept@ == hinted(occupied@.take(i as int), *parsed),
        decreases occupied@.len() - i,
    {
        proof {
            reveal(Seq::filter);
            assert(occupied@.take(i + 1).drop_last() =~= occupied@.take(i as int));
        }
        if matches_hints(parsed, occupied[i]) {
            kept.push(occupied[i]);
        }
        i += 1;
    }
    assert(occupied@.take(i as int) =~= occupied@);
    kept
}

/// The verdict on the origins that survived hints and legality: the only
/// one; `UnresolvedMove` if there is none; `AmbiguousMove` with all of them
/// if there are several.
pub fn pick_unique(survivors: Vec<u8>) -> (verdict: Result<u8, MoveError>)
    ensures
        crate::model::lift(verdict) == unique_of(survivors@),
{
    if survivors.len() == 1 {
        Ok(survivors[0])
    } else if survivors.len() == 0 {
        Err(MoveError::UnresolvedMove)
    } else {
        Err(MoveError::AmbiguousMove(survivors))
    }
}

} // verus!
