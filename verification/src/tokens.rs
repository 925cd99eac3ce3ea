//! From move text to move tokens.
//!
//! Bracketed headers are blanked out, the rest is cut at white space, and
//! the words that are no moves (move numbers and result markers) are left
//! out.

use vstd::prelude::*;
use crate::text::copy_range;

verus! {

/// White space between tokens: a blank, a tab or a line end.
pub open spec fn is_space(c: char) -> bool {
    c == ' ' || c == '\t' || c == '\n' || c == '\r'
}

/// Whether the character at `i` belongs to a bracketed header: a `[` stands
/// at or before it, with no `]` between the two. Both brackets belong to
/// the header.
pub open spec fn in_header(text: Seq<char>, i: int) -> bool {
    exists|j: int| 0 <= j <= i && #[trigger] text[j] == '[' && no_close(text, j, i)
}

/// No `]` stands from `from` up to `to`.
pub open spec fn no_close(text: Seq<char>, from: int, to: int) -> bool {
    forall|k: int| from <= k < to ==> #[trigger] text[k] != ']'
}

/// The text with every character of a header replaced by a blank.
pub open spec fn without_headers(text: Seq<char>) -> Seq<char> {
    Seq::new(text.len(), |i: int| if in_header(text, i) { ' ' } else { text[i] })
}

/// Where the word that holds position `from` ends: the first white space at
/// or after `from`, or the end of the text.
pub open spec fn word_end(s: Seq<char>, from: int) -> int
    decreases s.len() - from,
{
    if from < 0 || from >= s.len() || is_space(s[from]) {
        from
    } else {
        word_end(s, from + 1)
    }
}

/// Whether a word starts at `i`: no white space there, and white space or
/// the start of the text before it.
pub open spec fn word_starts(s: Seq<char>, i: int) -> bool {
    0 <= i < s.len() && !is_space(s[i]) && (i == 0 || is_space(s[i - 1]))
}

/// The words that start at or after `from`, in order.
pub open spec fn words_from(s: Seq<char>, from: int) -> Seq<Seq<char>>
    decreases s.len() - from,
{
    if from < 0 || from >= s.len() {
        Seq::empty()
    } else if word_starts(s, from) {
        seq![s.subrange(from, word_end(s, from))] + words_from(s, from + 1)
    } else {
        words_from(s, from + 1)
    }
}

/// The words of a text: its longest stretches without white space.
pub open spec fn words(s: Seq<char>) -> Seq<Seq<char>> {
    words_from(s, 0)
}

/// A move number, such as `12.`: a word that ends in a full stop.
pub open spec fn is_move_number(w: Seq<char>) -> bool {
    w.len() > 0 && w.last() == '.'
}

/// A result marker: `1-0`, `0-1` or `1/2-1/2`.
pub open spec fn is_result_marker(w: Seq<char>) -> bool {
    ||| w == seq!['1', '-', '0']
    ||| w == seq!['0', '-', '1']
    ||| w == seq!['1', '/', '2', '-', '1', '/', '2']
}

/// A word that is no move token.
pub open spec fn is_noise(w: Seq<char>) -> bool {
    is_move_number(w) || is_result_marker(w)
}

/// The predicate that keeps move tokens.
pub open spec fn token_filter() -> spec_fn(Seq<char>) -> bool {
    |w: Seq<char>| !is_noise(w)
}

/// The move tokens of a move text, in order.
pub open spec fn move_tokens(text: Seq<char>) -> Seq<Seq<char>> {
    words(without_headers(text)).filter(token_filter())
}

/// The character sequences that a vector of words holds.
pub open spec fn texts(v: Seq<Vec<char>>) -> Seq<Seq<char>> {
    Seq::new(v.len(), |i: int| v[i]@)
}

/// Whether a character is white space between tokens.
pub fn is_space_char(c: char) -> (space: bool)
    ensures
        space == is_space(c),
{
    c == ' ' || c == '\t' || c == '\n' || c == '\r'
}

/// Replaces every character of a bracketed header by a blank.
pub fn blank_headers(text: &Vec<char>) -> (visible: Vec<char>)
    ensures
        visible@ == without_headers(text@),
{
    let mut visible: Vec<char> = Vec::new();
    let mut inside = false;
    let mut i: usize = 0;
    while i < text.len()
        invariant
            i <= text@.len(),
            visible@.len() == i,
            forall|k: int| 0 <= k < i ==> visible@[k] == without_headers(text@)[k],
            inside <==> (i > 0 && in_header(text@, i - 1) && text@[i - 1] != ']'),
        decreases text@.len() - i,
    {
        let c = text[i];
        let hidden = inside || c == '[';
        proof {
            if inside {
                let j = choose|j: int|
                    0 <= j <= i - 1 && #[trigger] text@[j] == '[' && no_close(text@, j, i - 1);
                assert(no_close(text@, j, i as int));
                assert(in_header(text@, i as int));
            } else if c == '[' {
                assert(no_close(text@, i as int, i as int));
                assert(in_header(text@, i as int));
            } else {
                if in_header(text@, i as int) {
                    let j = choose|j: int|
                        0 <= j <= i && #[trigger] text@[j] == '[' && no_close(text@, j, i as int);
                    assert(j <= i - 1);
                    assert(no_close(text@, j, i - 1));
                    assert(in_header(text@, i - 1));
                    assert(text@[i - 1] != ']');
                }
            }
            assert(hidden == in_header(text@, i as int));
        }
        visible.push(if hidden { ' ' } else { c });
        inside = hidden && c != ']';
        i += 1;
    }
    assert(visible@ =~= without_headers(text@));
    visible
}

/// Finds where the word that holds position `from` ends.
fn find_word_end(s: &Vec<char>, from: usize) -> (end: usize)
    requires
        from <= s@.len(),
    ensures
        end == word_end(s@, from as int),
        from <= end <= s@.len(),
{
    let mut j: usize = from;
    while j < s.len() && !is_space_char(s[j])
        invariant
            from <= j <= s@.len(),
            word_end(s@, from as int) == word_end(s@, j as int),
        decreases s@.len() - j,
    {
        j += 1;
    }
    j
}

/// Cuts a text at white space into its words.
pub fn split_words(s: &Vec<char>) -> (found: Vec<Vec<char>>)
    ensures
        texts(found@) == words(s@),
{
    let mut found: Vec<Vec<char>> = Vec::new();
    let mut i: usize = 0;
    assert(texts(found@) =~= Seq::<Seq<char>>::empty());
    while i < s.len()
        invariant
            i <= s@.len(),
            texts(found@) + words_from(s@, i as int) == words(s@),
        decreases s@.len() - i,
    {
        let starts = !is_space_char(s[i]) && (i == 0 || is_space_char(s[i - 1]));
        if starts {
            let end = find_word_end(s, i);
            let word = copy_range(s, i, end);
            let ghost before = texts(found@);
            found.push(word);
            assert(texts(found@) =~= before + seq![s@.subrange(i as int, end as int)]);
            assert(texts(found@) + words_from(s@, i + 1) =~= before + words_from(s@, i as int));
        }
        i += 1;
    }
    assert(texts(found@) + Seq::<Seq<char>>::empty() =~= texts(found@));
    found
}

/// Whether a word is a move number or a result marker, and so no move token.
pub fn is_noise_word(w: &Vec<char>) -> (noise: bool)
    ensures
        noise == is_noise(w@),
{
    let n = w.len();
    if n > 0 && w[n - 1] == '.' {
        return true;
    }
    if n == 3 && w[0] == '1' && w[1] == '-' && w[2] == '0' {
        assert(w@ =~= seq!['1', '-', '0']);
        return true;
    }
    if n == 3 && w[0] == '0' && w[1] == '-' && w[2] == '1' {
        assert(w@ =~= seq!['0', '-', '1']);
        return true;
    }
    if n == 7 && w[0] == '1' && w[1] == '/' && w[2] == '2' && w[3] == '-' && w[4] == '1' && w[5]
        == '/' && w[6] == '2' {
        assert(w@ =~= seq!['1', '/', '2', '-', '1', '/', '2']);
        return true;
    }
    false
}

/// The move tokens of a move text, in order.
pub fn tokenize(text: &Vec<char>) -> (tokens: Vec<Vec<char>>)
    ensures
        texts(tokens@) == move_tokens(text@),
{
    let visible = blank_headers(text);
    let found = split_words(&visible);
    let ghost all = texts(found@);
    let mut tokens: Vec<Vec<char>> = Vec::new();
    let mut i: usize = 0;
    assert(texts(tokens@) =~= all.take(0).filter(token_filter()));
    while i < found.len()
        invariant
            i <= found@.len(),
            all == texts(found@),
            texts(tokens@) == all.take(i as int).filter(token_filter()),
        decreases found@.len() - i,
    {
        proof {
            reveal(Seq::filter);
            assert(all.take(i + 1).drop_last() =~= all.take(i as int));
        }
        if !is_noise_word(&found[i]) {
            let word = copy_range(&found[i], 0, found[i].len());
            assert(word@ =~= found@[i as int]@);
            let ghost before = texts(tokens@);
            tokens.push(word);
            assert(texts(tokens@) =~= before.push(all[i as int]));
        }
        i += 1;
    }
    assert(all.take(i as int) =~= all);
    tokens
}

} // verus!
