//! Splitting a sentence into lower-case words.

use vstd::prelude::*;

verus! {

/// What `str::to_lowercase` makes of a string.
pub uninterp spec fn lower_of(s: Seq<char>) -> Seq<char>;

/// Relies on `str::to_lowercase`: the lower-case form of a string depends
/// on its characters alone.
#[verifier::external_body]
fn lowercase(s: &str) -> (r: String)
    ensures
        r@ == lower_of(s@),
{
    s.to_lowercase()
}

/// Relies on `String::push`: appends one character.
#[verifier::external_body]
fn push_char(s: &mut String, c: char)
    ensures
        final(s)@ == old(s)@.push(c),
{
    s.push(c)
}

/// The pieces of `s` between single spaces: two spaces in a row give an
/// empty piece, and the empty string gives one empty piece.
pub open spec fn split_spaces(s: Seq<char>) -> Seq<Seq<char>>
    decreases s.len(),
{
    if s.len() == 0 {
        seq![Seq::<char>::empty()]
    } else {
        let prev = split_spaces(s.drop_last());
        if s.last() == ' ' {
            prev.push(Seq::<char>::empty())
        } else {
            prev.update(prev.len() - 1, prev.last().push(s.last()))
        }
    }
}

/// The characters of each string.
pub open spec fn views(v: Seq<String>) -> Seq<Seq<char>> {
    v.map_values(|w: String| w@)
}

/// Splitting never yields an empty list of pieces.
pub proof fn lemma_split_nonempty(s: Seq<char>)
    ensures
        split_spaces(s).len() >= 1,
    decreases s.len(),
{
    if s.len() > 0 {
        lemma_split_nonempty(s.drop_last());
    }
}

/// The pieces of `text` between single spaces.
pub fn split_words(text: &str) -> (r: Vec<String>)
    ensures
        views(r@) == split_spaces(text@),
{
    let mut words: Vec<String> = Vec::new();
    let mut cur = String::new();
    let ghost mut done: Seq<char> = Seq::empty();
    for c in it: text.chars()
        invariant
            done == it.seq().take(it.index() as int),
            views(words@).push(cur@) == split_spaces(done),
    {
        proof {
            lemma_split_nonempty(done);
        }
        let ghost before = done;
        proof {
            done = done.push(c);
            assert(done.drop_last() =~= before);
        }
        if c == ' ' {
            let w = cur;
            words.push(w);
            cur = String::new();
            assert(views(words@).push(cur@) =~= split_spaces(done));
        } else {
            push_char(&mut cur, c);
            assert(views(words@).push(cur@) =~= split_spaces(done));
        }
    }
    words.push(cur);
    assert(done =~= text@);
    words
}

/// The lower-case words of `sentence`, split at single spaces.
pub fn words_from_sentence(sentence: String) -> (r: Vec<String>)
    ensures
        views(r@) == split_spaces(lower_of(sentence@)),
{
    let lower = lowercase(sentence.as_str());
    split_words(lower.as_str())
}

} // verus!
