//! Argument lists for command line tools.
use crate::text::{push_text, texts};
use vstd::prelude::*;

verus! {

/// A flag with its value, where there is one.
pub open spec fn option_words(flag: Seq<char>, value: Option<&str>) -> Seq<Seq<char>> {
    match value {
        Some(v) => seq![flag, v@],
        None => Seq::empty(),
    }
}

/// A word, where it is wanted.
pub open spec fn word_if(wanted: bool, word: Seq<char>) -> Seq<Seq<char>> {
    if wanted {
        seq![word]
    } else {
        Seq::empty()
    }
}

/// A flag stands in an argument list with its value behind it.
pub open spec fn has_option(argv: Seq<Seq<char>>, flag: Seq<char>, value: Seq<char>) -> bool {
    exists|i: int| 0 <= i < argv.len() - 1 && #[trigger] argv[i] == flag && argv[i + 1] == value
}

/// Adds a flag with its value, where there is one.
pub fn push_option(v: &mut Vec<String>, flag: &str, value: Option<&str>)
    ensures
        texts(final(v)@) == texts(old(v)@) + option_words(flag@, value),
{
    let ghost before = texts(v@);
    if let Some(p) = value {
        push_text(v, flag);
        push_text(v, p);
    }
    assert(texts(v@) =~= before + option_words(flag@, value));
}

/// Adds a word, where it is wanted.
pub fn push_if(v: &mut Vec<String>, wanted: bool, word: &str)
    ensures
        texts(final(v)@) == texts(old(v)@) + word_if(wanted, word@),
{
    let ghost before = texts(v@);
    if wanted {
        push_text(v, word);
    }
    assert(texts(v@) =~= before + word_if(wanted, word@));
}

/// Adds two words.
pub fn push_two(v: &mut Vec<String>, a: &str, b: &str)
    ensures
        texts(final(v)@) == texts(old(v)@) + seq![a@, b@],
{
    let ghost before = texts(v@);
    push_text(v, a);
    push_text(v, b);
    assert(texts(v@) =~= before + seq![a@, b@]);
}

/// Adds three words.
pub fn push_three(v: &mut Vec<String>, a: &str, b: &str, c: &str)
    ensures
        texts(final(v)@) == texts(old(v)@) + seq![a@, b@, c@],
{
    let ghost before = texts(v@);
    push_text(v, a);
    push_text(v, b);
    push_text(v, c);
    assert(texts(v@) =~= before + seq![a@, b@, c@]);
}

/// The value, where it is not empty.
pub fn nonempty<'a>(s: &'a str) -> (r: Option<&'a str>)
    ensures
        match r {
            Some(t) => t@ == s@ && s@.len() > 0,
            None => s@.len() == 0,
        },
{
    if s.is_empty() {
        None
    } else {
        Some(s)
    }
}

} // verus!
