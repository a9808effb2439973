//! The two ways of matching a partly typed word against a list.

use vstd::prelude::*;
use crate::text::texts;

verus! {

/// How a partly typed word is matched against the words of a list. A word
/// list uses one of the two, chosen when it is set up.
#[derive(Clone, Copy, Debug, PartialEq, Eq, Structural)]
pub enum Matching {
    /// A word matches if it starts with what was typed.
    Prefix,
    /// The words most similar to what was typed match, most similar first.
    Fuzzy,
}

/// The most words that fuzzy matching hands out.
pub const FUZZY_LIMIT: usize = 3;

/// `word` starts with `partial`, and `partial` is not empty. Nothing typed
/// matches no word.
pub open spec fn matches_prefix(partial: Seq<char>, word: Seq<char>) -> bool {
    partial.len() > 0 && partial.is_prefix_of(word)
}

/// The words that start with `partial`, in the order of the list.
pub open spec fn prefix_matches(partial: Seq<char>, words: Seq<Seq<char>>) -> Seq<Seq<char>> {
    words.filter(|word: Seq<char>| matches_prefix(partial, word))
}

/// The words that `fuzzt::get_top_n` picks from `words` for `partial`, scored
/// by Jaro-Winkler similarity with the crate's default cutoff and limit.
pub uninterp spec fn fuzzy_matches(partial: Seq<char>, words: Seq<Seq<char>>) -> Seq<Seq<char>>;

/// The words of `words` that match `partial` under `matching`.
pub open spec fn matches_of(matching: Matching, partial: Seq<char>, words: Seq<Seq<char>>) -> Seq<
    Seq<char>,
> {
    match matching {
        Matching::Prefix => prefix_matches(partial, words),
        Matching::Fuzzy => fuzzy_matches(partial, words),
    }
}

/// Calls `fuzzt::get_top_n` with the Jaro-Winkler metric and the crate's
/// defaults for everything else. The ranking is not restated here: the result
/// is `fuzzy_matches` of the arguments. What the crate documents besides is
/// that it hands out at most three of the choices it was given.
#[verifier::external_body]
pub(crate) fn top_matches(partial: &str, words: &[String]) -> (found: Vec<String>)
    ensures
        texts(found@) == fuzzy_matches(partial@, texts(words@)),
        found@.len() <= FUZZY_LIMIT,
        forall|i: int| 0 <= i < found@.len() ==> texts(words@).contains(#[trigger] found@[i]@),
{
    let choices: Vec<&str> = words.iter().map(|word| word.as_str()).collect();
    fuzzt::get_top_n(partial, &choices, None, None, None, Some(&fuzzt::algorithms::JaroWinkler))
        .into_iter()
        .map(|word| word.to_string())
        .collect()
}

} // verus!
