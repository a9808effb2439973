//! The word list: two lists of words, and what is drawn from them and
//! completed against them.

use vstd::prelude::*;
use crate::matching::{
    fuzzy_matches, matches_of, matches_prefix, prefix_matches, top_matches, Matching, FUZZY_LIMIT,
};
use crate::password::{is_code, lemma_joined_code, Password};
use crate::pgp::{load_pgpwords, pgp_lists, PGP_WORDS};
use crate::table::{json_members, lemma_loaded_lists, load_words, LoadError, TABLE_SIZE};
use crate::text::{
    chars_of, check_word, dash_count, has_prefix, head_of, is_word, join, join_words, lists_of,
    partial_of, reassemble, reassembled, split_last, texts, with_head, SEPARATOR,
};

verus! {

/// What a [`Wordlist`] holds.
pub ghost struct WordlistView {
    /// How many words a code has.
    pub num_words: nat,
    /// The list for even positions, then the list for odd positions.
    pub lists: Seq<Seq<Seq<char>>>,
    /// How a partly typed word is matched.
    pub matching: Matching,
}

/// Which list the segment being typed is matched against: the second list
/// while an even number of separators was typed, else the first.
pub open spec fn list_index(typed: Seq<char>) -> int {
    1 - (dash_count(typed) % 2) as int
}

impl WordlistView {
    /// There are two lists, neither of them empty, and each entry is a word.
    pub open spec fn well_formed(self) -> bool {
        &&& self.lists.len() == 2
        &&& forall|list: int| 0 <= list < 2 ==> (#[trigger] self.lists[list]).len() > 0
        &&& forall|list: int, at: int|
            0 <= list < 2 && 0 <= at < self.lists[list].len() ==> is_word(
                #[trigger] self.lists[list][at],
            )
    }

    /// Both lists hold the same number of entries.
    pub open spec fn uniform(self) -> bool {
        self.lists.len() == 2 && self.lists[0].len() == self.lists[1].len()
    }

    /// `chosen` can be drawn for a code: one word for each position, each
    /// from the list of its position.
    pub open spec fn draws(self, chosen: Seq<Seq<char>>) -> bool {
        &&& chosen.len() == self.num_words
        &&& forall|at: int|
            0 <= at < chosen.len() ==> self.lists[at % 2].contains(#[trigger] chosen[at])
    }

    /// `code` can be generated: it joins words that can be drawn.
    pub open spec fn generates(self, code: Seq<char>) -> bool {
        exists|chosen: Seq<Seq<char>>| self.draws(chosen) && code == join(chosen)
    }

    /// The list that the segment being typed is matched against.
    pub open spec fn active_list(self, typed: Seq<char>) -> Seq<Seq<char>> {
        self.lists[list_index(typed)]
    }

    /// `text` is what was typed before the last separator with a word of
    /// the active list put behind it.
    pub open spec fn is_candidate(self, typed: Seq<char>, text: Seq<char>) -> bool {
        exists|at: int|
            0 <= at < self.active_list(typed).len() && text == with_head(
                head_of(typed),
                #[trigger] self.active_list(typed)[at],
            )
    }

    /// The candidates for `typed`: what was typed before the last separator,
    /// kept as it is, with each match for the rest put behind it.
    pub open spec fn completions(self, typed: Seq<char>) -> Seq<Seq<char>> {
        reassembled(
            head_of(typed),
            matches_of(self.matching, partial_of(typed), self.active_list(typed)),
        )
    }
}

/// Two lists of words: the first for the even positions of a code, counted
/// from zero, the second for the odd ones.
#[derive(PartialEq)]
pub struct Wordlist {
    num_words: usize,
    words: Vec<Vec<String>>,
    matching: Matching,
}

impl View for Wordlist {
    type V = WordlistView;

    closed spec fn view(&self) -> WordlistView {
        WordlistView {
            num_words: self.num_words as nat,
            lists: lists_of(self.words@),
            matching: self.matching,
        }
    }
}

/// Draws one of `words` with `rand`'s `SliceRandom::choose`, from the random
/// source of the operating system. Which word comes is not said: the result
/// is one of `words`, and there is none only where `words` is empty. The
/// call panics where the operating system fails to give random bytes.
#[verifier::external_body]
fn pick(words: &Vec<String>) -> (drawn: Option<&String>)
    ensures
        drawn is Some <==> words@.len() > 0,
        drawn matches Some(word) ==> texts(words@).contains(word@),
{
    rand::seq::SliceRandom::choose(words.as_slice(), &mut rand::rngs::OsRng)
}

impl Wordlist {
    #[verifier::type_invariant]
    spec fn two_lists(&self) -> bool {
        self.words@.len() == 2
    }

    /// A word list of the two lists `words`, for codes of `num_words` words.
    /// It matches by prefix.
    pub fn new(num_words: usize, words: Vec<Vec<String>>) -> (list: Wordlist)
        requires
            words@.len() == 2,
        ensures
            list@.num_words == num_words,
            list@.lists == lists_of(words@),
            list@.matching == Matching::Prefix,
    {
        Wordlist { num_words, words, matching: Matching::Prefix }
    }

    /// The built-in word list, for codes of `num_words` words. It matches by
    /// prefix. Each of its lists holds [`TABLE_SIZE`] words.
    pub fn default_wordlist(num_words: usize) -> (list: Wordlist)
        requires
            pgp_lists() is Ok,
        ensures
            list@.num_words == num_words,
            pgp_lists() == Ok::<Seq<Seq<Seq<char>>>, LoadError>(list@.lists),
            list@.matching == Matching::Prefix,
            list@.well_formed(),
            list@.uniform(),
            list@.lists[0].len() == TABLE_SIZE,
    {
        let words = load_pgpwords();
        proof {
            lemma_loaded_lists(json_members(PGP_WORDS@));
        }
        Wordlist { num_words, words, matching: Matching::Prefix }
    }

    /// The built-in word list, if the built-in table can be read; else the
    /// reason why it cannot.
    pub fn try_default_wordlist(num_words: usize) -> (outcome: Result<Wordlist, LoadError>)
        ensures
            match outcome {
                Ok(list) => {
                    &&& list@.num_words == num_words
                    &&& pgp_lists() == Ok::<Seq<Seq<Seq<char>>>, LoadError>(list@.lists)
                    &&& list@.matching == Matching::Prefix
                    &&& list@.well_formed()
                    &&& list@.uniform()
                    &&& list@.lists[0].len() == TABLE_SIZE
                },
                Err(error) => pgp_lists() == Err::<Seq<Seq<Seq<char>>>, LoadError>(error),
            },
    {
        match load_words(PGP_WORDS) {
            Ok(_) => Ok(Wordlist::default_wordlist(num_words)),
            Err(error) => Err(error),
        }
    }

    /// The same word list, matching as `matching` says.
    pub fn with_matching(self, matching: Matching) -> (list: Wordlist)
        ensures
            list@ == (WordlistView { matching, ..self@ }),
    {
        proof {
            use_type_invariant(&self);
        }
        Wordlist { num_words: self.num_words, words: self.words, matching }
    }

    /// How many words a code has.
    pub fn num_words(&self) -> (count: usize)
        ensures
            count == self@.num_words,
    {
        self.num_words
    }

    /// The two lists.
    pub fn words(&self) -> (lists: &Vec<Vec<String>>)
        ensures
            lists@.len() == 2,
            lists_of(lists@) == self@.lists,
    {
        proof {
            use_type_invariant(self);
        }
        &self.words
    }

    /// How a partly typed word is matched.
    pub fn matching(&self) -> (matching: Matching)
        ensures
            matching == self@.matching,
    {
        self.matching
    }

    /// Whether neither list is empty and each entry is a word.
    pub fn is_well_formed(&self) -> (sound: bool)
        ensures
            sound == self@.well_formed(),
    {
        proof {
            use_type_invariant(self);
        }
        let mut list: usize = 0;
        while list < 2
            invariant
                list <= 2,
                self.words@.len() == 2,
                forall|l: int| 0 <= l < list ==> (#[trigger] self@.lists[l]).len() > 0,
                forall|l: int, at: int|
                    0 <= l < list && 0 <= at < self@.lists[l].len() ==> is_word(
                        #[trigger] self@.lists[l][at],
                    ),
            decreases 2 - list,
        {
            let words = &self.words[list];
            assert(self@.lists[list as int] == texts(words@));
            if words.len() == 0 {
                return false;
            }
            for at in 0..words.len()
                invariant
                    list < 2,
                    self@.lists[list as int] == texts(words@),
                    forall|i: int| 0 <= i < at ==> is_word(#[trigger] texts(words@)[i]),
            {
                if !check_word(words[at].as_str()) {
                    assert(!is_word(self@.lists[list as int][at as int]));
                    return false;
                }
            }
            list += 1;
        }
        true
    }

    /// The list that the segment being typed is matched against.
    pub fn get_wordlist(&self, prefix: &str) -> (list: &Vec<String>)
        ensures
            self@.lists.len() == 2,
            texts(list@) == self@.active_list(prefix@),
    {
        proof {
            use_type_invariant(self);
        }
        let mut index: usize = 1;
        for c in it: prefix.chars()
            invariant
                it.seq() == prefix@,
                index == list_index(prefix@.take(it.index() as int)),
        {
            proof {
                assert(prefix@.take(it.index() + 1).drop_last() == prefix@.take(it.index() as int));
            }
            if c == SEPARATOR {
                index = 1 - index;
            }
        }
        proof {
            assert(prefix@.take(prefix@.len() as int) == prefix@);
        }
        &self.words[index]
    }

    /// The words of `words` that start with `partial`, in their order; none
    /// where `partial` is empty.
    pub fn normal_complete(&self, partial: &str, words: &[String]) -> (found: Vec<String>)
        ensures
            texts(found@) == prefix_matches(partial@, texts(words@)),
    {
        let typed = chars_of(partial);
        let ghost all = texts(words@);
        let ghost matching = |word: Seq<char>| matches_prefix(partial@, word);
        let mut found: Vec<String> = Vec::new();
        proof {
            reveal(Seq::filter);
            assert(all.take(0).filter(matching) == Seq::<Seq<char>>::empty());
        }
        for at in 0..words.len()
            invariant
                typed@ == partial@,
                all == texts(words@),
                matching == |word: Seq<char>| matches_prefix(partial@, word),
                texts(found@) == all.take(at as int).filter(matching),
        {
            let word = &words[at];
            proof {
                reveal(Seq::filter);
                assert(all.take(at + 1).drop_last() == all.take(at as int));
                assert(all.take(at + 1).last() == word@);
            }
            if typed.len() > 0 && has_prefix(word.as_str(), &typed) {
                let ghost before = texts(found@);
                found.push(word.clone());
                assert(texts(found@) == before.push(word@));
            }
        }
        proof {
            assert(all.take(words.len() as int) == all);
        }
        found
    }

    /// The words of `words` most similar to `partial`, most similar first: at
    /// most [`FUZZY_LIMIT`] of them.
    pub fn fuzzy_complete(&self, partial: &str, words: &[String]) -> (found: Vec<String>)
        ensures
            texts(found@) == fuzzy_matches(partial@, texts(words@)),
            found@.len() <= FUZZY_LIMIT,
            forall|i: int| 0 <= i < found@.len() ==> texts(words@).contains(#[trigger] found@[i]@),
    {
        top_matches(partial, words)
    }

    /// The candidates for the code typed so far, best first. What stands
    /// before the last separator is kept; what stands after it is matched
    /// against the list that the number of separators selects.
    pub fn get_completions(&self, prefix: &str) -> (candidates: Vec<String>)
        ensures
            self@.lists.len() == 2,
            texts(candidates@) == self@.completions(prefix@),
            forall|i: int|
                0 <= i < candidates@.len() ==> self@.is_candidate(
                    prefix@,
                    #[trigger] candidates@[i]@,
                ),
            self@.matching == Matching::Fuzzy ==> candidates@.len() <= FUZZY_LIMIT,
    {
        let words = self.get_wordlist(prefix);
        let (head, partial) = split_last(prefix);
        let matches = match self.matching {
            Matching::Prefix => {
                let found = self.normal_complete(partial, words.as_slice());
                proof {
                    let all = texts(words@);
                    let keep = |word: Seq<char>| matches_prefix(partial@, word);
                    assert forall|i: int| 0 <= i < found@.len() implies all.contains(
                        #[trigger] found@[i]@,
                    ) by {
                        assert(texts(found@)[i] == found@[i]@);
                        all.lemma_filter_contains_rev(keep, found@[i]@);
                    }
                }
                found
            },
            Matching::Fuzzy => self.fuzzy_complete(partial, words.as_slice()),
        };
        let candidates = reassemble(head, &matches);
        proof {
            let all = self@.active_list(prefix@);
            assert(candidates@.len() == texts(candidates@).len());
            assert(matches@.len() == texts(matches@).len());
            assert forall|i: int| 0 <= i < candidates@.len() implies self@.is_candidate(
                prefix@,
                #[trigger] candidates@[i]@,
            ) by {
                assert(texts(candidates@)[i] == candidates@[i]@);
                assert(texts(matches@)[i] == matches@[i]@);
                assert(all.contains(matches@[i]@));
                let at = choose|at: int| 0 <= at < all.len() && all[at] == matches@[i]@;
                assert(candidates@[i]@ == with_head(head@, all[at]));
            }
        }
        candidates
    }

    /// Draws a fresh code: one word for each position, taken at random from
    /// the list of that position, the words joined by separators.
    pub fn choose_words(&self) -> (code: Password)
        requires
            self@.num_words >= 1,
            self@.well_formed(),
        ensures
            self@.generates(code@),
            is_code(code@),
    {
        proof {
            use_type_invariant(self);
        }
        let mut components: Vec<String> = Vec::new();
        for at in 0..self.num_words
            invariant
                self.words@.len() == 2,
                self@.well_formed(),
                components@.len() == at,
                forall|i: int|
                    0 <= i < at ==> self@.lists[i % 2].contains(#[trigger] texts(components@)[i]),
                forall|i: int| 0 <= i < at ==> is_word(#[trigger] texts(components@)[i]),
        {
            let list = &self.words[at % 2];
            let ghost before = texts(components@);
            assert(self@.lists[at as int % 2] == texts(list@));
            assert(texts(list@).len() > 0);
            let word = pick(list).unwrap();
            proof {
                let found = choose|i: int| 0 <= i < texts(list@).len() && texts(list@)[i] == word@;
                assert(self@.lists[at as int % 2][found] == word@);
            }
            components.push(word.clone());
            assert(texts(components@) == before.push(word@));
        }
        let text = join_words(&components);
        proof {
            assert(self@.draws(texts(components@)));
            lemma_joined_code(texts(components@));
        }
        Password::parse(text).unwrap()
    }

    /// All the words: those of the first list, then those of the second.
    pub fn into_words(self) -> (all: Vec<String>)
        ensures
            texts(all@) == self@.lists[0] + self@.lists[1],
    {
        proof {
            use_type_invariant(&self);
        }
        let ghost lists = self@.lists;
        let mut words = self.words;
        assert(lists == lists_of(words@));
        let mut second = words.pop().unwrap();
        let mut all = words.pop().unwrap();
        assert(texts(all@) == lists[0] && texts(second@) == lists[1]);
        all.append(&mut second);
        assert(texts(all@) =~= lists[0] + lists[1]);
        all
    }
}

} // verus!
