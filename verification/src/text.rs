//! Codes as sequences of characters: separators, segments and words.
//!
//! A code is a run of segments joined by [`SEPARATOR`]. Everything here is
//! stated over `Seq<char>`, the view of a `str`, so that the contracts of the
//! executable functions do not depend on how a string is stored.

use vstd::prelude::*;
use vstd::string::{StrSliceExecFns, StringExecFns};

verus! {

/// The character that joins the segments of a code.
pub const SEPARATOR: char = '-';

/// The views of a sequence of strings.
pub open spec fn texts(strings: Seq<String>) -> Seq<Seq<char>> {
    Seq::new(strings.len(), |i: int| strings[i]@)
}

/// The views of the strings of some lists.
pub open spec fn lists_of(lists: Seq<Vec<String>>) -> Seq<Seq<Seq<char>>> {
    Seq::new(lists.len(), |i: int| texts(lists[i]@))
}

/// How many separators `s` holds.
pub open spec fn dash_count(s: Seq<char>) -> nat
    decreases s.len(),
{
    if s.len() == 0 {
        0
    } else if s.last() == SEPARATOR {
        dash_count(s.drop_last()) + 1
    } else {
        dash_count(s.drop_last())
    }
}

/// `s` holds no separator.
pub open spec fn dash_free(s: Seq<char>) -> bool {
    forall|i: int| 0 <= i < s.len() ==> s[i] != SEPARATOR
}

/// `at` is the position of the last separator of `s`.
pub open spec fn is_last_dash(s: Seq<char>, at: int) -> bool {
    &&& 0 <= at < s.len()
    &&& s[at] == SEPARATOR
    &&& forall|j: int| at < j < s.len() ==> s[j] != SEPARATOR
}

/// The position of the last separator of `s`, if it holds one.
pub open spec fn last_dash(s: Seq<char>) -> Option<int> {
    if dash_free(s) {
        None
    } else {
        Some(choose|at: int| is_last_dash(s, at))
    }
}

/// What stands before the last separator of `s`; nothing if `s` holds none.
pub open spec fn head_of(s: Seq<char>) -> Seq<char> {
    match last_dash(s) {
        Some(at) => s.subrange(0, at),
        None => Seq::empty(),
    }
}

/// What stands after the last separator of `s`; all of `s` if it holds none.
pub open spec fn partial_of(s: Seq<char>) -> Seq<char> {
    match last_dash(s) {
        Some(at) => s.subrange(at + 1, s.len() as int),
        None => s,
    }
}

/// `word` put behind `head`: the two joined by a separator, or `word` alone
/// where `head` is empty.
pub open spec fn with_head(head: Seq<char>, word: Seq<char>) -> Seq<char> {
    if head.len() > 0 {
        head + seq![SEPARATOR] + word
    } else {
        word
    }
}

/// Each of `words` put behind `head`.
pub open spec fn reassembled(head: Seq<char>, words: Seq<Seq<char>>) -> Seq<Seq<char>> {
    Seq::new(words.len(), |i: int| with_head(head, words[i]))
}

/// The segments joined by separators.
pub open spec fn join(segments: Seq<Seq<char>>) -> Seq<char>
    decreases segments.len(),
{
    if segments.len() == 0 {
        Seq::empty()
    } else if segments.len() == 1 {
        segments[0]
    } else {
        join(segments.drop_last()) + seq![SEPARATOR] + segments.last()
    }
}

/// `c` is one of the letters `a` to `z`.
pub open spec fn is_lower(c: char) -> bool {
    'a' <= c <= 'z'
}

/// `s` is a word: one letter or more, each of them lower case. A word holds
/// no separator.
pub open spec fn is_word(s: Seq<char>) -> bool {
    &&& s.len() > 0
    &&& forall|i: int| 0 <= i < s.len() ==> is_lower(#[trigger] s[i])
}

/// Every separator of a sequence that holds one lies at or before the last.
pub proof fn lemma_last_dash(s: Seq<char>)
    ensures
        match last_dash(s) {
            Some(at) => is_last_dash(s, at),
            None => dash_free(s),
        },
    decreases s.len(),
{
    if !dash_free(s) {
        if s.last() == SEPARATOR {
            assert(is_last_dash(s, s.len() - 1));
        } else {
            let shorter = s.drop_last();
            assert(!dash_free(shorter)) by {
                let i = choose|i: int| 0 <= i < s.len() && s[i] == SEPARATOR;
                assert(shorter[i] == SEPARATOR);
            }
            lemma_last_dash(shorter);
            let at = last_dash(shorter)->0;
            assert(is_last_dash(s, at)) by {
                assert(shorter[at] == s[at]);
                assert forall|j: int| at < j < s.len() implies s[j] != SEPARATOR by {
                    if j < shorter.len() {
                        assert(shorter[j] == s[j]);
                    }
                }
            }
        }
    }
}

/// The last separator of a sequence is unique.
pub proof fn lemma_last_dash_is(s: Seq<char>, at: int)
    requires
        is_last_dash(s, at),
    ensures
        last_dash(s) == Some(at),
{
    lemma_last_dash(s);
    assert(!dash_free(s));
    let other = last_dash(s)->0;
    assert(is_last_dash(s, other));
    if other < at {
    } else if at < other {
    }
}

/// The characters of `s`, in order.
pub fn chars_of(s: &str) -> (chars: Vec<char>)
    ensures
        chars@ == s@,
{
    let mut chars: Vec<char> = Vec::new();
    for c in it: s.chars()
        invariant
            chars@ == it.seq().take(it.index() as int),
            it.seq() == s@,
    {
        chars.push(c);
    }
    chars
}

/// Finds the last separator among `chars`.
pub fn find_last_dash(chars: &Vec<char>) -> (found: Option<usize>)
    ensures
        match found {
            Some(at) => last_dash(chars@) == Some(at as int),
            None => last_dash(chars@) is None,
        },
{
    let mut at: usize = chars.len();
    while at > 0
        invariant
            at <= chars.len(),
            forall|j: int| at <= j < chars.len() ==> chars@[j] != SEPARATOR,
        decreases at,
    {
        at -= 1;
        if chars[at] == SEPARATOR {
            proof {
                lemma_last_dash_is(chars@, at as int);
            }
            return Some(at);
        }
    }
    None
}

/// Whether `word` begins with the characters of `partial`.
pub fn has_prefix(word: &str, partial: &Vec<char>) -> (found: bool)
    ensures
        found == partial@.is_prefix_of(word@),
{
    let mut matched: usize = 0;
    for c in it: word.chars()
        invariant
            it.seq() == word@,
            matched == it.index(),
            matched <= partial.len(),
            partial@.take(matched as int) == word@.take(matched as int),
    {
        if matched == partial.len() {
            assert(partial@.take(matched as int) == partial@);
            return true;
        }
        if partial[matched] != c {
            assert(partial@[matched as int] != word@[matched as int]);
            return false;
        }
        assert(partial@.take(matched + 1) == partial@.take(matched as int).push(c));
        assert(word@.take(matched + 1) == word@.take(matched as int).push(c));
        matched += 1;
    }
    assert(partial@.take(matched as int) == partial@.subrange(0, matched as int));
    matched == partial.len()
}

/// Whether `s` is a word.
pub fn check_word(s: &str) -> (valid: bool)
    ensures
        valid == is_word(s@),
{
    let mut seen: bool = false;
    for c in it: s.chars()
        invariant
            it.seq() == s@,
            seen == (it.index() > 0),
            forall|i: int| 0 <= i < it.index() ==> is_lower(#[trigger] s@[i]),
    {
        if !('a' <= c && c <= 'z') {
            assert(!is_lower(s@[it.index() as int]));
            return false;
        }
        seen = true;
    }
    seen
}

/// Splits `typed` at its last separator into what stands before it and what
/// stands after it. Without a separator nothing stands before.
pub fn split_last(typed: &str) -> (parts: (&str, &str))
    ensures
        parts.0@ == head_of(typed@),
        parts.1@ == partial_of(typed@),
{
    let chars = chars_of(typed);
    let length = chars.len();
    match find_last_dash(&chars) {
        Some(at) => {
            proof {
                lemma_last_dash(chars@);
            }
            assert(at < length);
            let head = typed.substring_char(0, at);
            let partial = typed.substring_char(at + 1, length);
            (head, partial)
        },
        None => {
            proof {
                reveal_strlit("");
            }
            ("", typed)
        },
    }
}

/// Puts `word` behind `head`.
pub fn put_behind(head: &str, word: &str) -> (whole: String)
    ensures
        whole@ == with_head(head@, word@),
{
    let mut whole = String::new();
    if !head.is_empty() {
        proof {
            reveal_strlit("-");
        }
        whole.append(head);
        whole.append("-");
        assert(whole@ == head@ + seq![SEPARATOR]);
    }
    whole.append(word);
    whole
}

/// Puts each of `words` behind `head`.
pub fn reassemble(head: &str, words: &Vec<String>) -> (candidates: Vec<String>)
    ensures
        texts(candidates@) == reassembled(head@, texts(words@)),
{
    let mut candidates: Vec<String> = Vec::new();
    for at in 0..words.len()
        invariant
            candidates@.len() == at,
            forall|i: int|
                0 <= i < at ==> (#[trigger] candidates@[i])@ == with_head(head@, words@[i]@),
    {
        candidates.push(put_behind(head, words[at].as_str()));
    }
    assert(texts(candidates@) =~= reassembled(head@, texts(words@)));
    candidates
}

/// Joins `segments` by separators.
pub fn join_words(segments: &Vec<String>) -> (joined: String)
    ensures
        joined@ == join(texts(segments@)),
{
    let ghost all = texts(segments@);
    let mut joined = String::new();
    for at in 0..segments.len()
        invariant
            all == texts(segments@),
            joined@ == join(all.take(at as int)),
    {
        proof {
            reveal_strlit("-");
            assert(all.take(at + 1).drop_last() == all.take(at as int));
            assert(all.take(at + 1).last() == segments@[at as int]@);
        }
        if at > 0 {
            joined.append("-");
        }
        joined.append(segments[at].as_str());
    }
    proof {
        assert(all.take(segments.len() as int) == all);
    }
    joined
}

/// A joined sequence starts with its first segment, and a separator or the
/// end follows it.
pub proof fn lemma_join_first(segments: Seq<Seq<char>>)
    requires
        segments.len() >= 1,
    ensures
        segments[0].is_prefix_of(join(segments)),
        segments.len() == 1 ==> join(segments) == segments[0],
        segments.len() > 1 ==> join(segments).len() > segments[0].len() && join(
            segments,
        )[segments[0].len() as int] == SEPARATOR,
    decreases segments.len(),
{
    if segments.len() == 2 {
        assert(segments.drop_last()[0] == segments[0]);
        assert(join(segments.drop_last()) == segments[0]);
    } else if segments.len() > 2 {
        lemma_join_first(segments.drop_last());
        assert(segments.drop_last()[0] == segments[0]);
    }
}

} // verus!
