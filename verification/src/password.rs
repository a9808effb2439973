//! The code as a value of its own: a text that was found to be a code.

use vstd::prelude::*;
use crate::text::{is_lower, is_word, join, lemma_join_first, SEPARATOR};

verus! {

/// The characters `from` up to `to` of `s` are a segment of `s` and a word:
/// a separator or an end of `s` stands on either side, and between them one
/// lower-case letter or more and nothing else.
pub open spec fn is_word_segment(s: Seq<char>, from: int, to: int) -> bool {
    &&& 0 <= from < to <= s.len()
    &&& (from == 0 || s[from - 1] == SEPARATOR)
    &&& (to == s.len() || s[to] == SEPARATOR)
    &&& forall|k: int| from <= k < to ==> is_lower(#[trigger] s[k])
}

/// `s` is a code: at least one of its segments is a word.
pub open spec fn is_code(s: Seq<char>) -> bool {
    exists|from: int, to: int| is_word_segment(s, from, to)
}

/// A word segment of `s` that a separator before `limit` ends.
spec fn ends_before(s: Seq<char>, from: int, to: int, limit: int) -> bool {
    &&& is_word_segment(s, from, to)
    &&& to < limit
}

/// Whether `text` is a code.
pub fn check_code(text: &str) -> (valid: bool)
    ensures
        valid == is_code(text@),
{
    let ghost s = text@;
    let ghost mut start: int = 0;
    let mut found: bool = false;
    let mut clean: bool = true;
    let mut filled: bool = false;
    for c in it: text.chars()
        invariant
            it.seq() == s,
            s == text@,
            0 <= start <= it.index(),
            start == 0 || s[start - 1] == SEPARATOR,
            forall|k: int| start <= k < it.index() ==> s[k] != SEPARATOR,
            clean == (forall|k: int| start <= k < it.index() ==> is_lower(#[trigger] s[k])),
            filled == (start < it.index()),
            found == (exists|from: int, to: int| ends_before(s, from, to, it.index() as int)),
    {
        let ghost at = it.index() as int;
        let ghost next = at + 1;
        if c == SEPARATOR {
            proof {
                if clean && filled {
                    assert(ends_before(s, start, at, next));
                }
                if found {
                    let (from, to) = choose|from: int, to: int| ends_before(s, from, to, at);
                    assert(ends_before(s, from, to, next));
                }
                if exists|from: int, to: int| ends_before(s, from, to, next) {
                    let (from, to) = choose|from: int, to: int| ends_before(s, from, to, next);
                    if to < at {
                        assert(ends_before(s, from, to, at));
                    } else {
                        if from < start {
                            assert(is_lower(s[start - 1]));
                        } else if start < from {
                            assert(s[from - 1] == SEPARATOR);
                        }
                        assert(from == start);
                    }
                }
            }
            found = found || (clean && filled);
            clean = true;
            filled = false;
            proof {
                start = at + 1;
            }
        } else {
            proof {
                if exists|from: int, to: int| ends_before(s, from, to, next) {
                    let (from, to) = choose|from: int, to: int| ends_before(s, from, to, next);
                    assert(ends_before(s, from, to, at));
                }
                if found {
                    let (from, to) = choose|from: int, to: int| ends_before(s, from, to, at);
                    assert(ends_before(s, from, to, next));
                }
            }
            clean = clean && 'a' <= c && c <= 'z';
            filled = true;
        }
    }
    proof {
        let end = s.len() as int;
        if found {
            let (from, to) = choose|from: int, to: int| ends_before(s, from, to, end);
            assert(is_word_segment(s, from, to));
        }
        if clean && filled {
            assert(is_word_segment(s, start, end));
        }
        if is_code(s) {
            let (from, to) = choose|from: int, to: int| is_word_segment(s, from, to);
            if to < end {
                assert(ends_before(s, from, to, end));
            } else {
                if from < start {
                    assert(is_lower(s[start - 1]));
                } else if start < from {
                    assert(s[from - 1] == SEPARATOR);
                }
                assert(from == start);
            }
        }
    }
    found || (clean && filled)
}

/// Segments joined by separators are a code if the first of them is a word.
pub proof fn lemma_joined_code(segments: Seq<Seq<char>>)
    requires
        segments.len() >= 1,
        is_word(segments[0]),
    ensures
        is_code(join(segments)),
{
    lemma_join_first(segments);
    let whole = join(segments);
    let first = segments[0];
    assert forall|k: int| 0 <= k < first.len() implies is_lower(#[trigger] whole[k]) by {
        assert(whole.subrange(0, first.len() as int)[k] == first[k]);
    }
    assert(is_word_segment(whole, 0, first.len() as int));
}

/// A text that was found to be a code. There is no other way to make one
/// than [`Password::parse`].
pub struct Password {
    text: String,
}

impl View for Password {
    type V = Seq<char>;

    closed spec fn view(&self) -> Seq<char> {
        self.text@
    }
}

impl Password {
    #[verifier::type_invariant]
    spec fn holds_code(&self) -> bool {
        is_code(self.text@)
    }

    /// Takes `text` for a password if it is a code.
    pub fn parse(text: String) -> (parsed: Option<Password>)
        ensures
            parsed is Some <==> is_code(text@),
            parsed matches Some(password) ==> password@ == text@,
    {
        if check_code(text.as_str()) {
            Some(Password { text })
        } else {
            None
        }
    }

    /// The code as text.
    pub fn as_ref(&self) -> (text: &str)
        ensures
            text@ == self@,
            is_code(self@),
    {
        proof {
            use_type_invariant(self);
        }
        self.text.as_str()
    }
}

} // verus!
