//! What holds of completion and generation together.
//!
//! The statements here speak of [`WordlistView`], the view of a word list,
//! and of the spec functions that the contracts of the executable functions
//! are written in.

use vstd::prelude::*;
use crate::matching::{matches_prefix, prefix_matches, Matching};
use crate::text::{
    dash_count, dash_free, head_of, is_last_dash, is_lower, is_word, join, lemma_join_first,
    lemma_last_dash, lemma_last_dash_is, partial_of, with_head, SEPARATOR,
};
use crate::wordlist::{list_index, WordlistView};

verus! {

/// The separators of two texts put together are those of the one and those
/// of the other.
pub proof fn lemma_dash_count_add(front: Seq<char>, back: Seq<char>)
    ensures
        dash_count(front + back) == dash_count(front) + dash_count(back),
    decreases back.len(),
{
    if back.len() == 0 {
        assert(front + back == front);
    } else {
        assert((front + back).drop_last() == front + back.drop_last());
        lemma_dash_count_add(front, back.drop_last());
    }
}

/// A text without separators counts none.
pub proof fn lemma_dash_count_free(s: Seq<char>)
    requires
        dash_free(s),
    ensures
        dash_count(s) == 0,
    decreases s.len(),
{
    if s.len() > 0 {
        lemma_dash_count_free(s.drop_last());
    }
}

/// Segments without separators, joined, count one separator less than there
/// are segments.
pub proof fn lemma_dash_count_join(segments: Seq<Seq<char>>)
    requires
        segments.len() >= 1,
        forall|i: int| 0 <= i < segments.len() ==> dash_free(#[trigger] segments[i]),
    ensures
        dash_count(join(segments)) == segments.len() - 1,
    decreases segments.len(),
{
    if segments.len() == 1 {
        lemma_dash_count_free(segments[0]);
    } else {
        let front = segments.drop_last();
        assert forall|i: int| 0 <= i < front.len() implies dash_free(#[trigger] front[i]) by {
            assert(front[i] == segments[i]);
        }
        lemma_dash_count_join(front);
        lemma_dash_count_add(join(front), seq![SEPARATOR]);
        lemma_dash_count_add(join(front) + seq![SEPARATOR], segments.last());
        lemma_dash_count_free(segments.last());
        assert(dash_count(seq![SEPARATOR]) == 1) by {
            assert(seq![SEPARATOR].drop_last() == Seq::<char>::empty());
            assert(seq![SEPARATOR].last() == SEPARATOR);
            assert(dash_count(Seq::<char>::empty()) == 0);
        }
    }
}

/// A word holds no separator.
pub proof fn lemma_word_dash_free(word: Seq<char>)
    requires
        is_word(word),
    ensures
        dash_free(word),
{
    assert forall|i: int| 0 <= i < word.len() implies word[i] != SEPARATOR by {
        assert(is_lower(word[i]));
    }
}

/// A text put behind a head splits again into that head and that text,
/// where the text holds no separator.
pub proof fn lemma_split_with_head(head: Seq<char>, word: Seq<char>)
    requires
        dash_free(word),
    ensures
        head_of(with_head(head, word)) == head,
        partial_of(with_head(head, word)) == word,
{
    let whole = with_head(head, word);
    if head.len() > 0 {
        let at = head.len() as int;
        assert(is_last_dash(whole, at)) by {
            assert forall|j: int| at < j < whole.len() implies whole[j] != SEPARATOR by {
                assert(whole[j] == word[j - at - 1]);
            }
        }
        lemma_last_dash_is(whole, at);
        assert(whole.subrange(0, at) == head);
        assert(whole.subrange(at + 1, whole.len() as int) == word);
    } else {
        lemma_last_dash(whole);
    }
}

/// Joining segments puts the last of them behind the others joined, where
/// the others joined are not empty.
pub proof fn lemma_join_push(before: Seq<Seq<char>>, last: Seq<char>)
    requires
        before.len() == 0 || join(before).len() > 0,
    ensures
        join(before.push(last)) == with_head(join(before), last),
{
    assert(before.push(last).drop_last() == before);
    if before.len() == 0 {
        assert(before.push(last)[0] == last);
    }
}

/// A filter keeps a sequence free of duplicates.
pub proof fn lemma_filter_no_duplicates<A>(s: Seq<A>, keep: spec_fn(A) -> bool)
    requires
        s.no_duplicates(),
    ensures
        s.filter(keep).no_duplicates(),
    decreases s.len(),
{
    reveal(Seq::filter);
    if s.len() > 0 {
        let front = s.drop_last();
        lemma_filter_no_duplicates(front, keep);
        if keep(s.last()) {
            let kept = front.filter(keep);
            assert forall|i: int| 0 <= i < kept.len() implies kept[i] != s.last() by {
                front.lemma_filter_contains_rev(keep, kept[i]);
                let at = choose|at: int| 0 <= at < front.len() && front[at] == kept[i];
                assert(s[at] == front[at]);
            }
        }
    }
}

/// Under prefix matching, nothing typed gives no candidate, and neither does
/// a text that ends at a separator.
pub proof fn lemma_nothing_typed(list: WordlistView, typed: Seq<char>)
    requires
        list.matching == Matching::Prefix,
        typed.len() == 0 || typed.last() == SEPARATOR,
    ensures
        list.completions(typed).len() == 0,
{
    if typed.len() > 0 {
        lemma_last_dash_is(typed, typed.len() - 1);
    } else {
        lemma_last_dash(typed);
    }
    let partial = partial_of(typed);
    assert(partial.len() == 0);
    let words = list.active_list(typed);
    let found = prefix_matches(partial, words);
    if found.len() > 0 {
        words.lemma_filter_pred(|word: Seq<char>| matches_prefix(partial, word), 0);
    }
}

/// Under prefix matching, each candidate keeps what was typed before the
/// last separator and ends in a word of the active list that starts with
/// what was typed after it.
pub proof fn lemma_candidates_continue(list: WordlistView, typed: Seq<char>, at: int)
    requires
        list.matching == Matching::Prefix,
        list.well_formed(),
        0 <= at < list.completions(typed).len(),
    ensures
        head_of(list.completions(typed)[at]) == head_of(typed),
        partial_of(typed).len() > 0,
        partial_of(typed).is_prefix_of(partial_of(list.completions(typed)[at])),
        list.active_list(typed).contains(partial_of(list.completions(typed)[at])),
{
    let partial = partial_of(typed);
    let words = list.active_list(typed);
    let keep = |word: Seq<char>| matches_prefix(partial, word);
    let word = words.filter(keep)[at];
    words.lemma_filter_pred(keep, at);
    words.lemma_filter_contains_rev(keep, word);
    let index = list_index(typed);
    assert(0 <= index < 2);
    let found = choose|i: int| 0 <= i < words.len() && words[i] == word;
    assert(is_word(list.lists[index][found]));
    lemma_word_dash_free(word);
    lemma_split_with_head(head_of(typed), word);
}

/// Under prefix matching, each word of the active list that starts with what
/// was typed after the last separator stands among the candidates, and where
/// the list names no word twice, no candidate comes twice.
pub proof fn lemma_every_match_once(list: WordlistView, typed: Seq<char>, word: Seq<char>)
    requires
        list.matching == Matching::Prefix,
        list.active_list(typed).no_duplicates(),
        list.active_list(typed).contains(word),
        matches_prefix(partial_of(typed), word),
    ensures
        list.completions(typed).contains(with_head(head_of(typed), word)),
        list.completions(typed).no_duplicates(),
{
    let head = head_of(typed);
    let partial = partial_of(typed);
    let words = list.active_list(typed);
    let keep = |word: Seq<char>| matches_prefix(partial, word);
    let kept = words.filter(keep);
    let all = list.completions(typed);
    let found = choose|i: int| 0 <= i < words.len() && words[i] == word;
    words.lemma_filter_contains(keep, found);
    let place = choose|i: int| 0 <= i < kept.len() && kept[i] == word;
    assert(all[place] == with_head(head, word));
    lemma_filter_no_duplicates(words, keep);
    assert forall|i: int, j: int| 0 <= i < all.len() && 0 <= j < all.len() && i != j implies all[i]
        != all[j] by {
        assert(kept[i] != kept[j]);
        if head.len() > 0 {
            let cut = head.len() as int + 1;
            assert(all[i].subrange(cut, all[i].len() as int) == kept[i]);
            assert(all[j].subrange(cut, all[j].len() as int) == kept[j]);
        }
    }
}

/// Under prefix matching, a text that breaks off within a word has that
/// word, put where it was broken off, among its candidates: if the word
/// stands in the list that the number of segments typed before it selects.
pub proof fn lemma_completes_segment(
    list: WordlistView,
    before: Seq<Seq<char>>,
    word: Seq<char>,
    typed: int,
)
    requires
        list.matching == Matching::Prefix,
        forall|i: int| 0 <= i < before.len() ==> dash_free(#[trigger] before[i]),
        before.len() == 0 || join(before).len() > 0,
        dash_free(word),
        0 < typed <= word.len(),
        list.lists[1 - before.len() % 2].contains(word),
    ensures
        list.completions(join(before.push(word.take(typed)))).contains(join(before.push(word))),
{
    let partial = word.take(typed);
    let text = join(before.push(partial));
    let segments = before.push(partial);
    assert forall|i: int| 0 <= i < segments.len() implies dash_free(#[trigger] segments[i]) by {
        if i < before.len() {
            assert(segments[i] == before[i]);
        } else {
            assert forall|k: int| 0 <= k < partial.len() implies partial[k] != SEPARATOR by {
                assert(partial[k] == word[k]);
            }
        }
    }
    lemma_dash_count_join(segments);
    assert(list_index(text) == 1 - before.len() % 2);
    lemma_join_push(before, partial);
    lemma_join_push(before, word);
    lemma_split_with_head(join(before), partial);
    let words = list.active_list(text);
    let keep = |entry: Seq<char>| matches_prefix(partial, entry);
    let kept = words.filter(keep);
    let found = choose|i: int| 0 <= i < words.len() && words[i] == word;
    assert(matches_prefix(partial, word));
    words.lemma_filter_contains(keep, found);
    let place = choose|i: int| 0 <= i < kept.len() && kept[i] == word;
    assert(list.completions(text)[place] == with_head(join(before), word));
}

/// Generation and completion agree on which list a position takes its word
/// from. Let a generated code stand behind a leading segment that is not
/// empty, as it is typed in, and let the text break off within one of the
/// words of the code. Under prefix matching the text up to and with that
/// word whole is among the candidates.
pub proof fn lemma_round_trip(
    list: WordlistView,
    lead: Seq<char>,
    chosen: Seq<Seq<char>>,
    position: int,
    typed: int,
)
    requires
        list.matching == Matching::Prefix,
        list.well_formed(),
        list.draws(chosen),
        dash_free(lead),
        lead.len() > 0,
        0 <= position < chosen.len(),
        0 < typed <= chosen[position].len(),
    ensures
        list.completions(
            join((seq![lead] + chosen.take(position)).push(chosen[position].take(typed))),
        ).contains(join(seq![lead] + chosen.take(position + 1))),
{
    let before = seq![lead] + chosen.take(position);
    let word = chosen[position];
    assert forall|i: int| 0 <= i < chosen.len() implies dash_free(#[trigger] chosen[i]) by {
        lemma_drawn_word(list, chosen, i);
        lemma_word_dash_free(chosen[i]);
    }
    assert forall|i: int| 0 <= i < before.len() implies dash_free(#[trigger] before[i]) by {
        if i > 0 {
            assert(before[i] == chosen[i - 1]);
        }
    }
    lemma_join_first(before);
    assert(before[0] == lead);
    assert(before.len() == position + 1);
    assert(1 - (position + 1) % 2 == position % 2);
    lemma_completes_segment(list, before, word, typed);
    assert(before.push(word) == seq![lead] + chosen.take(position + 1));
}

/// A generated code that breaks off within its last word has the whole code
/// among its candidates under prefix matching, where that last word also
/// stands in the list that completion selects for it: the list of the
/// position that follows.
pub proof fn lemma_round_trip_bare(list: WordlistView, chosen: Seq<Seq<char>>, typed: int)
    requires
        list.matching == Matching::Prefix,
        list.well_formed(),
        list.draws(chosen),
        chosen.len() >= 1,
        0 < typed <= chosen.last().len(),
        list.lists[chosen.len() as int % 2].contains(chosen.last()),
    ensures
        list.completions(join(chosen.drop_last().push(chosen.last().take(typed)))).contains(
            join(chosen),
        ),
{
    let before = chosen.drop_last();
    let word = chosen.last();
    assert forall|i: int| 0 <= i < chosen.len() implies dash_free(#[trigger] chosen[i]) by {
        lemma_drawn_word(list, chosen, i);
        lemma_word_dash_free(chosen[i]);
    }
    assert forall|i: int| 0 <= i < before.len() implies dash_free(#[trigger] before[i]) by {
        assert(before[i] == chosen[i]);
    }
    if before.len() > 0 {
        lemma_join_first(before);
        lemma_drawn_word(list, chosen, 0);
        assert(before[0] == chosen[0]);
    }
    assert(1 - (chosen.len() - 1) % 2 == chosen.len() % 2);
    lemma_completes_segment(list, before, word, typed);
    assert(before.push(word) == chosen);
}

/// Each word drawn for a code is a word.
pub proof fn lemma_drawn_word(list: WordlistView, chosen: Seq<Seq<char>>, at: int)
    requires
        list.well_formed(),
        list.draws(chosen),
        0 <= at < chosen.len(),
    ensures
        is_word(chosen[at]),
{
    let words = list.lists[at % 2];
    let found = choose|i: int| 0 <= i < words.len() && words[i] == chosen[at];
    assert(is_word(list.lists[at % 2][found]));
}

/// Completion depends on nothing but the word list and the text: any two
/// outcomes for the same text and for lists that hold the same are equal.
pub proof fn lemma_completions_determined(
    first: WordlistView,
    second: WordlistView,
    typed: Seq<char>,
    one: Seq<Seq<char>>,
    other: Seq<Seq<char>>,
)
    requires
        first == second,
        one == first.completions(typed),
        other == second.completions(typed),
    ensures
        one == other,
{
}

} // verus!
