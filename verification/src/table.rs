//! Reading a word table.
//!
//! A word table is a JSON object. Each member is named by a two-digit
//! hexadecimal index, `00` to `ff`, and holds an array whose first two items
//! are the word for odd positions and the word for even positions, in that
//! order. A table is complete when every index has a member.

use vstd::prelude::*;
use crate::text::{check_word, chars_of, is_word, lists_of};

verus! {

/// How many words each list of a table holds.
pub const TABLE_SIZE: usize = 256;

/// Why a text is no complete word table.
#[derive(Clone, Copy, Debug, PartialEq, Eq, Structural)]
pub enum LoadError {
    /// The text is no JSON document, or the document is no object.
    NotATable,
    /// A member's name is not two hexadecimal digits.
    BadKey,
    /// A member does not hold an array that starts with two strings.
    BadEntry,
    /// One of a member's two words, in lower case, is not a word.
    BadWord,
    /// Some index has no member.
    MissingIndex,
}

/// A member of a JSON object, as far as a word table reads it.
pub struct Member {
    /// The member's name.
    pub key: String,
    /// The items of the member's value where that is an array, and of each
    /// item its text where the item is a string.
    pub items: Option<Vec<Option<String>>>,
}

/// What a [`Member`] holds.
pub ghost struct MemberView {
    pub key: Seq<char>,
    pub items: Option<Seq<Option<Seq<char>>>>,
}

impl View for Member {
    type V = MemberView;

    open spec fn view(&self) -> MemberView {
        MemberView { key: self.key@, items: self.items.deep_view() }
    }
}

/// The views of a sequence of members.
pub open spec fn member_views(members: Seq<Member>) -> Seq<MemberView> {
    Seq::new(members.len(), |i: int| members[i]@)
}

/// The members of the JSON object that `text` denotes, in the order in which
/// `serde_json` hands them out; `None` where `text` denotes no object.
pub uninterp spec fn json_members(text: Seq<char>) -> Option<Seq<MemberView>>;

/// `s` in lower case, as `str::to_lowercase` gives it.
pub uninterp spec fn lowercased(s: Seq<char>) -> Seq<char>;

/// Parses `text` with `serde_json::from_str` and copies out the members of
/// the object it denotes. Nothing is claimed of the parser but that its
/// result depends on `text` alone: the result is `json_members(text)`.
#[verifier::external_body]
fn read_members(text: &str) -> (members: Option<Vec<Member>>)
    ensures
        match members {
            Some(found) => json_members(text@) == Some(member_views(found@)),
            None => json_members(text@) is None,
        },
{
    let document: serde_json::Value = serde_json::from_str(text).ok()?;
    let object = document.as_object()?;
    Some(object.iter().map(|(key, value)| Member {
        key: key.clone(),
        items: value.as_array().map(|items| {
            items.iter().map(|item| item.as_str().map(|s| s.to_owned())).collect()
        }),
    }).collect())
}

/// Calls `str::to_lowercase`. Its result is a function of `word` alone, which
/// the contract names `lowercased(word)`.
#[verifier::external_body]
fn lowercase(word: &str) -> (lowered: String)
    ensures
        lowered@ == lowercased(word@),
{
    word.to_lowercase()
}

/// The number that a hexadecimal digit stands for.
pub open spec fn hex_value(c: char) -> Option<int> {
    if '0' <= c <= '9' {
        Some(c as int - '0' as int)
    } else if 'a' <= c <= 'f' {
        Some(c as int - 'a' as int + 10)
    } else if 'A' <= c <= 'F' {
        Some(c as int - 'A' as int + 10)
    } else {
        None
    }
}

/// The index that a member's name stands for: the name is two hexadecimal
/// digits, the first of which counts sixteenfold.
pub open spec fn hex_index(key: Seq<char>) -> Option<int> {
    if key.len() == 2 && hex_value(key[0]) is Some && hex_value(key[1]) is Some {
        Some(16 * hex_value(key[0])->0 + hex_value(key[1])->0)
    } else {
        None
    }
}

/// The first two items of a member, where they are strings: the word for odd
/// positions, then the word for even positions.
pub open spec fn pair_of(member: MemberView) -> Option<(Seq<char>, Seq<char>)> {
    match member.items {
        Some(items) => if items.len() >= 2 && items[0] is Some && items[1] is Some {
            Some((items[0]->0, items[1]->0))
        } else {
            None
        },
        None => None,
    }
}

/// What is wrong with a member, if anything.
pub open spec fn member_error(member: MemberView) -> Option<LoadError> {
    if hex_index(member.key) is None {
        Some(LoadError::BadKey)
    } else if pair_of(member) is None {
        Some(LoadError::BadEntry)
    } else {
        let pair = pair_of(member)->0;
        if is_word(lowercased(pair.0)) && is_word(lowercased(pair.1)) {
            None
        } else {
            Some(LoadError::BadWord)
        }
    }
}

/// What is wrong with the first member that has something wrong.
pub open spec fn first_error(members: Seq<MemberView>) -> Option<LoadError>
    decreases members.len(),
{
    if members.len() == 0 {
        None
    } else {
        match first_error(members.drop_last()) {
            Some(error) => Some(error),
            None => member_error(members.last()),
        }
    }
}

/// The position of the last member whose name stands for `index`.
pub open spec fn latest(members: Seq<MemberView>, index: int) -> Option<int>
    decreases members.len(),
{
    if members.len() == 0 {
        None
    } else if hex_index(members.last().key) == Some(index) {
        Some(members.len() - 1)
    } else {
        latest(members.drop_last(), index)
    }
}

/// Every index has a member.
pub open spec fn complete(members: Seq<MemberView>) -> bool {
    forall|index: int| 0 <= index < TABLE_SIZE ==> latest(members, index) is Some
}

/// The word that the members give to `index`: for an even position where
/// `even` holds, else for an odd one. Where several members share the index,
/// the last of them counts.
pub open spec fn word_at(members: Seq<MemberView>, even: bool, index: int) -> Seq<char> {
    let pair = pair_of(members[latest(members, index)->0])->0;
    if even {
        lowercased(pair.1)
    } else {
        lowercased(pair.0)
    }
}

/// The two lists of a complete table: first the words for even positions,
/// then the words for odd positions, each by index.
pub open spec fn table_lists(members: Seq<MemberView>) -> Seq<Seq<Seq<char>>> {
    seq![
        Seq::new(TABLE_SIZE as nat, |index: int| word_at(members, true, index)),
        Seq::new(TABLE_SIZE as nat, |index: int| word_at(members, false, index)),
    ]
}

/// What reading a table gives: its two lists, or the reason why it has none.
pub open spec fn loaded(table: Option<Seq<MemberView>>) -> Result<
    Seq<Seq<Seq<char>>>,
    LoadError,
> {
    match table {
        None => Err(LoadError::NotATable),
        Some(members) => match first_error(members) {
            Some(error) => Err(error),
            None => if complete(members) {
                Ok(table_lists(members))
            } else {
                Err(LoadError::MissingIndex)
            },
        },
    }
}

/// Whether an outcome of reading a table is the one that `expected` states.
pub open spec fn is_outcome(
    outcome: Result<Vec<Vec<String>>, LoadError>,
    expected: Result<Seq<Seq<Seq<char>>>, LoadError>,
) -> bool {
    match outcome {
        Ok(lists) => expected == Ok::<Seq<Seq<Seq<char>>>, LoadError>(lists_of(lists@)),
        Err(error) => expected == Err::<Seq<Seq<Seq<char>>>, LoadError>(error),
    }
}

/// There are two lists, and each holds `TABLE_SIZE` words.
pub open spec fn is_full(lists: Seq<Vec<String>>) -> bool {
    &&& lists.len() == 2
    &&& forall|list: int| 0 <= list < 2 ==> (#[trigger] lists[list])@.len() == TABLE_SIZE
    &&& forall|list: int, index: int|
        0 <= list < 2 && 0 <= index < TABLE_SIZE ==> is_word(#[trigger] lists[list]@[index]@)
}

/// The lists of a table that loads hold `TABLE_SIZE` words each.
pub proof fn lemma_loaded_lists(table: Option<Seq<MemberView>>)
    requires
        loaded(table) is Ok,
    ensures
        loaded(table)->Ok_0.len() == 2,
        forall|list: int|
            0 <= list < 2 ==> (#[trigger] loaded(table)->Ok_0[list]).len() == TABLE_SIZE,
        forall|list: int, index: int|
            0 <= list < 2 && 0 <= index < TABLE_SIZE ==> is_word(
                #[trigger] loaded(table)->Ok_0[list][index],
            ),
{
    let members = table->0;
    assert forall|list: int, index: int| 0 <= list < 2 && 0 <= index < TABLE_SIZE implies is_word(
        #[trigger] loaded(table)->Ok_0[list][index],
    ) by {
        lemma_latest(members, index);
        lemma_no_error(members, latest(members, index)->0);
    }
}

/// Where `latest` finds a member, it stands for the index, and no later
/// member does.
pub proof fn lemma_latest(members: Seq<MemberView>, index: int)
    ensures
        match latest(members, index) {
            Some(at) => {
                &&& 0 <= at < members.len()
                &&& hex_index(members[at].key) == Some(index)
                &&& forall|later: int|
                    at < later < members.len() ==> hex_index(#[trigger] members[later].key)
                        != Some(index)
            },
            None => forall|at: int|
                0 <= at < members.len() ==> hex_index(#[trigger] members[at].key) != Some(index),
        },
    decreases members.len(),
{
    if members.len() > 0 && hex_index(members.last().key) != Some(index) {
        let shorter = members.drop_last();
        lemma_latest(shorter, index);
        match latest(shorter, index) {
            Some(at) => {
                assert forall|later: int| at < later < members.len() implies hex_index(
                    #[trigger] members[later].key,
                ) != Some(index) by {
                    if later < shorter.len() {
                        assert(shorter[later] == members[later]);
                    }
                }
            },
            None => {
                assert forall|at: int| 0 <= at < members.len() implies hex_index(
                    #[trigger] members[at].key,
                ) != Some(index) by {
                    if at < shorter.len() {
                        assert(shorter[at] == members[at]);
                    }
                }
            },
        }
    }
}

/// Where no member has anything wrong, each is sound.
pub proof fn lemma_no_error(members: Seq<MemberView>, at: int)
    requires
        first_error(members) is None,
        0 <= at < members.len(),
    ensures
        member_error(members[at]) is None,
    decreases members.len(),
{
    if at < members.len() - 1 {
        lemma_no_error(members.drop_last(), at);
    }
}

/// The number that the hexadecimal digit `c` stands for.
fn hex_digit(c: char) -> (value: Option<u8>)
    ensures
        match value {
            Some(v) => hex_value(c) == Some(v as int),
            None => hex_value(c) is None,
        },
{
    if '0' <= c && c <= '9' {
        Some((c as u32 - '0' as u32) as u8)
    } else if 'a' <= c && c <= 'f' {
        Some((c as u32 - 'a' as u32 + 10) as u8)
    } else if 'A' <= c && c <= 'F' {
        Some((c as u32 - 'A' as u32 + 10) as u8)
    } else {
        None
    }
}

/// Reads a member's name as an index.
pub fn parse_index(key: &str) -> (index: Option<u8>)
    ensures
        match index {
            Some(i) => hex_index(key@) == Some(i as int),
            None => hex_index(key@) is None,
        },
{
    let digits = chars_of(key);
    if digits.len() != 2 {
        return None;
    }
    match (hex_digit(digits[0]), hex_digit(digits[1])) {
        (Some(high), Some(low)) => Some(16 * high + low),
        _ => None,
    }
}

/// An error among the first members of a table is the error of the table.
pub proof fn lemma_error_stays(members: Seq<MemberView>, seen: int)
    requires
        0 <= seen <= members.len(),
        first_error(members.take(seen)) is Some,
    ensures
        first_error(members) == first_error(members.take(seen)),
    decreases members.len() - seen,
{
    if seen < members.len() {
        assert(members.take(seen + 1).drop_last() == members.take(seen));
        lemma_error_stays(members, seen + 1);
    } else {
        assert(members.take(seen) == members);
    }
}

/// What a slot holds after some members were read: the word that they give
/// to the index, or nothing while none of them stands for it.
spec fn slot_holds(
    seen: Seq<MemberView>,
    even: bool,
    index: int,
    slot: Seq<char>,
) -> bool {
    match latest(seen, index) {
        Some(_) => slot == word_at(seen, even, index),
        None => slot.len() == 0,
    }
}

/// `TABLE_SIZE` empty slots.
fn empty_slots() -> (slots: Vec<String>)
    ensures
        slots@.len() == TABLE_SIZE,
        forall|index: int| 0 <= index < TABLE_SIZE ==> (#[trigger] slots@[index])@.len() == 0,
{
    let mut slots: Vec<String> = Vec::new();
    while slots.len() < TABLE_SIZE
        invariant
            slots@.len() <= TABLE_SIZE,
            forall|index: int| 0 <= index < slots@.len() ==> (#[trigger] slots@[index])@.len() == 0,
        decreases TABLE_SIZE - slots@.len(),
    {
        slots.push(String::new());
    }
    slots
}

/// The first two items of a member, where both are strings.
fn first_two(member: &Member) -> (pair: Option<(&String, &String)>)
    ensures
        match pair {
            Some((odd, even)) => pair_of(member@) == Some((odd@, even@)),
            None => pair_of(member@) is None,
        },
{
    match &member.items {
        Some(items) => {
            if items.len() < 2 {
                return None;
            }
            match (&items[0], &items[1]) {
                (Some(odd), Some(even)) => Some((odd, even)),
                _ => None,
            }
        },
        None => None,
    }
}

/// Builds the two lists of a table from the members of its JSON object.
///
/// Each member is read in turn: its name gives the index, its second item the
/// word for even positions and its first item the word for odd positions, both
/// taken in lower case. The first member that is unsound ends the reading with
/// its error; a table that leaves an index without a word is incomplete.
pub fn build_lists(members: &Vec<Member>) -> (outcome: Result<Vec<Vec<String>>, LoadError>)
    ensures
        is_outcome(outcome, loaded(Some(member_views(members@)))),
        outcome matches Ok(lists) ==> is_full(lists@),
{
    let ghost table = member_views(members@);
    let mut evens = empty_slots();
    let mut odds = empty_slots();
    let mut at: usize = 0;
    while at < members.len()
        invariant
            at <= members.len(),
            table == member_views(members@),
            first_error(table.take(at as int)) is None,
            evens@.len() == TABLE_SIZE,
            odds@.len() == TABLE_SIZE,
            forall|index: int|
                0 <= index < TABLE_SIZE ==> #[trigger] slot_holds(
                    table.take(at as int),
                    true,
                    index,
                    evens@[index]@,
                ),
            forall|index: int|
                0 <= index < TABLE_SIZE ==> #[trigger] slot_holds(
                    table.take(at as int),
                    false,
                    index,
                    odds@[index]@,
                ),
        decreases members.len() - at,
    {
        let member = &members[at];
        let ghost seen = table.take(at as int);
        let ghost next = table.take(at + 1);
        proof {
            assert(next.drop_last() == seen);
            assert(next.last() == member@);
        }
        let slot = match parse_index(member.key.as_str()) {
            Some(index) => index as usize,
            None => {
                proof {
                    lemma_error_stays(table, at + 1);
                }
                return Err(LoadError::BadKey);
            },
        };
        let (odd, even) = match first_two(member) {
            Some(pair) => pair,
            None => {
                proof {
                    lemma_error_stays(table, at + 1);
                }
                return Err(LoadError::BadEntry);
            },
        };
        let odd_word = lowercase(odd.as_str());
        let even_word = lowercase(even.as_str());
        if !check_word(odd_word.as_str()) || !check_word(even_word.as_str()) {
            proof {
                lemma_error_stays(table, at + 1);
            }
            return Err(LoadError::BadWord);
        }
        proof {
            assert forall|index: int| 0 <= index < TABLE_SIZE && index != slot implies latest(
                next,
                index,
            ) == latest(seen, index) && (latest(seen, index) is Some ==> word_at(next, true, index)
                == word_at(seen, true, index) && word_at(next, false, index) == word_at(
                seen,
                false,
                index,
            )) by {
                assert(hex_index(next.last().key) == Some(slot as int));
                assert(latest(next, index) == latest(next.drop_last(), index));
                if latest(seen, index) is Some {
                    lemma_latest(seen, index);
                    assert(next[latest(seen, index)->0] == seen[latest(seen, index)->0]);
                }
            }
            assert forall|index: int| 0 <= index < TABLE_SIZE implies #[trigger] slot_holds(
                next,
                true,
                index,
                evens@.update(slot as int, even_word)[index]@,
            ) by {
                assert(slot_holds(seen, true, index, evens@[index]@));
            }
            assert forall|index: int| 0 <= index < TABLE_SIZE implies #[trigger] slot_holds(
                next,
                false,
                index,
                odds@.update(slot as int, odd_word)[index]@,
            ) by {
                assert(slot_holds(seen, false, index, odds@[index]@));
            }
        }
        evens.set(slot, even_word);
        odds.set(slot, odd_word);
        at += 1;
    }
    proof {
        assert(table.take(at as int) == table);
    }
    let mut index: usize = 0;
    while index < TABLE_SIZE
        invariant
            index <= TABLE_SIZE,
            table == member_views(members@),
            first_error(table) is None,
            evens@.len() == TABLE_SIZE,
            odds@.len() == TABLE_SIZE,
            forall|i: int|
                0 <= i < TABLE_SIZE ==> #[trigger] slot_holds(table, true, i, evens@[i]@),
            forall|i: int|
                0 <= i < TABLE_SIZE ==> #[trigger] slot_holds(table, false, i, odds@[i]@),
            forall|i: int| 0 <= i < index ==> latest(table, i) is Some,
        decreases TABLE_SIZE - index,
    {
        if evens[index].as_str().is_empty() {
            proof {
                assert(slot_holds(table, true, index as int, evens@[index as int]@));
                if latest(table, index as int) is Some {
                    lemma_latest(table, index as int);
                    lemma_no_error(table, latest(table, index as int)->0);
                    assert(is_word(word_at(table, true, index as int)));
                }
                assert(latest(table, index as int) is None);
                assert(!complete(table));
            }
            return Err(LoadError::MissingIndex);
        }
        proof {
            assert(slot_holds(table, true, index as int, evens@[index as int]@));
        }
        index += 1;
    }
    let mut lists: Vec<Vec<String>> = Vec::new();
    lists.push(evens);
    lists.push(odds);
    proof {
        assert(complete(table));
        assert forall|list: int, i: int| 0 <= list < 2 && 0 <= i < TABLE_SIZE implies lists_of(
            lists@,
        )[list][i] == table_lists(table)[list][i] by {
            assert(slot_holds(table, true, i, evens@[i]@));
            assert(slot_holds(table, false, i, odds@[i]@));
        }
        assert(lists_of(lists@) =~~= table_lists(table));
        lemma_loaded_lists(Some(table));
        assert forall|list: int, i: int| 0 <= list < 2 && 0 <= i < TABLE_SIZE implies is_word(
            #[trigger] lists@[list]@[i]@,
        ) by {
            assert(lists_of(lists@)[list][i] == lists@[list]@[i]@);
        }
    }
    Ok(lists)
}

/// Reads a word table from its JSON text.
///
/// The text is parsed by `serde_json`; what is made of the members it finds is
/// stated by [`loaded`], and shown of every parse by [`build_lists`].
pub fn load_words(text: &str) -> (outcome: Result<Vec<Vec<String>>, LoadError>)
    ensures
        is_outcome(outcome, loaded(json_members(text@))),
        outcome matches Ok(lists) ==> is_full(lists@),
{
    match read_members(text) {
        Some(members) => build_lists(&members),
        None => Err(LoadError::NotATable),
    }
}

} // verus!
