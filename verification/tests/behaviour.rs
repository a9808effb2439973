use wormhole_words::password::check_code;
use wormhole_words::pgp::{load_pgpwords, PGP_WORDS};
use wormhole_words::table::{build_lists, load_words, parse_index, Member, TABLE_SIZE};
use wormhole_words::text::{
    chars_of, check_word, find_last_dash, has_prefix, join_words, put_behind, reassemble,
    split_last,
};

use wormhole_words::{LoadError, Matching, Password, Wordlist};

fn strings(all: &[&str]) -> Vec<String> {
    all.iter().map(|s| (*s).to_owned()).collect()
}

fn colours_and_foods(num_words: usize) -> Wordlist {
    Wordlist::new(
        num_words,
        vec![
            strings(&["purple", "green", "yellow"]),
            strings(&["sausages", "seltzer", "snobol"]),
        ],
    )
}

#[test]
fn scenario_of_two_small_lists() {
    let w = colours_and_foods(2);
    assert_eq!(w.get_completions("seltz"), vec!["seltzer"]);
    assert_eq!(w.get_completions("sausages-yello"), vec!["sausages-yellow"]);
    assert_eq!(w.get_completions(""), Vec::<String>::new());
    let evens = ["purple", "green", "yellow"];
    let odds = ["sausages", "seltzer", "snobol"];
    for _ in 0..20 {
        let code = w.choose_words();
        let (first, second) = code.as_ref().split_once('-').unwrap();
        assert!(evens.contains(&first));
        assert!(odds.contains(&second));
    }
}

#[test]
fn nothing_typed_matches_nothing() {
    let w = colours_and_foods(2);
    assert_eq!(w.get_completions(""), Vec::<String>::new());
    assert_eq!(w.get_completions("-"), Vec::<String>::new());
    assert_eq!(w.get_completions("purple-"), Vec::<String>::new());
    assert_eq!(w.get_completions("7-purple-"), Vec::<String>::new());
    assert_eq!(w.normal_complete("", &w.words()[0]), Vec::<String>::new());
}

#[test]
fn prefix_candidates_in_list_order() {
    let w = colours_and_foods(2);
    assert_eq!(
        w.get_completions("7-purple-s"),
        vec!["7-purple-sausages", "7-purple-seltzer", "7-purple-snobol"]
    );
    assert_eq!(w.get_completions("7-purple-se"), vec!["7-purple-seltzer"]);
    assert_eq!(w.get_completions("7-purple-sx"), Vec::<String>::new());
    assert_eq!(w.get_completions("7-p"), vec!["7-purple"]);
    for candidate in w.get_completions("7-purple-s") {
        let (head, last) = candidate.rsplit_once('-').unwrap();
        assert_eq!(head, "7-purple");
        assert!(last.starts_with('s'));
    }
}

#[test]
fn a_word_listed_twice_comes_twice() {
    let w = Wordlist::new(2, vec![strings(&["purple", "purple"]), strings(&["sausages"])]);
    assert_eq!(w.get_completions("a-pur"), vec!["a-purple", "a-purple"]);
}

#[test]
fn the_list_alternates_with_each_separator() {
    let w = colours_and_foods(2);
    assert_eq!(w.get_wordlist(""), &w.words()[1]);
    assert_eq!(w.get_wordlist("abc"), &w.words()[1]);
    assert_eq!(w.get_wordlist("a-"), &w.words()[0]);
    assert_eq!(w.get_wordlist("a-b"), &w.words()[0]);
    assert_eq!(w.get_wordlist("a-b-"), &w.words()[1]);
    assert_eq!(w.get_wordlist("---"), &w.words()[0]);
    assert_eq!(w.get_wordlist("----"), &w.words()[1]);
}

#[test]
fn a_leading_separator_is_not_kept() {
    let w = colours_and_foods(2);
    assert_eq!(w.get_completions("-pur"), vec!["purple"]);
    assert_eq!(w.get_completions("--s"), vec!["--sausages", "--seltzer", "--snobol"]);
}

#[test]
fn a_generated_code_completes_behind_a_leading_segment() {
    for num_words in 1..5 {
        let w = colours_and_foods(num_words);
        for _ in 0..10 {
            let code = w.choose_words();
            let words: Vec<&str> = code.as_ref().split('-').collect();
            assert_eq!(words.len(), num_words);
            for position in 0..num_words {
                let before = format!("7-{}", words[..position].join("-"));
                let before = before.trim_end_matches('-');
                let whole = format!("{}-{}", before, words[position]);
                for typed in 1..words[position].len() + 1 {
                    let text = format!("{}-{}", before, &words[position][..typed]);
                    assert!(w.get_completions(&text).contains(&whole));
                }
            }
        }
    }
}

#[test]
fn a_bare_code_is_completed_against_the_other_list() {
    let w = colours_and_foods(2);
    assert_eq!(w.get_completions("purple-sausa"), Vec::<String>::new());
    assert_eq!(w.get_completions("pur"), Vec::<String>::new());
    let both = Wordlist::new(1, vec![strings(&["purple"]), strings(&["purple"])]);
    assert_eq!(both.choose_words().as_ref(), "purple");
    assert_eq!(both.get_completions("pur"), vec!["purple"]);
}

#[test]
fn fuzzy_matching_ranks_a_near_miss_first() {
    let w = Wordlist::default_wordlist(2).with_matching(Matching::Fuzzy);
    assert_eq!(w.matching(), Matching::Fuzzy);
    assert_eq!(w.get_completions("22-undaunetd").first().unwrap(), "22-undaunted");
    assert_eq!(w.get_completions("22-carvaan").first().unwrap(), "22-caravan");
    assert_eq!(w.get_completions("22-caravan-zlu").first().unwrap(), "22-caravan-zulu");
}

#[test]
fn fuzzy_matching_hands_out_three_at_most() {
    let w = Wordlist::default_wordlist(2).with_matching(Matching::Fuzzy);
    let found = w.get_completions("22-con");
    assert_eq!(found.len(), 3);
    for candidate in &found {
        let word = candidate.strip_prefix("22-").unwrap();
        assert!(w.words()[0].iter().any(|entry| entry == word));
    }
    let list = w.get_wordlist("22-");
    assert_eq!(w.fuzzy_complete("undaunted", list).first().unwrap(), "undaunted");
    assert!(w.fuzzy_complete("undaunted", list).len() <= 3);
    assert_eq!(w.fuzzy_complete("", list), Vec::<String>::new());
}

#[test]
fn completion_gives_the_same_each_time() {
    let plain = Wordlist::default_wordlist(2);
    let fuzzy = Wordlist::default_wordlist(2).with_matching(Matching::Fuzzy);
    for text in ["", "22", "22-", "22-c", "22-con", "22-component-ch", "x-y-z-undau"] {
        assert_eq!(plain.get_completions(text), plain.get_completions(text));
        assert_eq!(fuzzy.get_completions(text), fuzzy.get_completions(text));
    }
}

#[test]
fn the_built_in_lists_are_full() {
    let d = Wordlist::default_wordlist(3);
    assert_eq!(d.num_words(), 3);
    assert_eq!(d.matching(), Matching::Prefix);
    assert_eq!(TABLE_SIZE, 256);
    assert_eq!(d.words().len(), 2);
    for list in d.words() {
        assert_eq!(list.len(), 256);
        for word in list {
            assert!(!word.is_empty());
            assert!(word.chars().all(|c| c.is_ascii_lowercase()));
        }
    }
    assert!(d.is_well_formed());
    assert_eq!(d.words()[0][0x32], "component");
    assert_eq!(d.words()[1][0x32], "checkup");
    assert_eq!(d.words()[0][0x0a], "apollo");
    assert_eq!(d.words()[1][0x0a], "allow");
    let tried = Wordlist::try_default_wordlist(3);
    assert!(matches!(tried, Ok(_)));
    assert_eq!(tried.unwrap().words(), d.words());
    assert_eq!(load_words(PGP_WORDS).unwrap(), load_pgpwords());
}

#[test]
fn a_code_from_the_built_in_lists() {
    let d = Wordlist::default_wordlist(4);
    for _ in 0..20 {
        let code = d.choose_words();
        let words: Vec<&str> = code.as_ref().split('-').collect();
        assert_eq!(words.len(), 4);
        for (position, word) in words.iter().enumerate() {
            assert!(d.words()[position % 2].iter().any(|entry| entry == word));
        }
    }
}

#[test]
fn all_words_first_list_first() {
    let w = colours_and_foods(2);
    assert_eq!(
        w.into_words(),
        vec!["purple", "green", "yellow", "sausages", "seltzer", "snobol"]
    );
    assert_eq!(Wordlist::default_wordlist(2).into_words().len(), 512);
}

#[test]
fn well_formed_lists() {
    assert!(colours_and_foods(2).is_well_formed());
    assert!(!Wordlist::new(2, vec![strings(&[]), strings(&["a"])]).is_well_formed());
    assert!(!Wordlist::new(2, vec![strings(&["a"]), strings(&[])]).is_well_formed());
    assert!(!Wordlist::new(2, vec![strings(&["a"]), strings(&["b", ""])]).is_well_formed());
    assert!(!Wordlist::new(2, vec![strings(&["Purple"]), strings(&["b"])]).is_well_formed());
    assert!(!Wordlist::new(2, vec![strings(&["a"]), strings(&["b-c"])]).is_well_formed());
    assert!(Wordlist::new(2, vec![strings(&["a", "b"]), strings(&["c"])]).is_well_formed());
}

fn table_without(key: &str) -> String {
    let mut lines: Vec<&str> = PGP_WORDS.lines().collect();
    lines.retain(|line| !line.contains(&format!("\"{}\":", key)));
    lines.join("\n").replace("],\n}", "]\n}")
}

#[test]
fn a_table_is_read_by_index() {
    let lists = load_words(PGP_WORDS).unwrap();
    assert_eq!(lists.len(), 2);
    assert_eq!(lists[0].len(), 256);
    assert_eq!(lists[1].len(), 256);
    assert_eq!(lists[0][0xea], "undaunted");
    assert_eq!(lists[1][0xea], "trojan");
    assert_eq!(lists[0][0xff], "yucatan");
    assert_eq!(lists[1][0xff], "zulu");
    let lower_keys = PGP_WORDS.replace("\"FF\"", "\"ff\"").replace("\"0A\"", "\"0a\"");
    assert_eq!(load_words(&lower_keys).unwrap(), lists);
    let longer = PGP_WORDS.replace("[\"Zulu\", \"Yucatan\"]", "[\"Zulu\", \"Yucatan\", 3]");
    assert_eq!(load_words(&longer).unwrap(), lists);
}

#[test]
fn the_last_member_of_an_index_counts() {
    let twice = PGP_WORDS.replace(
        "\"FF\": [\"Zulu\", \"Yucatan\"]",
        "\"FF\": [\"Zulu\", \"Yucatan\"],\n    \"ff\": [\"Zebra\", \"Yesteryear\"]",
    );
    let lists = load_words(&twice).unwrap();
    assert_eq!(lists[0][0xff], "yesteryear");
    assert_eq!(lists[1][0xff], "zebra");
    assert_eq!(lists[0][0xfe], "yesterday");
}

#[test]
fn what_is_no_table() {
    assert_eq!(load_words(""), Err(LoadError::NotATable));
    assert_eq!(load_words("not json"), Err(LoadError::NotATable));
    assert_eq!(load_words("[\"a\", \"b\"]"), Err(LoadError::NotATable));
    assert_eq!(load_words("\"00\""), Err(LoadError::NotATable));
    assert_eq!(load_words("{\"00\": [\"a\", \"b\"]"), Err(LoadError::NotATable));
}

#[test]
fn a_member_with_a_bad_name() {
    assert_eq!(load_words("{\"0g\": [\"a\", \"b\"]}"), Err(LoadError::BadKey));
    assert_eq!(load_words("{\"0\": [\"a\", \"b\"]}"), Err(LoadError::BadKey));
    assert_eq!(load_words("{\"000\": [\"a\", \"b\"]}"), Err(LoadError::BadKey));
    assert_eq!(load_words("{\"+1\": [\"a\", \"b\"]}"), Err(LoadError::BadKey));
    assert_eq!(load_words("{\"\": [\"a\", \"b\"]}"), Err(LoadError::BadKey));
    let table = PGP_WORDS.replace("\"80\"", "\"8x\"");
    assert_eq!(load_words(&table), Err(LoadError::BadKey));
}

#[test]
fn a_member_without_two_strings() {
    assert_eq!(load_words("{\"00\": \"a\"}"), Err(LoadError::BadEntry));
    assert_eq!(load_words("{\"00\": []}"), Err(LoadError::BadEntry));
    assert_eq!(load_words("{\"00\": [\"a\"]}"), Err(LoadError::BadEntry));
    assert_eq!(load_words("{\"00\": [\"a\", 1]}"), Err(LoadError::BadEntry));
    assert_eq!(load_words("{\"00\": [null, \"b\"]}"), Err(LoadError::BadEntry));
    assert_eq!(load_words("{\"00\": {\"0\": \"a\", \"1\": \"b\"}}"), Err(LoadError::BadEntry));
    let table = PGP_WORDS.replace("[\"merit\", \"intention\"]", "[\"merit\"]");
    assert_eq!(load_words(&table), Err(LoadError::BadEntry));
}

#[test]
fn a_member_with_something_that_is_no_word() {
    assert_eq!(load_words("{\"00\": [\"\", \"b\"]}"), Err(LoadError::BadWord));
    assert_eq!(load_words("{\"00\": [\"a\", \"\"]}"), Err(LoadError::BadWord));
    assert_eq!(load_words("{\"00\": [\"a-b\", \"c\"]}"), Err(LoadError::BadWord));
    assert_eq!(load_words("{\"00\": [\"a\", \"b2\"]}"), Err(LoadError::BadWord));
    assert_eq!(load_words("{\"00\": [\"a b\", \"c\"]}"), Err(LoadError::BadWord));
    let table = PGP_WORDS.replace("\"merit\"", "\"mer-it\"");
    assert_eq!(load_words(&table), Err(LoadError::BadWord));
}

#[test]
fn a_table_with_an_index_missing() {
    assert_eq!(load_words("{}"), Err(LoadError::MissingIndex));
    assert_eq!(load_words("{\"00\": [\"a\", \"b\"]}"), Err(LoadError::MissingIndex));
    assert_eq!(load_words(&table_without("80")), Err(LoadError::MissingIndex));
    assert_eq!(load_words(&table_without("00")), Err(LoadError::MissingIndex));
    assert_eq!(load_words(&table_without("FF")), Err(LoadError::MissingIndex));
}

#[test]
fn the_first_unsound_member_decides() {
    assert_eq!(
        load_words("{\"00\": [\"a\"], \"0g\": [\"a\", \"b\"]}"),
        Err(LoadError::BadEntry)
    );
    assert_eq!(
        load_words("{\"zz\": [\"a\"], \"00\": [\"\", \"b\"]}"),
        Err(LoadError::BadWord)
    );
    assert_eq!(load_words("{\"0g\": [\"\"]}"), Err(LoadError::BadKey));
    assert_eq!(load_words("{\"00\": [\"\"]}"), Err(LoadError::BadEntry));
}

#[test]
fn lists_built_from_members() {
    let member = |key: &str, items: Option<Vec<Option<&str>>>| Member {
        key: key.to_owned(),
        items: items.map(|all| all.into_iter().map(|item| item.map(|s| s.to_owned())).collect()),
    };
    let mut members: Vec<Member> = Vec::new();
    for index in 0..256 {
        members.push(member(&format!("{:02x}", index), Some(vec![Some("Odd"), Some("EVEN")])));
    }
    members.push(member("0A", Some(vec![Some("later"), Some("last"), None])));
    let lists = build_lists(&members).unwrap();
    assert_eq!(lists[0][0], "even");
    assert_eq!(lists[1][0], "odd");
    assert_eq!(lists[0][10], "last");
    assert_eq!(lists[1][10], "later");
    assert_eq!(lists[0][255], "even");
    members.push(member("0b", None));
    assert_eq!(build_lists(&members), Err(LoadError::BadEntry));
    assert_eq!(build_lists(&Vec::new()), Err(LoadError::MissingIndex));
}

#[test]
fn names_of_members() {
    assert_eq!(parse_index("00"), Some(0));
    assert_eq!(parse_index("09"), Some(9));
    assert_eq!(parse_index("0a"), Some(10));
    assert_eq!(parse_index("0A"), Some(10));
    assert_eq!(parse_index("10"), Some(16));
    assert_eq!(parse_index("7f"), Some(127));
    assert_eq!(parse_index("Ff"), Some(255));
    assert_eq!(parse_index("ff"), Some(255));
    assert_eq!(parse_index(""), None);
    assert_eq!(parse_index("f"), None);
    assert_eq!(parse_index("fff"), None);
    assert_eq!(parse_index("0g"), None);
    assert_eq!(parse_index("g0"), None);
    assert_eq!(parse_index("+f"), None);
    assert_eq!(parse_index(" 1"), None);
    assert_eq!(parse_index("é"), None);
}

#[test]
fn words() {
    assert!(check_word("a"));
    assert!(check_word("purple"));
    assert!(check_word("az"));
    assert!(!check_word(""));
    assert!(!check_word("Purple"));
    assert!(!check_word("pur-ple"));
    assert!(!check_word("purple1"));
    assert!(!check_word("purplé"));
    assert!(!check_word("`"));
    assert!(!check_word("{"));
}

#[test]
fn codes() {
    assert!(check_code("purple"));
    assert!(check_code("purple-sausages"));
    assert!(check_code("4-purple-sausages"));
    assert!(check_code("4-purple"));
    assert!(check_code("purple-4"));
    assert!(check_code("4-5-purple-6"));
    assert!(check_code("-purple"));
    assert!(check_code("purple-"));
    assert!(!check_code(""));
    assert!(!check_code("-"));
    assert!(!check_code("--"));
    assert!(!check_code("4"));
    assert!(!check_code("4-5"));
    assert!(!check_code("Purple"));
    assert!(!check_code("4-purple5-6"));
    assert!(!check_code("pur ple"));
}

#[test]
fn a_password_is_a_code() {
    let password = Password::parse("4-purple-sausages".to_owned()).unwrap();
    assert_eq!(password.as_ref(), "4-purple-sausages");
    assert!(Password::parse("".to_owned()).is_none());
    assert!(Password::parse("4-5".to_owned()).is_none());
    assert!(Password::parse("PURPLE".to_owned()).is_none());
}

#[test]
fn splitting_at_the_last_separator() {
    assert_eq!(split_last(""), ("", ""));
    assert_eq!(split_last("abc"), ("", "abc"));
    assert_eq!(split_last("a-b"), ("a", "b"));
    assert_eq!(split_last("a-b-c"), ("a-b", "c"));
    assert_eq!(split_last("a-"), ("a", ""));
    assert_eq!(split_last("-a"), ("", "a"));
    assert_eq!(split_last("-"), ("", ""));
    assert_eq!(split_last("a--"), ("a-", ""));
    assert_eq!(split_last("é-ü"), ("é", "ü"));
    assert_eq!(split_last("日本-語"), ("日本", "語"));
    assert_eq!(find_last_dash(&chars_of("a-b-c")), Some(3));
    assert_eq!(find_last_dash(&chars_of("é-ü")), Some(1));
    assert_eq!(find_last_dash(&chars_of("abc")), None);
    assert_eq!(chars_of("é-ü"), vec!['é', '-', 'ü']);
}

#[test]
fn putting_together() {
    assert_eq!(put_behind("", "word"), "word");
    assert_eq!(put_behind("a", "word"), "a-word");
    assert_eq!(put_behind("a-b", ""), "a-b-");
    assert_eq!(put_behind("", ""), "");
    assert_eq!(join_words(&strings(&[])), "");
    assert_eq!(join_words(&strings(&["a"])), "a");
    assert_eq!(join_words(&strings(&["a", "b", "c"])), "a-b-c");
    assert_eq!(join_words(&strings(&["", ""])), "-");
    assert_eq!(
        reassemble("7-x", &strings(&["a", "b"])),
        vec!["7-x-a", "7-x-b"]
    );
    assert_eq!(reassemble("", &strings(&["a", "b"])), vec!["a", "b"]);
    assert_eq!(reassemble("7", &strings(&[])), Vec::<String>::new());
}

#[test]
fn starting_with() {
    assert!(has_prefix("purple", &chars_of("pur")));
    assert!(has_prefix("purple", &chars_of("purple")));
    assert!(has_prefix("purple", &chars_of("")));
    assert!(!has_prefix("purple", &chars_of("purples")));
    assert!(!has_prefix("purple", &chars_of("pub")));
    assert!(!has_prefix("", &chars_of("p")));
    assert!(has_prefix("éa", &chars_of("é")));
    assert!(!has_prefix("éa", &chars_of("e")));
}
