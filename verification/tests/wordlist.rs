use wormhole_words::pgp::load_pgpwords;
use wormhole_words::{Matching, Wordlist};

fn vec_strs(all: &str) -> Vec<&str> {
    all.split_whitespace()
        .map(|s| if s == "." { "" } else { s })
        .collect()
}

fn vec_strings(all: &str) -> Vec<String> {
    vec_strs(all).iter().map(|s| (*s).to_owned()).collect()
}

#[test]
fn test_load_words() {
    let w = load_pgpwords();
    assert_eq!(w.len(), 2);
    assert_eq!(w[0][0], "adroitness");
    assert_eq!(w[1][0], "aardvark");
    assert_eq!(w[0][255], "yucatan");
    assert_eq!(w[1][255], "zulu");
}

#[test]
fn test_default_wordlist() {
    let d = Wordlist::default_wordlist(2);
    assert_eq!(d.words().len(), 2);
    assert_eq!(d.words()[0][0], "adroitness");
    assert_eq!(d.words()[1][0], "aardvark");
    assert_eq!(d.words()[0][255], "yucatan");
    assert_eq!(d.words()[1][255], "zulu");
}

#[test]
fn test_get_wordlist() {
    let list = Wordlist::default_wordlist(2);
    assert_eq!(list.words().len(), 2);
    assert_eq!(list.get_wordlist("22-"), &list.words()[0]);
    assert_eq!(list.get_wordlist("22-dictator-"), &list.words()[1]);
}

#[test]
fn test_completion() {
    let words: Vec<Vec<String>> = vec![
        vec_strings("purple green yellow"),
        vec_strings("sausages seltzer snobol"),
    ];

    let w = Wordlist::new(2, words);
    assert_eq!(w.get_completions(""), Vec::<String>::new());
    assert_eq!(w.get_completions("9"), Vec::<String>::new());
    assert_eq!(w.get_completions("seltz"), vec!["seltzer"]);
    assert_eq!(w.get_completions("sausages-yello"), vec!["sausages-yellow"]);
}

#[test]
fn test_choose_words() {
    let few_words: Vec<Vec<String>> = vec![vec_strings("purple"), vec_strings("sausages")];

    let w = Wordlist::new(2, few_words.clone());
    assert_eq!(w.choose_words().as_ref(), "purple-sausages");
    let w = Wordlist::new(3, few_words.clone());
    assert_eq!(w.choose_words().as_ref(), "purple-sausages-purple");
    let w = Wordlist::new(4, few_words);
    assert_eq!(w.choose_words().as_ref(), "purple-sausages-purple-sausages");
}

#[test]
fn test_choose_words_matches_completion() {
    let few_words: Vec<Vec<String>> = vec![vec_strings("purple"), vec_strings("sausages")];

    let w = Wordlist::new(2, few_words.clone());
    assert_eq!(w.choose_words().as_ref(), "purple-sausages");

    // Check if odd and even wordlist are correctly selected
    assert_eq!(
        w.get_completions("1-purple-sausages").first().unwrap(),
        &format!("1-{}", w.choose_words().as_ref())
    );
}

#[test]
fn test_choose_more_words() {
    let more_words = vec![vec_strings("purple yellow"), vec_strings("sausages")];

    let expected2 = vec_strs("purple-sausages yellow-sausages");
    let expected3 = vec![
        "purple-sausages-purple",
        "yellow-sausages-purple",
        "purple-sausages-yellow",
        "yellow-sausages-yellow",
    ];

    let w = Wordlist::new(2, more_words.clone());
    for _ in 0..20 {
        assert!(expected2.contains(&w.choose_words().as_ref()));
    }

    let w = Wordlist::new(3, more_words);
    for _ in 0..20 {
        assert!(expected3.contains(&w.choose_words().as_ref()));
    }
}

#[test]
fn test_completion_fuzzy() {
    let wl = Wordlist::default_wordlist(2);
    let list = wl.get_wordlist("22-");

    assert_eq!(
        wl.fuzzy_complete("bzili", list).first().unwrap(),
        "brazilian"
    );
    assert_eq!(
        wl.fuzzy_complete("carvan", list).first().unwrap(),
        "caravan"
    );
    assert_ne!(
        wl.fuzzy_complete("choking", list).first().unwrap(),
        "choking"
    )
}

#[test]
fn test_completion_normal() {
    let wl = Wordlist::default_wordlist(2);
    let list = wl.get_wordlist("22-");

    assert_eq!(
        wl.normal_complete("braz", list).first().unwrap(),
        "brazilian"
    );
    assert_eq!(wl.normal_complete("cara", list).first().unwrap(), "caravan");
    assert!(wl.normal_complete("cravan", list).is_empty());
}

#[test]
fn test_wormhole_code_normal_completions() {
    let list = Wordlist::default_wordlist(2);

    assert_eq!(
        list.get_completions("22-compo").first().unwrap(),
        "22-component"
    );
    assert_eq!(
        list.get_completions("22-component-check").first().unwrap(),
        "22-component-checkup"
    );
    assert_ne!(list.get_completions("22-troj"), ["trojan"]);
}

#[test]
fn test_wormhole_code_fuzzy_completions() {
    let list = Wordlist::default_wordlist(2).with_matching(Matching::Fuzzy);

    assert_eq!(list.get_completions("22"), Vec::<String>::new());
    assert_eq!(list.get_completions("22-"), Vec::<String>::new());
    assert_ne!(list.get_completions("22-trj"), ["trojan"]);

    assert_eq!(
        list.get_completions("22-udau").first().unwrap(),
        "22-undaunted"
    );

    assert_eq!(
        list.get_completions("22-undua").first().unwrap(),
        "22-undaunted"
    );

    assert_eq!(
        list.get_completions("22-undaunted-usht").first().unwrap(),
        "22-undaunted-upshot"
    );
}
