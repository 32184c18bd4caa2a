use skekbot_rs::features::dad::{dad_joke_reply, dad_name_would_fail, get_dad_joke_name};
use skekbot_rs::features::hidden::{extract_nouns_with_correct_verb, NlpToken};
use skekbot_rs::features::quote::{quote_layout, quote_layout_fits, quote_signature, QuoteWrap, MAX_TEXT_WIDTH};
use skekbot_rs::text::words_of;

fn tokens(items: &[(&str, &str)]) -> Vec<NlpToken> {
    items.iter().map(|(w, t)| NlpToken { word: w.to_string(), tag: t.to_string() }).collect()
}

#[test]
fn dad_name_after_the_last_trigger() {
    assert_eq!(get_dad_joke_name("hi im Bob. nice"), Some("Bob".to_string()));
    assert_eq!(get_dad_joke_name("I am hungry, very"), Some("hungry".to_string()));
    assert_eq!(get_dad_joke_name("  I'm so tired!  "), Some("so tired".to_string()));
    assert_eq!(get_dad_joke_name("I’m Sam"), Some("Sam".to_string()));
    assert_eq!(get_dad_joke_name("im a im b"), Some("b".to_string()));
    assert_eq!(get_dad_joke_name("I AM Bob"), Some("Bob".to_string()));
    assert_eq!(get_dad_joke_name("IM ÉMILE"), Some("ÉMILE".to_string()));
}

#[test]
fn dad_name_absent() {
    assert_eq!(get_dad_joke_name("hello there"), None);
    assert_eq!(get_dad_joke_name("im"), None);
    assert_eq!(get_dad_joke_name("im   "), None);
    assert_eq!(get_dad_joke_name("im ."), None);
    assert_eq!(get_dad_joke_name("swimming"), None);
    assert_eq!(get_dad_joke_name("him there"), None);
}

#[test]
fn dad_name_is_cut_to_75_characters() {
    let long = "x".repeat(100);
    let name = get_dad_joke_name(&format!("im {long}")).unwrap();
    assert_eq!(name.chars().count(), 75);
    let name = get_dad_joke_name(&format!("im {} b", "a".repeat(74))).unwrap();
    assert_eq!(name, "a".repeat(74));
    assert_eq!(get_dad_joke_name("im   Bob the builder , yes"), Some("Bob the builder".to_string()));
}

#[test]
fn dad_name_offsets_that_split_a_character() {
    assert!(dad_name_would_fail("İİ im é"));
    assert_eq!(dad_joke_reply(false, None, "İİ im é", "Skek"), None);
    assert!(!dad_name_would_fail("İ im é"));
    assert_eq!(get_dad_joke_name("İ im é"), Some("é".to_string()));
    assert!(!dad_name_would_fail("im Bob"));
    assert!(!dad_name_would_fail("no trigger"));
}

#[test]
fn dad_reply_greets_with_a_defused_name() {
    assert_eq!(dad_joke_reply(false, None, "im Bob", "Skek"), Some("Hi Bob, I'm Skek!".to_string()));
    assert_eq!(
        dad_joke_reply(false, Some(true), "im @everyone", "Skek"),
        Some("Hi @\u{200B}everyone, I'm Skek!".to_string())
    );
    assert_eq!(dad_joke_reply(true, None, "im Bob", "Skek"), None);
    assert_eq!(dad_joke_reply(false, Some(false), "im Bob", "Skek"), None);
    assert_eq!(dad_joke_reply(false, None, "nothing here", "Skek"), None);
}

#[test]
fn hidden_joke_uses_the_last_noun_phrase() {
    let t = tokens(&[("I", "PRP"), ("love", "VBP"), ("big", "JJ"), ("dogs", "NNS")]);
    assert_eq!(extract_nouns_with_correct_verb(&t), Some("big dogs are".to_string()));
    let t = tokens(&[("dogs", "NNS"), ("food", "NN")]);
    assert_eq!(extract_nouns_with_correct_verb(&t), Some("dogs food is".to_string()));
    let t = tokens(&[("London", "NNP"), ("is", "VBZ"), ("Islands", "NNPS")]);
    assert_eq!(extract_nouns_with_correct_verb(&t), Some("Islands are".to_string()));
}

#[test]
fn hidden_joke_drops_articles() {
    let t = tokens(&[("The", "JJ"), ("cat", "NN")]);
    assert_eq!(extract_nouns_with_correct_verb(&t), Some("cat is".to_string()));
}

#[test]
fn hidden_joke_spells_out_abbreviations() {
    let t = tokens(&[("my", "PRP$"), ("perms", "NNS")]);
    assert_eq!(extract_nouns_with_correct_verb(&t), Some("permissions are".to_string()));
    let t = tokens(&[("old", "JJ"), ("Msgs", "NNS")]);
    assert_eq!(extract_nouns_with_correct_verb(&t), Some("old messages are".to_string()));
}

#[test]
fn hidden_joke_needs_a_noun() {
    assert_eq!(extract_nouns_with_correct_verb(&tokens(&[("happy", "JJ")])), None);
    assert_eq!(extract_nouns_with_correct_verb(&tokens(&[("the", "DT")])), None);
    assert_eq!(extract_nouns_with_correct_verb(&tokens(&[])), None);
    assert_eq!(extract_nouns_with_correct_verb(&tokens(&[("the", "NN")])), None);
}

fn wrap(text: &str, width_per_char: u32, max: u32) -> Vec<String> {
    let mut w = QuoteWrap::new();
    for word in words_of(text) {
        let candidate = w.candidate(&word);
        let width = candidate.chars().count() as u32 * width_per_char;
        w.step(&word, width, max);
    }
    w.finish()
}

#[test]
fn quote_wraps_words_that_do_not_fit() {
    assert_eq!(wrap("aa bb cc", 6, 10), vec!["aa", "bb", "cc"]);
    assert_eq!(wrap("aa bb cc", 1, 650), vec!["aa bb cc"]);
    assert_eq!(wrap("aa bb cc dd", 1, 5), vec!["aa bb", "cc dd"]);
    assert!(wrap("   ", 1, 5).is_empty());
    assert_eq!(wrap("enormousword", 100, MAX_TEXT_WIDTH), vec!["enormousword"]);
}

#[test]
fn quote_wrap_keeps_every_word() {
    let text = "the quick brown fox jumps over the lazy dog";
    for max in [1u32, 10, 30, 100] {
        let lines = wrap(text, 3, max);
        assert_eq!(lines.join(" "), text);
        assert!(lines.iter().all(|l| !l.is_empty()));
    }
}

#[test]
fn quote_layout_centres_the_block() {
    let l = quote_layout(&vec![100, 200], 50, (80, 30), (60, 20));
    assert_eq!(l.lines, vec![(775, 215), (725, 275)]);
    assert_eq!(l.name, (785, 355));
    assert_eq!(l.handle, (795, 395));
    let l = quote_layout(&vec![], 50, (80, 30), (60, 20));
    assert!(l.lines.is_empty());
    assert_eq!(l.name, (785, 295));
    assert_eq!(l.handle, (795, 335));
}

#[test]
fn quote_layout_bounds() {
    assert!(quote_layout_fits(&vec![100, 200], 50, (80, 30), (60, 20)));
    assert!(!quote_layout_fits(&vec![100], u32::MAX, (80, 30), (60, 20)));
    assert!(!quote_layout_fits(&vec![u32::MAX], 50, (80, 30), (60, 20)));
    assert!(!quote_layout_fits(&vec![1], 50, (u32::MAX, 30), (60, 20)));
}

#[test]
fn quote_is_signed_with_a_dash() {
    assert_eq!(quote_signature("Gurkan"), "- Gurkan");
}
