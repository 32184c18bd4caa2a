use skekbot_rs::text::{
    byte_len_of_prefix, char_index_of_byte, chars_of, contains_char, decimal_string, has_prefix,
    has_suffix, join_strings, parse_u64, same_text, string_of, trim_chars, words_of,
};
use skekbot_rs::util::{sanitise_pings, validate_token, TokenError};

fn chars(s: &str) -> Vec<char> {
    s.chars().collect()
}

#[test]
fn words_are_split_on_any_whitespace() {
    assert_eq!(words_of("  hello\tbig \n world  "), vec!["hello", "big", "world"]);
    assert!(words_of("   ").is_empty());
    assert!(words_of("").is_empty());
    assert_eq!(words_of("a\u{3000}b"), vec!["a", "b"]);
}

#[test]
fn strings_join_with_separator() {
    let items = vec!["a".to_string(), "b".to_string(), "c".to_string()];
    assert_eq!(join_strings(&items, "\n"), "a\nb\nc");
    assert_eq!(join_strings(&vec!["x".to_string()], ", "), "x");
    assert_eq!(join_strings(&Vec::new(), ", "), "");
}

#[test]
fn decimal_and_parse_round_trip() {
    assert_eq!(decimal_string(0), "0");
    assert_eq!(decimal_string(1234567890123), "1234567890123");
    assert_eq!(decimal_string(u64::MAX), "18446744073709551615");
    for n in [0u64, 7, 42, 1_000_000, u64::MAX] {
        assert_eq!(parse_u64(&chars(&decimal_string(n))), Some(n));
    }
}

#[test]
fn parse_follows_u64_from_str() {
    assert_eq!(parse_u64(&chars("+12")), Some(12));
    assert_eq!(parse_u64(&chars("+")), None);
    assert_eq!(parse_u64(&chars("")), None);
    assert_eq!(parse_u64(&chars("12a")), None);
    assert_eq!(parse_u64(&chars("-1")), None);
    assert_eq!(parse_u64(&chars("18446744073709551616")), None);
    assert_eq!(parse_u64(&chars("007")), Some(7));
}

#[test]
fn chars_collect_back_into_a_string() {
    assert_eq!(string_of(&chars("héllo ✂️")), "héllo ✂️");
    assert_eq!(chars_of("ab"), vec!['a', 'b']);
}

#[test]
fn trimming_and_matching() {
    assert_eq!(string_of(&trim_chars(&chars("  x y \n"))), "x y");
    assert!(same_text(&chars("lua"), "lua"));
    assert!(!same_text(&chars("luau"), "lua"));
    assert!(has_prefix(&chars("@skekbot/log"), "@skekbot/"));
    assert!(!has_prefix(&chars("@skek"), "@skekbot/"));
    assert!(has_suffix(&chars("init.luau"), ".luau"));
    assert!(!has_suffix(&chars("init.lua"), ".luau"));
    assert!(contains_char(&chars("a/b"), '/'));
    assert!(!contains_char(&chars("a.b"), '/'));
}

#[test]
fn byte_offsets_of_characters() {
    let v = chars("aé✂b");
    assert_eq!(byte_len_of_prefix(&v, 4), 7);
    assert_eq!(char_index_of_byte(&v, 3), Some(2));
    assert_eq!(char_index_of_byte(&v, 2), None);
    assert_eq!(char_index_of_byte(&v, 7), Some(4));
    assert_eq!(char_index_of_byte(&v, 8), None);
}

#[test]
fn pings_are_defused() {
    assert_eq!(sanitise_pings("hi @everyone and @here"), "hi @\u{200B}everyone and @\u{200B}here");
    assert_eq!(sanitise_pings("no mentions"), "no mentions");
    for m in ["a@b@@c", "@", "", "x\u{200B}@y"] {
        let r = sanitise_pings(m);
        assert_eq!(r.replace("@\u{200B}", "@"), m);
        assert_eq!(r.chars().count(), m.chars().count() + m.matches('@').count());
    }
}

#[test]
fn tokens_are_validated() {
    assert_eq!(validate_token(None), Err(TokenError::Missing));
    assert_eq!(validate_token(Some("abc.def.ghi")), Ok("abc.def.ghi"));
    assert_eq!(validate_token(Some("Bot abc.def.ghi")), Ok("Bot abc.def.ghi"));
    assert_eq!(validate_token(Some("abc.def")), Err(TokenError::Invalid));
    assert_eq!(validate_token(Some("abc..ghi")), Err(TokenError::Invalid));
    assert_eq!(validate_token(Some("a.b.c.d")), Err(TokenError::Invalid));
    assert_eq!(TokenError::Missing.message(), "no token was provided");
    assert_eq!(TokenError::Invalid.message(), "an invalid token was provided");
}
