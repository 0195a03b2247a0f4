use music_organizer::names::{
    eq_ignore, extension_str, file_name_str, is_music_extension, joined, sanitize_name,
    string_of, track_chars,
};
use music_organizer::OptionAsStr;
use music_organizer::OptionLen;

#[test]
fn sanitize_removes_forbidden_characters() {
    assert_eq!(sanitize_name("AC/DC: Back?"), "ACDC Back");
}

#[test]
fn sanitize_replaces_leading_dot() {
    assert_eq!(sanitize_name(".hidden"), "_hidden");
}

#[test]
fn sanitize_replaces_trailing_dot() {
    assert_eq!(sanitize_name("trailing."), "trailing_");
}

#[test]
fn sanitize_strips_every_forbidden_character() {
    assert_eq!(sanitize_name("<>:\"/\\|?*"), "");
    assert_eq!(sanitize_name("a<b>c:d\"e/f\\g|h?i*j"), "abcdefghij");
}

#[test]
fn sanitize_keeps_ordinary_names() {
    assert_eq!(sanitize_name("Gold"), "Gold");
    assert_eq!(sanitize_name("a.b"), "a.b");
    assert_eq!(sanitize_name("."), "_");
}

#[test]
fn track_digits_pad_to_two() {
    assert_eq!(string_of(&track_chars(0)), "00");
    assert_eq!(string_of(&track_chars(5)), "05");
    assert_eq!(string_of(&track_chars(10)), "10");
    assert_eq!(string_of(&track_chars(123)), "123");
}

#[test]
fn joined_uses_one_separator() {
    assert_eq!(joined("/out", "Abba"), "/out/Abba");
}

#[test]
fn file_name_and_extension() {
    assert_eq!(file_name_str("/src/y.mp3"), "y.mp3");
    assert_eq!(extension_str("/src/y.mp3"), "mp3");
    assert_eq!(file_name_str("plain.m4a"), "plain.m4a");
    assert_eq!(extension_str("/a.b/c.d.m4b"), "m4b");
}

#[test]
fn case_insensitive_comparison() {
    assert!(eq_ignore("AbBa", "aBbA"));
    assert!(!eq_ignore("Abba", "Abbb"));
    assert!(!eq_ignore("Abba", "Abb"));
}

#[test]
fn music_extensions_recognized() {
    assert!(is_music_extension("mp3"));
    assert!(is_music_extension("m4a"));
    assert!(is_music_extension("m4b"));
    assert!(is_music_extension("m4p"));
    assert!(is_music_extension("m4v"));
    assert!(!is_music_extension("flac"));
    assert!(!is_music_extension("ogg"));
}

#[test]
fn option_as_str_views() {
    let some: Option<String> = Some(String::from("x"));
    let none: Option<String> = None;
    assert_eq!(some.opt_str(), "x");
    assert_eq!(none.opt_str(), "");
}

#[test]
fn option_len_counts_bytes() {
    let some: Option<String> = Some(String::from("abc"));
    let none: Option<String> = None;
    assert_eq!(some.len(), 3);
    assert_eq!(none.len(), 0);
}
