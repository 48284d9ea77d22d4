use ai_assist::text::{
    chars_of, contains, eq_ignore_ascii_case, join, join_path, replace_all, text_eq, to_hex_lower,
    trim, white_space,
};

#[test]
fn trim_removes_surrounding_white_space() {
    assert_eq!(trim("  hello world \n"), "hello world");
    assert_eq!(trim("\t\r\n"), "");
    assert_eq!(trim(""), "");
    assert_eq!(trim("\u{3000}вопрос\u{a0}"), "вопрос");
    assert_eq!(trim("a b"), "a b");
}

#[test]
fn trim_matches_std_on_samples() {
    for s in ["  x ", "\u{2003}y\u{2029}", "\u{85}z", "no-space", " \u{200b} "] {
        assert_eq!(trim(s), s.trim());
    }
}

#[test]
fn white_space_set() {
    assert!(white_space(' '));
    assert!(white_space('\n'));
    assert!(white_space('\u{1680}'));
    assert!(!white_space('a'));
    assert!(!white_space('\u{200b}'));
}

#[test]
fn contains_finds_substrings() {
    assert!(contains("sudo rm -rf / now", "rm -rf /"));
    assert!(!contains("ls -la", "mkfs"));
    assert!(contains("abc", ""));
    assert!(contains("", ""));
    assert!(!contains("ab", "abc"));
    assert!(contains("mkfs.ext4", "mkfs"));
}

#[test]
fn replace_all_replaces_every_occurrence() {
    assert_eq!(replace_all("echo {city} {city}", "{city}", "Paris"), "echo Paris Paris");
    assert_eq!(replace_all("aaaa", "aa", "b"), "bb");
    assert_eq!(replace_all("aaa", "aa", "b"), "ba");
    assert_eq!(replace_all("nothing here", "{x}", "y"), "nothing here");
    assert_eq!(replace_all("{x}", "{x}", ""), "");
    assert_eq!("aaa".replace("aa", "b"), replace_all("aaa", "aa", "b"));
}

#[test]
fn join_puts_separator_between_parts() {
    let parts = vec!["how".to_string(), "are".to_string(), "you".to_string()];
    assert_eq!(join(&parts, " "), "how are you");
    assert_eq!(join(&vec!["one".to_string()], " "), "one");
    assert_eq!(join(&Vec::new(), " "), "");
}

#[test]
fn hex_encoding_is_lower_case_two_digits_per_byte() {
    assert_eq!(to_hex_lower(&[0xbe, 0xef, 0x00, 0x0f]), "beef000f");
    assert_eq!(to_hex_lower(&[]), "");
}

#[test]
fn join_path_follows_unix_rules() {
    assert_eq!(join_path("/home/u/.cache", "ai-assist"), "/home/u/.cache/ai-assist");
    assert_eq!(join_path("/home/u/", "ai-assist"), "/home/u/ai-assist");
    assert_eq!(join_path("", "ai-assist"), "ai-assist");
    assert_eq!(join_path("/home", "/etc"), "/etc");
    assert_eq!(join_path(".", "ai-assist"), "./ai-assist");
    let std_joined = std::path::Path::new("/tmp/x").join("y.toml");
    assert_eq!(join_path("/tmp/x", "y.toml"), std_joined.to_str().unwrap());
}

#[test]
fn ascii_case_insensitive_comparison() {
    assert!(eq_ignore_ascii_case("Y", "y"));
    assert!(eq_ignore_ascii_case("y", "y"));
    assert!(!eq_ignore_ascii_case("yes", "y"));
    assert!(!eq_ignore_ascii_case("Д", "д"));
    assert!(text_eq("abc", "abc"));
    assert!(!text_eq("abc", "abd"));
    assert_eq!(chars_of("añb"), vec!['a', 'ñ', 'b']);
}
