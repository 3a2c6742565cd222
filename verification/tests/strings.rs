use git_kit::utils::string::{
    from_chars, is_blank, merge, none_if_empty, same_chars, same_text, to_chars, trim_text,
    trimmed, whitespace,
};

#[test]
fn whitespace_is_what_std_calls_whitespace() {
    for code in 0..=0x10FFFFu32 {
        if let Some(c) = char::from_u32(code) {
            assert_eq!(whitespace(c), c.is_whitespace(), "U+{code:04X}");
        }
    }
}

#[test]
fn trim_text_is_what_std_trims() {
    let cases = [
        "",
        " ",
        "a",
        " a",
        "a ",
        " \t\r\n a b \u{2003}\u{3000}",
        "\u{85}x\u{a0}",
        "\u{200b}x",
        "   ",
        "a\n\nb",
    ];

    for text in cases {
        assert_eq!(trim_text(text), text.trim(), "{text:?}");
        let chars: Vec<char> = text.chars().collect();
        let kept: String = trimmed(&chars).into_iter().collect();
        assert_eq!(kept, text.trim(), "{text:?}");
    }
}

#[test]
fn chars_and_strings_convert_both_ways() {
    for text in ["", "a", "héllo wörld", "🟢 ok", "tab\tnew\nline"] {
        let chars = to_chars(text);

        assert_eq!(chars, text.chars().collect::<Vec<char>>());
        assert_eq!(from_chars(&chars), text);
    }
}

#[test]
fn same_text_compares_character_by_character() {
    assert!(same_text("", ""));
    assert!(same_text("abc", "abc"));
    assert!(!same_text("abc", "abd"));
    assert!(!same_text("abc", "ab"));
    assert!(!same_text("ab", "abc"));
    assert!(same_chars(&vec!['a', 'é'], &vec!['a', 'é']));
    assert!(!same_chars(&vec!['a', 'é'], &vec!['a', 'e']));
}

#[test]
fn blank_is_empty_or_white_space_only() {
    assert!(is_blank(""));
    assert!(is_blank("   "));
    assert!(is_blank(" \t\n"));
    assert!(!is_blank(" a "));
    assert!(!is_blank("\u{200b}"));
}

#[test]
fn none_if_empty_drops_blank_values_and_keeps_others_as_they_are() {
    assert_eq!(none_if_empty(None), None);
    assert_eq!(none_if_empty(Some(String::new())), None);
    assert_eq!(none_if_empty(Some("  \n".to_string())), None);
    assert_eq!(none_if_empty(Some(" a ".to_string())), Some(" a ".to_string()));
}

#[test]
fn merge_prefers_the_first_value() {
    let first = Some("first".to_string());
    let second = Some("second".to_string());

    assert_eq!(merge(first.clone(), second.clone()), first);
    assert_eq!(merge(None, second.clone()), second);
    assert_eq!(merge(first.clone(), None), first);
    assert_eq!(merge(None, None), None);
}
