use aipass::text::byte_length;
use aipass::text::char_is_ascii_alphanumeric;
use aipass::text::char_is_control;
use aipass::text::char_is_white_space;
use aipass::text::chars_of;
use aipass::text::contains_ascii_word;
use aipass::text::decimal;
use aipass::text::eq_ignore_ascii_case;
use aipass::text::has_char;
use aipass::text::is_blank;
use aipass::text::join3;
use aipass::text::text_eq;
use aipass::text::text_has_control;
use aipass::text::trim;
use aipass::text::trim_trailing;

#[test]
fn character_classes_are_those_of_unicode() {
    for code in 0..=0x10ffffu32 {
        if let Some(c) = char::from_u32(code) {
            assert_eq!(char_is_white_space(c), c.is_whitespace(), "{code:x}");
            assert_eq!(char_is_control(c), c.is_control(), "{code:x}");
            assert_eq!(char_is_ascii_alphanumeric(c), c.is_ascii_alphanumeric(), "{code:x}");
        }
    }
}

#[test]
fn trimming_takes_white_space_off_both_ends() {
    for text in ["", " ", "a", " a ", "\u{3000}a b\t\n", "a\u{a0}", "\u{200b}a", "  \u{2029}"] {
        assert_eq!(trim(text), text.trim(), "{text:?}");
        assert_eq!(is_blank(text), text.trim().is_empty(), "{text:?}");
    }
    assert_eq!(trim_trailing("https://aipass.one///", '/'), "https://aipass.one");
    assert_eq!(trim_trailing("//", '/'), "");
    assert_eq!(trim_trailing("a/b", '/'), "a/b");
}

#[test]
fn texts_are_compared_by_their_characters() {
    assert!(text_eq("", ""));
    assert!(text_eq("äb", "äb"));
    assert!(!text_eq("ab", "aB"));
    assert!(!text_eq("ab", "abc"));
    assert!(eq_ignore_ascii_case("BeArEr", "bearer"));
    assert!(!eq_ignore_ascii_case("bearers", "bearer"));
    assert!(!eq_ignore_ascii_case("Ä", "ä"));
    assert!(!eq_ignore_ascii_case("[", "{"));
}

#[test]
fn words_are_separated_by_ascii_white_space() {
    for text in [
        "api:access",
        "profile:read api:access",
        "api:access\tprofile:read",
        " \n api:access \u{c}",
        "api:access2",
        "xapi:access",
        "api:access,profile:read",
        "profile:read\u{a0}api:access",
        "api:access\u{b}",
        "",
        "   ",
    ] {
        let expected = text.split_ascii_whitespace().any(|item| item == "api:access");
        assert_eq!(contains_ascii_word(text, "api:access"), expected, "{text:?}");
    }
    assert!(!contains_ascii_word(" a ", ""));
}

#[test]
fn lengths_count_bytes_and_numbers_are_decimal() {
    assert_eq!(byte_length("aä€😀"), 10);
    assert_eq!(chars_of("aä€"), vec!['a', 'ä', '€']);
    assert!(has_char("a%b", '%'));
    assert!(!has_char("ab", '%'));
    assert!(text_has_control("a\u{85}"));
    assert!(!text_has_control("a b"));
    assert_eq!(join3("a", "bc", "d"), "abcd");
    for number in [0u64, 7, 10, 404, 65535, u64::MAX] {
        assert_eq!(decimal(number), number.to_string());
    }
}
