use taskwarrior_web::backend::listing::text_less;
use taskwarrior_web::text::{
    chars_of, concat3, decimal, holds_text, parse_index, remove_all, same_text, split,
    split_once, starts_with, starts_with_char, trim, two_digits, without_first,
};

fn strings(words: &[&str]) -> Vec<String> {
    words.iter().map(|w| w.to_string()).collect()
}

#[test]
fn trimming_takes_whitespace_from_both_ends_only() {
    assert_eq!(trim("  a b  "), "a b");
    assert_eq!(trim("\t\n a\u{a0}\u{2003}"), "a");
    assert_eq!(trim("a"), "a");
    assert_eq!(trim(""), "");
    assert_eq!(trim(" \t "), "");
    assert_eq!(trim("é "), "é");
    for text in ["  a b  ", "", " ", "x", "\u{3000}y z\r\n", " é \u{85}"] {
        assert_eq!(trim(text), text.trim());
    }
}

#[test]
fn splitting_once_cuts_at_the_first_delimiter() {
    assert_eq!(split_once("a:b:c", ':'), Some(("a", "b:c")));
    assert_eq!(split_once(":b", ':'), Some(("", "b")));
    assert_eq!(split_once("a:", ':'), Some(("a", "")));
    assert_eq!(split_once("abc", ':'), None);
    assert_eq!(split_once("", ':'), None);
    assert_eq!(split_once("é:ü", ':'), Some(("é", "ü")));
}

#[test]
fn splitting_keeps_empty_pieces() {
    assert_eq!(split("a,b", &vec![',']), strings(&["a", "b"]));
    assert_eq!(split("", &vec![',']), strings(&[""]));
    assert_eq!(split(",", &vec![',']), strings(&["", ""]));
    assert_eq!(split("a,,b,", &vec![',']), strings(&["a", "", "b", ""]));
    assert_eq!(split("+twk development", &vec![' ', '+', '-']), strings(&["", "twk", "development"]));
    assert_eq!(split("a-b c", &vec![' ', '+', '-']), strings(&["a", "b", "c"]));
    assert_eq!(split("abc", &vec![]), strings(&["abc"]));
    assert_eq!(split("é,ü", &vec![',']), strings(&["é", "ü"]));
}

#[test]
fn prefixes_and_first_characters() {
    assert_eq!(starts_with("project:a", "project:"), true);
    assert_eq!(starts_with("project", "project:"), false);
    assert_eq!(starts_with("xproject:", "project:"), false);
    assert_eq!(starts_with("abc", ""), true);
    assert_eq!(starts_with("", ""), true);
    assert_eq!(starts_with("", "a"), false);
    assert_eq!(starts_with_char("+a", '+'), true);
    assert_eq!(starts_with_char("a+", '+'), false);
    assert_eq!(starts_with_char("", '+'), false);
    assert_eq!(without_first("+abc"), "abc");
    assert_eq!(without_first("é"), "");
    assert_eq!(without_first(""), "");
}

#[test]
fn patterns_are_taken_out_from_the_left() {
    assert_eq!(remove_all("project:a.b", "project:"), "a.b");
    assert_eq!(remove_all("aXbXc", "X"), "abc");
    assert_eq!(remove_all("aaa", "aa"), "a");
    assert_eq!(remove_all("abab", "ab"), "");
    assert_eq!(remove_all("aabb", "ab"), "ab");
    assert_eq!(remove_all("", "ab"), "");
    assert_eq!(remove_all("abc", "abcd"), "abc");
    assert_eq!(remove_all("abc", ""), "abc");
    for (text, pattern) in [("xyxyx", "xy"), ("ééé", "é"), ("a.b.c", "."), ("none", "zz")] {
        assert_eq!(remove_all(text, pattern), text.replace(pattern, ""));
    }
}

#[test]
fn indices_are_decimal_digits_after_an_optional_plus() {
    assert_eq!(parse_index("0"), Some(0));
    assert_eq!(parse_index("3"), Some(3));
    assert_eq!(parse_index("+42"), Some(42));
    assert_eq!(parse_index("007"), Some(7));
    assert_eq!(parse_index(""), None);
    assert_eq!(parse_index("+"), None);
    assert_eq!(parse_index("-1"), None);
    assert_eq!(parse_index("++1"), None);
    assert_eq!(parse_index("1 "), None);
    assert_eq!(parse_index(" 1"), None);
    assert_eq!(parse_index("1_000"), None);
    assert_eq!(parse_index("12a"), None);
    assert_eq!(parse_index("٣"), None);
    assert_eq!(parse_index(&usize::MAX.to_string()), Some(usize::MAX));
    assert_eq!(parse_index(&format!("{}0", usize::MAX)), None);
    assert_eq!(parse_index("18446744073709551616"), "18446744073709551616".parse::<usize>().ok());
    assert_eq!(parse_index("99999999999999999999999999"), None);
    for text in ["5", "+5", "05", "x", "", "+", "4294967296", "18446744073709551615"] {
        assert_eq!(parse_index(text), text.parse::<usize>().ok());
    }
}

#[test]
fn texts_are_ordered_by_their_characters() {
    assert_eq!(text_less("a", "b"), true);
    assert_eq!(text_less("b", "a"), false);
    assert_eq!(text_less("a", "a"), false);
    assert_eq!(text_less("", "a"), true);
    assert_eq!(text_less("a", ""), false);
    assert_eq!(text_less("", ""), false);
    assert_eq!(text_less("ab", "abc"), true);
    assert_eq!(text_less("abd", "abc"), false);
    assert_eq!(text_less("B", "a"), true);
    for (a, b) in [("z", "é"), ("é", "z"), ("\u{ffff}", "\u{10000}"), ("a\u{10000}", "a\u{ffff}")] {
        assert_eq!(text_less(a, b), a < b);
    }
}

#[test]
fn small_text_helpers() {
    assert_eq!(chars_of("aé"), vec!['a', 'é']);
    assert_eq!(chars_of(""), Vec::<char>::new());
    assert_eq!(same_text("a", "a"), true);
    assert_eq!(same_text("a", "A"), false);
    assert_eq!(concat3("a", "b", "c"), "abc");
    assert_eq!(holds_text(&strings(&["a", "b"]), "b"), true);
    assert_eq!(holds_text(&strings(&["a", "b"]), "c"), false);
}

#[test]
fn numbers_are_written_in_decimal() {
    assert_eq!(decimal(0), "0");
    assert_eq!(decimal(7), "7");
    assert_eq!(decimal(10), "10");
    assert_eq!(decimal(1748736000), "1748736000");
    assert_eq!(decimal(-1), "-1");
    assert_eq!(decimal(-120), "-120");
    assert_eq!(decimal(i64::MAX), "9223372036854775807");
    assert_eq!(decimal(i64::MIN), "-9223372036854775808");
    for n in [0, 5, 9, 10, 99, 100, -5, -9, -10, -99, 123456, i64::MAX, i64::MIN] {
        assert_eq!(decimal(n), n.to_string());
        assert_eq!(two_digits(n), format!("{:>02}", n));
    }
    assert_eq!(two_digits(0), "00");
    assert_eq!(two_digits(5), "05");
    assert_eq!(two_digits(12), "12");
    assert_eq!(two_digits(123), "123");
    assert_eq!(two_digits(-5), "-5");
}

#[test]
fn blanks_among_the_first_characters_are_six() {
    let mut blanks: Vec<char> = Vec::new();
    for code in 0u32..128 {
        let c = char::from_u32(code).unwrap();
        let text = format!("{}a{}", c, c);
        if trim(&text) == "a" {
            blanks.push(c);
        } else {
            assert_eq!(trim(&text), text);
        }
    }
    assert_eq!(blanks, vec!['\t', '\n', '\u{b}', '\u{c}', '\r', ' ']);
}
