use murmur::decimal::{decimal_string, digit_of, push_decimal, read_thousandths};
use murmur::text::{
    chars_of, find_char, find_sub, lines_of, lowercase_chars, matches_at, rfind_char, same_chars, same_text,
    scan_back, scan_forward, string_of, strip_bounds, sub_vec, trim_bounds, CharClass,
};

fn chars(s: &str) -> Vec<char> {
    s.chars().collect()
}

fn all_chars() -> impl Iterator<Item = char> {
    (0u32..=0x10FFFF).filter_map(char::from_u32)
}

#[test]
fn classes_are_those_of_the_standard_library() {
    for c in all_chars() {
        assert_eq!(CharClass::Digit.holds(c), c.is_ascii_digit(), "{:?}", c);
        assert_eq!(CharClass::AsciiSpace.holds(c), c.is_ascii_whitespace(), "{:?}", c);
        assert_eq!(CharClass::Space.holds(c), c.is_whitespace(), "{:?}", c);
        assert_eq!(CharClass::Quote.holds(c), c == '"', "{:?}", c);
    }
}

#[test]
fn lower_case_is_that_of_the_standard_library() {
    let mut text = String::new();
    for c in all_chars().filter(|c| (*c as u32) < 0x3000) {
        text.push(c);
    }
    let expected: Vec<char> = text.to_ascii_lowercase().chars().collect();
    assert_eq!(lowercase_chars(&text), expected);
    assert_eq!(lowercase_chars("MiXed.Ext"), chars("mixed.ext"));
    assert_eq!(lowercase_chars(""), chars(""));
}

#[test]
fn trimming_is_that_of_the_standard_library() {
    let samples = [
        "",
        " ",
        "a",
        "  a  ",
        "\t\r\n a b \u{3000}\u{85}",
        "\u{a0}x\u{2003}",
        "\u{200b}x",
        " \u{feff}",
        "\u{1680}\u{2028}\u{2029}\u{202f}\u{205f}",
    ];
    for s in samples {
        let v = chars(s);
        let (from, to) = trim_bounds(&v);
        assert_eq!(string_of(&v, from, to), s.trim(), "{:?}", s);
    }
}

#[test]
fn stripping_quotes_is_that_of_the_standard_library() {
    for s in ["", "\"", "\"\"", "\"a\"", "a\"b", "\"\"a\"b\"\"\"", " \"a\""] {
        let v = chars(s);
        let (from, to) = strip_bounds(&v, CharClass::Quote);
        assert_eq!(string_of(&v, from, to), s.trim_matches('"'), "{:?}", s);
    }
}

#[test]
fn characters_of_a_string() {
    assert_eq!(chars_of("aé中\u{10000}"), vec!['a', 'é', '中', '\u{10000}']);
    assert_eq!(chars_of(""), Vec::<char>::new());
    let v = chars("hello world");
    assert_eq!(string_of(&v, 6, 11), "world");
    assert_eq!(string_of(&v, 3, 3), "");
    assert_eq!(sub_vec(&v, 0, 5), chars("hello"));
}

#[test]
fn texts_are_compared_by_their_characters() {
    assert!(same_text("abc", "abc"));
    assert!(same_text("", ""));
    assert!(!same_text("abc", "abd"));
    assert!(!same_text("abc", "ab"));
    assert!(!same_text("", "a"));
    assert!(same_chars(&chars("é"), &chars("é")));
    assert!(!same_chars(&chars("e"), &chars("é")));
}

#[test]
fn finding_a_character() {
    let v = chars("a:b:c");
    assert_eq!(find_char(&v, 0, 5, ':'), 1);
    assert_eq!(find_char(&v, 2, 5, ':'), 1);
    assert_eq!(find_char(&v, 4, 5, ':'), 1);
    assert_eq!(find_char(&v, 0, 1, ':'), 1);
    assert_eq!(find_char(&v, 5, 5, ':'), 0);
    assert_eq!(rfind_char(&v, ':'), Some(3));
    assert_eq!(rfind_char(&v, 'a'), Some(0));
    assert_eq!(rfind_char(&v, 'x'), None);
    assert_eq!(rfind_char(&chars(""), 'x'), None);
}

#[test]
fn finding_a_text_is_as_in_the_standard_library() {
    let texts = ["", "a", "ab", "abab", "xx --> y --> z", "aaa", "中文中"];
    let patterns = ["", "a", "b", "ab", "ba", " --> ", "aa", "aaaa", "中", "文中"];
    for t in texts {
        for p in patterns {
            let found = find_sub(&chars(t), &chars(p));
            let expected = t.find(p).map(|at| t[..at].chars().count());
            assert_eq!(found, expected, "{:?} in {:?}", p, t);
            assert_eq!(matches_at(&chars(t), 0, &chars(p)), t.starts_with(p));
        }
    }
    assert!(matches_at(&chars("abc"), 1, &chars("bc")));
    assert!(!matches_at(&chars("abc"), 2, &chars("bc")));
    assert!(matches_at(&chars("abc"), 3, &chars("")));
    assert!(!matches_at(&chars("abc"), 4, &chars("")));
}

#[test]
fn scanning_over_a_class() {
    let v = chars("ab 12  ");
    assert_eq!(scan_back(&v, 7, CharClass::AsciiSpace), 5);
    assert_eq!(scan_back(&v, 5, CharClass::Digit), 3);
    assert_eq!(scan_back(&v, 3, CharClass::Digit), 3);
    assert_eq!(scan_back(&v, 0, CharClass::Digit), 0);
    assert_eq!(scan_forward(&v, 3, CharClass::Digit), 5);
    assert_eq!(scan_forward(&v, 5, CharClass::Space), 7);
    assert_eq!(scan_forward(&v, 7, CharClass::Space), 7);
    assert_eq!(scan_forward(&v, 0, CharClass::Space), 0);
}

#[test]
fn numbers_are_written_as_in_the_standard_library() {
    for n in [0u64, 1, 9, 10, 11, 99, 100, 101, 4095, 65_535, 1_000_000, u64::MAX - 1, u64::MAX] {
        assert_eq!(decimal_string(n), n.to_string());
    }
    let mut out = "n=".to_string();
    push_decimal(&mut out, 42);
    push_decimal(&mut out, 0);
    assert_eq!(out, "n=420");
}

#[test]
fn digits_have_their_value() {
    for (i, c) in "0123456789".chars().enumerate() {
        assert_eq!(digit_of(c), i as u64);
    }
}

#[test]
fn numerals_are_read_in_thousandths() {
    let read = |s: &str| {
        let v = chars(s);
        read_thousandths(&v, 0, v.len())
    };
    assert_eq!(read("0"), Some(0));
    assert_eq!(read("7"), Some(7_000));
    assert_eq!(read("007"), Some(7_000));
    assert_eq!(read("35.320"), Some(35_320));
    assert_eq!(read("35.3"), Some(35_300));
    assert_eq!(read("35.32"), Some(35_320));
    assert_eq!(read("35.3209"), Some(35_320));
    assert_eq!(read("35."), Some(35_000));
    assert_eq!(read(".5"), Some(500));
    assert_eq!(read("0.001"), Some(1));
    assert_eq!(read("0.0009"), Some(0));
    assert_eq!(read("18446744073709551.615"), Some(u64::MAX));
}

#[test]
fn what_is_no_numeral_is_not_read() {
    let read = |s: &str| {
        let v = chars(s);
        read_thousandths(&v, 0, v.len())
    };
    for s in ["", ".", "..", "1.2.3", "1..2", "a", "1a", "a1", "-1", "+1", "1e3", " 1", "1 ", "١", "1,5", "inf", "NaN"] {
        assert_eq!(read(s), None, "{:?}", s);
    }
}

#[test]
fn numerals_beyond_the_range_are_not_read() {
    let read = |s: &str| {
        let v = chars(s);
        read_thousandths(&v, 0, v.len())
    };
    assert_eq!(read("18446744073709551.616"), None);
    assert_eq!(read("18446744073709552"), None);
    assert_eq!(read("18446744073709551616"), None);
    assert_eq!(read("99999999999999999999999999"), None);
    assert_eq!(read("00000000000000000000000001"), Some(1_000));
}

#[test]
fn numeral_within_a_line() {
    let v = chars("progress = 12.5 %");
    assert_eq!(read_thousandths(&v, 11, 15), Some(12_500));
    assert_eq!(read_thousandths(&v, 11, 13), Some(12_000));
    assert_eq!(read_thousandths(&v, 13, 15), Some(500));
    assert_eq!(read_thousandths(&v, 10, 15), None);
    assert_eq!(read_thousandths(&v, 11, 11), None);
}

#[test]
fn lines_are_those_of_the_standard_library() {
    let samples = [
        "", "a", "a\n", "a\nb", "a\r\nb\r\n", "\n", "\n\n", "\r", "\r\n", "a\r", "a\rb\nc",
        "a\r\r\nb", "\n\r", "x\n\ny\n\n", "中\n文",
    ];
    for s in samples {
        let expected: Vec<String> = s.lines().map(|l| l.to_string()).collect();
        assert_eq!(lines_of(s), expected, "{:?}", s);
    }
}
