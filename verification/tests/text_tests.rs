use pyreqs::text::{
    find_first, is_text, same_chars, split_lines, split_on, stands_at, text_lines, to_chars,
    to_text, trim_chars, whitespace,
};

fn chars(s: &str) -> Vec<char> {
    s.chars().collect()
}

fn strings(parts: Vec<Vec<char>>) -> Vec<String> {
    parts.into_iter().map(|p| p.into_iter().collect()).collect()
}

#[test]
fn to_chars_and_back() {
    let v = to_chars("héllo");
    assert_eq!(v, vec!['h', 'é', 'l', 'l', 'o']);
    assert_eq!(to_text(&v, 0, 5), "héllo");
    assert_eq!(to_text(&v, 1, 3), "él");
    assert_eq!(to_text(&v, 2, 2), "");
}

#[test]
fn same_chars_compares_content() {
    assert!(same_chars(&chars("abc"), &chars("abc")));
    assert!(!same_chars(&chars("abc"), &chars("abd")));
    assert!(!same_chars(&chars("abc"), &chars("ab")));
    assert!(same_chars(&chars(""), &chars("")));
    assert!(is_text(&chars("venv"), "venv"));
    assert!(!is_text(&chars("venv2"), "venv"));
}

#[test]
fn whitespace_is_unicode_white_space() {
    for code in 0u32..0x11000 {
        if let Some(c) = char::from_u32(code) {
            assert_eq!(whitespace(c), c.is_whitespace(), "U+{:04X}", code);
        }
    }
}

#[test]
fn stands_at_checks_bounds() {
    let hay = chars("abcabc");
    assert!(stands_at(&hay, &chars("abc"), 0));
    assert!(stands_at(&hay, &chars("abc"), 3));
    assert!(!stands_at(&hay, &chars("abc"), 1));
    assert!(!stands_at(&hay, &chars("abc"), 4));
    assert!(stands_at(&hay, &chars(""), 6));
    assert!(!stands_at(&hay, &chars(""), 7));
}

#[test]
fn find_first_gives_the_least_index() {
    let hay = chars("a==b==c");
    assert_eq!(find_first(&hay, &chars("=="), 0), Some(1));
    assert_eq!(find_first(&hay, &chars("=="), 1), Some(1));
    assert_eq!(find_first(&hay, &chars("=="), 2), Some(4));
    assert_eq!(find_first(&hay, &chars("=="), 5), None);
    assert_eq!(find_first(&hay, &chars("x"), 0), None);
    assert_eq!(find_first(&hay, &chars(""), 0), Some(0));
    assert_eq!(find_first(&hay, &chars(""), 7), Some(7));
    assert_eq!(find_first(&hay, &chars(""), 8), None);
    assert_eq!(find_first(&chars(""), &chars("a"), 0), None);
}

#[test]
fn split_on_matches_std_split() {
    for (text, pat) in [
        ("a:b", ":"),
        ("a:b:c", ":"),
        ("abc", ":"),
        ("", ":"),
        (":", ":"),
        ("::", ":"),
        ("a==b", "=="),
        ("a===b", "=="),
        ("a====b", "=="),
        ("==", "=="),
        ("x = 1", "="),
    ] {
        let expected: Vec<String> = text.split(pat).map(String::from).collect();
        assert_eq!(strings(split_on(&chars(text), &chars(pat))), expected, "{:?} by {:?}", text, pat);
    }
}

#[test]
fn split_on_empty_separator_splits_nothing() {
    assert_eq!(strings(split_on(&chars("abc"), &chars(""))), vec!["abc".to_string()]);
}

#[test]
fn split_lines_matches_std_lines() {
    for text in [
        "",
        "\n",
        "a",
        "a\n",
        "a\nb",
        "a\r\nb\r\n",
        "a\rb\n",
        "a\r",
        "\r\n",
        "\n\n",
        "a\n\nb",
        "a\r\r\nb",
        "import os\nimport sys\n",
    ] {
        let expected: Vec<String> = text.lines().map(String::from).collect();
        assert_eq!(strings(split_lines(&chars(text))), expected, "{:?}", text);
        assert_eq!(text_lines(text), expected, "{:?}", text);
    }
}

#[test]
fn trim_chars_matches_std_trim() {
    for text in ["", " ", "a", " a", "a ", "  a b  ", "\t\r\n x \u{3000}", "\u{a0}y\u{2003}", "   "] {
        let got: String = trim_chars(&chars(text)).into_iter().collect();
        assert_eq!(got, text.trim(), "{:?}", text);
    }
}
