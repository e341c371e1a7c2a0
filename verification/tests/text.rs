use regex::Regex;
use rustaman::text::{
    decimal_digits, find, from_chars, is_space_char, replace_all, same_text, split_lines,
    split_tokens, to_chars,
};

fn samples() -> Vec<String> {
    let pieces = ["", "a", "bc", " ", "\t", "\n", "\r", "\r\n", "\n\n", "\u{e9}", "\u{3000}", "ab", "aa"];
    let mut all: Vec<String> = Vec::new();
    for a in pieces.iter() {
        for b in pieces.iter() {
            for c in pieces.iter() {
                for d in pieces.iter() {
                    all.push(format!("{}{}{}{}", a, b, c, d));
                }
            }
        }
    }
    all
}

fn parts(text: &str, ranges: Vec<(usize, usize)>) -> Vec<String> {
    let chars: Vec<char> = text.chars().collect();
    ranges.into_iter().map(|(from, to)| chars[from..to].iter().collect()).collect()
}

#[test]
fn characters_of_a_string_and_back() {
    for text in samples() {
        let chars = to_chars(&text);
        assert_eq!(chars, text.chars().collect::<Vec<char>>());
        assert_eq!(from_chars(&chars), text);
    }
}

#[test]
fn lines_are_those_of_the_standard_library() {
    for text in samples() {
        let expected: Vec<String> = text.lines().map(|l| l.to_string()).collect();
        assert_eq!(parts(&text, split_lines(&to_chars(&text))), expected, "{:?}", text);
    }
}

#[test]
fn tokens_are_the_pieces_between_runs_of_white_space() {
    let pattern = Regex::new(r"\s+").unwrap();
    for text in samples() {
        let expected: Vec<String> = pattern.split(&text).map(|l| l.to_string()).collect();
        assert_eq!(parts(&text, split_tokens(&to_chars(&text))), expected, "{:?}", text);
    }
}

#[test]
fn white_space_is_that_of_unicode() {
    let mut code: u32 = 0;
    while code <= 0x10ffff {
        if let Some(c) = char::from_u32(code) {
            assert_eq!(is_space_char(c), c.is_whitespace(), "{:x}", code);
        }
        code += 1;
    }
}

#[test]
fn replacing_agrees_with_the_standard_library() {
    let patterns = ["a", "aa", "ab", "\n", "\r\n", "\u{e9}", "bc", "abc"];
    for text in samples() {
        for from in patterns.iter() {
            for to in ["", "x", "aa...", "a"] {
                let replaced = replace_all(&to_chars(&text), &to_chars(from), &to_chars(to));
                assert_eq!(from_chars(&replaced), text.replace(from, to), "{:?} {:?} {:?}", text, from, to);
            }
        }
    }
}

#[test]
fn replacing_an_empty_text_changes_nothing() {
    assert_eq!(from_chars(&replace_all(&to_chars("abc"), &to_chars(""), &to_chars("x"))), "abc");
}

#[test]
fn finding_agrees_with_the_standard_library() {
    for text in samples() {
        for pattern in ["a", "aa", "\n", "", "bc"] {
            let expected = text.find(pattern).map(|at| text[..at].chars().count());
            assert_eq!(find(&to_chars(&text), &to_chars(pattern), 0), expected, "{:?} {:?}", text, pattern);
        }
    }
    assert_eq!(find(&to_chars("abcabc"), &to_chars("bc"), 2), Some(4));
    assert_eq!(find(&to_chars("abcabc"), &to_chars("bc"), 5), None);
    assert_eq!(find(&to_chars("abc"), &to_chars(""), 3), Some(3));
    assert_eq!(find(&to_chars("abc"), &to_chars(""), 4), None);
}

#[test]
fn decimal_writing_of_numbers() {
    for n in [0u64, 1, 9, 10, 11, 99, 100, 101, 65535, 1234567890, u64::MAX] {
        assert_eq!(from_chars(&decimal_digits(n)), n.to_string());
    }
}

#[test]
fn same_text_compares_by_characters() {
    assert!(same_text("", ""));
    assert!(same_text("h\u{e9}", "h\u{e9}"));
    assert!(!same_text("http", "https"));
    assert!(!same_text("a", "b"));
}
