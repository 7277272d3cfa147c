use rustmem::text::{
    chars_of, contains, decimal_string, find_char, is_whitespace, join, remove_chars, replace, rfind_char,
    split_words, string_from_chars, trim_end_char, utf8_len_exceeds,
};

fn v(s: &str) -> Vec<char> {
    s.chars().collect()
}

fn s(v: &[char]) -> String {
    v.iter().collect()
}

#[test]
fn decimal_matches_to_string() {
    for n in [0u128, 7, 9, 10, 42, 100, 8019, 123456789, u64::MAX as u128, u128::MAX] {
        assert_eq!(decimal_string(n), n.to_string());
    }
}

#[test]
fn whitespace_matches_std() {
    for c in (0u32..0x11000).filter_map(char::from_u32) {
        assert_eq!(is_whitespace(c), c.is_whitespace(), "{:?}", c);
    }
}

#[test]
fn words_match_split_whitespace() {
    for text in ["", "   ", "a", " likes  sushi\tand\npizza ", "我 喜欢\u{3000}寿司", "x\u{a0}y"] {
        let words: Vec<String> = split_words(&v(text)).iter().map(|w| s(w)).collect();
        let expected: Vec<String> = text.split_whitespace().map(String::from).collect();
        assert_eq!(words, expected);
    }
}

#[test]
fn replace_matches_std() {
    for (text, pat, to) in [("aaa", "aa", "b"), ("{x}{x}", "{x}", "12"), ("no match", "zz", "y"), ("lives in", " ", "_")] {
        assert_eq!(s(&replace(&v(text), &v(pat), &v(to))), text.replace(pat, to));
    }
}

#[test]
fn contains_and_find() {
    assert!(contains(&v("is_friends_with"), &v("friends_with")));
    assert!(!contains(&v("likes"), &v("likes_")));
    assert!(contains(&v("abc"), &v("")));
    assert_eq!(find_char(&v("a[b]c]"), '['), Some(1));
    assert_eq!(rfind_char(&v("a[b]c]"), ']'), Some(5));
    assert_eq!(find_char(&v("abc"), '['), None);
}

#[test]
fn trim_join_remove() {
    assert_eq!(s(&trim_end_char(&v("http://x///"), '/')), "http://x");
    assert_eq!(s(&join(&vec![v("a"), v("b"), v("c")], &v(" OR "))), "a OR b OR c");
    assert_eq!(s(&join(&vec![], &v(", "))), "");
    assert_eq!(s(&remove_chars(&v("what?！"), &v("?！"))), "what");
}

#[test]
fn utf8_lengths() {
    assert!(!utf8_len_exceeds(&v("at"), 2));
    assert!(utf8_len_exceeds(&v("我"), 2));
    assert!(utf8_len_exceeds(&v("ab"), 1));
    assert!(!utf8_len_exceeds(&v("a"), 1));
}

#[test]
fn chars_roundtrip() {
    let text = "mixed 文字 ✓";
    assert_eq!(string_from_chars(&chars_of(text)), text);
}
