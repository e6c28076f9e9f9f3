use lineshell::text::{char_is_whitespace, chars_of, split_words, str_eq, trim_bounds, trim_str};

#[test]
fn whitespace_agrees_with_std() {
    for n in 0u32..=0x10FFFF {
        if let Some(c) = char::from_u32(n) {
            assert_eq!(char_is_whitespace(c), c.is_whitespace(), "U+{:04X}", n);
        }
    }
}

#[test]
fn chars_of_gives_each_character() {
    assert_eq!(chars_of(""), Vec::<char>::new());
    assert_eq!(chars_of("a你b"), vec!['a', '你', 'b']);
}

#[test]
fn trim_bounds_count_characters() {
    let v: Vec<char> = "  你好 \t".chars().collect();
    assert_eq!(trim_bounds(&v), (2, 4));
    let blank: Vec<char> = " \t ".chars().collect();
    let (start, end) = trim_bounds(&blank);
    assert_eq!(start, end);
    assert_eq!(trim_bounds(&Vec::new()), (0, 0));
}

#[test]
fn trim_str_agrees_with_std() {
    for s in ["", " ", "a", " a", "a ", "  a b  ", "\t\u{3000}x=1\u{a0}\r", "你 好", "\u{2028}"] {
        assert_eq!(trim_str(s), s.trim(), "{:?}", s);
    }
}

#[test]
fn split_words_agrees_with_std() {
    let samples =
        ["", " ", "a", " a", "a ", "echo  a\tb", "\u{3000}echo\u{a0}你好 ", "a\u{2003}\u{2003}b"];
    for s in samples {
        let expected: Vec<String> = s.split_whitespace().map(String::from).collect();
        assert_eq!(split_words(s), expected, "{:?}", s);
    }
}

#[test]
fn split_words_exact() {
    assert_eq!(split_words("  ls   -l /tmp "), vec!["ls", "-l", "/tmp"]);
    assert!(split_words(" \t ").is_empty());
}

#[test]
fn str_eq_compares_characters() {
    assert!(str_eq("", ""));
    assert!(str_eq("main", "main"));
    assert!(!str_eq("main", "mai"));
    assert!(!str_eq("main", "maim"));
    assert!(!str_eq("é", "e"));
    assert!(str_eq("你好", "你好"));
}
