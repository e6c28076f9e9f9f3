use lineshell::name_valid;

#[test]
fn test_name_valid() {
    let tests = [
        ("hello", true),
        ("你好", true),
        ("hello_123", true),
        ("hello{", false),
        ("hello(", false),
        ("hel}lo", false),
        ("hel)lo", false),
        ("1e", false),
        ("1ist", false),
        ("", false),
    ];

    for t in &tests {
        assert_eq!(t.1, name_valid(t.0), "input: {}", t.1);
    }
}

#[test]
fn name_with_equals_sign_is_refused() {
    assert!(!name_valid("a=b"));
    assert!(!name_valid("="));
}

#[test]
fn name_may_hold_digits_after_its_first_character() {
    assert!(name_valid("e1"));
    assert!(name_valid("_9"));
    assert!(!name_valid("9_"));
    assert!(!name_valid("0"));
}

#[test]
fn only_ascii_digits_count_as_digits() {
    // ARABIC-INDIC DIGIT ONE is no decimal digit of the grammar.
    assert!(name_valid("\u{661}x"));
}

#[test]
fn name_may_hold_whitespace_and_other_signs() {
    assert!(name_valid("a b"));
    assert!(name_valid("$x"));
    assert!(name_valid("-"));
}

#[test]
fn each_reserved_character_alone_is_refused() {
    for c in ['{', '}', '(', ')', '='] {
        let mut s = String::from("ab");
        s.push(c);
        s.push_str("cd");
        assert!(!name_valid(&s), "{}", s);
        assert!(!name_valid(&c.to_string()));
    }
}
