use otk::text::{blank, chars_of, ends_with, join, lines_of, prefixed, push_decimal, same_text};

#[test]
fn lines_are_those_of_the_standard_library() {
    let samples = [
        "", "\n", "a", "a\n", "a\nb", "a\nb\n", "\na", "\n\n", "a\r\nb\r\n", "a\r", "a\r\n", "\r\n",
        "a\r\r\nb", "a\n\r", "\r", "caf\u{e9}\n\u{4e2d}\r\n\n",
    ];
    for sample in samples {
        let expected: Vec<&str> = sample.lines().collect();
        assert_eq!(lines_of(sample), expected, "{:?}", sample);
    }
}

#[test]
fn blank_holds_of_white_space_only() {
    assert!(blank(""));
    assert!(blank(" \t\r\n\u{3000}"));
    assert!(!blank(" x "));
    for code in 0..=0x10ffff_u32 {
        if let Some(c) = char::from_u32(code) {
            let mut buffer = [0u8; 4];
            assert_eq!(blank(c.encode_utf8(&mut buffer)), c.is_whitespace(), "{:x}", code);
        }
    }
}

#[test]
fn decimal_numbers() {
    for n in [0, 1, 9, 10, 99, 127, 255, -1, -10, i32::MAX, i32::MIN] {
        let mut text = String::from("n=");
        push_decimal(&mut text, n);
        assert_eq!(text, format!("n={}", n));
    }
}

#[test]
fn text_comparison() {
    assert!(same_text("", ""));
    assert!(same_text("git", "git"));
    assert!(!same_text("git", "gi"));
    assert!(!same_text("gi", "git"));
    assert!(!same_text("git", "gut"));
    assert!(same_text("caf\u{e9}", "caf\u{e9}"));
}

#[test]
fn suffixes() {
    assert!(ends_with("a.py", ".py"));
    assert!(ends_with(".py", ".py"));
    assert!(ends_with("a", ""));
    assert!(!ends_with("py", ".py"));
    assert!(!ends_with("a.pyc", ".py"));
}

#[test]
fn joining_and_prefixing() {
    let parts = vec!["a".to_string(), "".to_string(), "b".to_string()];
    assert_eq!(join(&parts, "--"), "a----b");
    assert_eq!(join(&vec![], "--"), "");
    assert_eq!(join(&vec!["x".to_string()], "--"), "x");
    assert_eq!(prefixed("otk ", "ls"), "otk ls");
    assert_eq!(chars_of("a\u{e9}"), vec!['a', '\u{e9}']);
}
