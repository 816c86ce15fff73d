use context_rag::text::{
    chars_of, copy_range, is_whitespace_char, split_lines, string_from, trim_bounds,
};

fn lines_as_strings(text: &str) -> Vec<String> {
    let chars = chars_of(text);
    split_lines(&chars).iter().map(|l| l.iter().collect::<String>()).collect()
}

fn std_lines(text: &str) -> Vec<String> {
    text.lines().map(|l| l.to_string()).collect()
}

fn trim_by_bounds(text: &str) -> String {
    let chars = chars_of(text);
    let (a, b) = trim_bounds(&chars);
    string_from(&chars, a, b)
}

#[test]
fn chars_of_keeps_every_character() {
    assert_eq!(chars_of(""), Vec::<char>::new());
    assert_eq!(chars_of("ab"), vec!['a', 'b']);
    assert_eq!(chars_of("h\u{e9}\u{4e16}\u{1f600}"), vec!['h', '\u{e9}', '\u{4e16}', '\u{1f600}']);
}

#[test]
fn white_space_is_the_unicode_property() {
    let mut code: u32 = 0;
    while code <= 0x10FFFF {
        if let Some(c) = char::from_u32(code) {
            assert_eq!(is_whitespace_char(c), c.is_whitespace(), "U+{:04X}", code);
        }
        code += 1;
    }
}

#[test]
fn white_space_examples() {
    assert!(is_whitespace_char(' '));
    assert!(is_whitespace_char('\n'));
    assert!(is_whitespace_char('\r'));
    assert!(is_whitespace_char('\t'));
    assert!(is_whitespace_char('\u{a0}'));
    assert!(is_whitespace_char('\u{3000}'));
    assert!(!is_whitespace_char('a'));
    assert!(!is_whitespace_char('\u{200b}'));
    assert!(!is_whitespace_char('\u{0}'));
}

#[test]
fn trim_bounds_cut_both_ends() {
    let chars = chars_of("  a b \n");
    assert_eq!(trim_bounds(&chars), (2, 5));
    assert_eq!(trim_by_bounds("  a b \n"), "a b");
    assert_eq!(trim_by_bounds("abc"), "abc");
    assert_eq!(trim_by_bounds("\u{3000}x\u{2003}"), "x");
}

#[test]
fn trim_bounds_of_blank_text_are_empty() {
    let (a, b) = trim_bounds(&chars_of(" \t\r\n"));
    assert_eq!(a, b);
    assert_eq!(trim_by_bounds(""), "");
    assert_eq!(trim_by_bounds("   "), "");
}

#[test]
fn trimming_agrees_with_the_standard_library() {
    let samples = [
        "", " ", "a", " a", "a ", "  a  b  ", "\n\na\n\n", "\r\n", "\u{a0}a\u{a0}",
        "\u{200b}a\u{200b}", "x\u{85}", "\u{1680}\u{2000}\u{200a}z\u{2028}\u{2029}\u{202f}\u{205f}",
    ];
    for s in samples {
        assert_eq!(trim_by_bounds(s), s.trim(), "{:?}", s);
    }
}

#[test]
fn lines_end_at_line_feeds() {
    assert_eq!(lines_as_strings("a\nb"), vec!["a", "b"]);
    assert_eq!(lines_as_strings("a\nb\n"), vec!["a", "b"]);
    assert_eq!(lines_as_strings("a\n\nb"), vec!["a", "", "b"]);
    assert_eq!(lines_as_strings("\n"), vec![""]);
    assert_eq!(lines_as_strings(""), Vec::<String>::new());
}

#[test]
fn lines_drop_a_carriage_return_before_a_line_feed_only() {
    assert_eq!(lines_as_strings("a\r\nb\r\n"), vec!["a", "b"]);
    assert_eq!(lines_as_strings("a\rb\n"), vec!["a\rb"]);
    assert_eq!(lines_as_strings("a\r\r\nb"), vec!["a\r", "b"]);
    assert_eq!(lines_as_strings("a\r"), vec!["a\r"]);
    assert_eq!(lines_as_strings("\r\n"), vec![""]);
}

#[test]
fn lines_agree_with_the_standard_library() {
    let samples = [
        "", "\n", "\r", "\r\n", "a", "a\n", "a\r", "a\r\n", "a\n\n", "\n\na", "a\r\n\r\nb",
        "a\n\rb", "a\r\r\n", "one\ntwo\r\nthree\rfour\n\r", "\u{e9}\n\u{4e16}\u{1f600}\r\nz",
    ];
    for s in samples {
        assert_eq!(lines_as_strings(s), std_lines(s), "{:?}", s);
    }
}

#[test]
fn ranges_are_copied_as_they_stand() {
    let chars = chars_of("hello");
    assert_eq!(copy_range(&chars, 1, 4), vec!['e', 'l', 'l']);
    assert_eq!(copy_range(&chars, 2, 2), Vec::<char>::new());
    assert_eq!(string_from(&chars, 0, 5), "hello");
    assert_eq!(string_from(&chars, 3, 5), "lo");
}
