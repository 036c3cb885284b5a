use log2csv::text::{chars_of, trim_bounds, whitespace, wrapping, CharClass};

#[test]
fn whitespace_agrees_with_the_standard_library_on_every_character() {
    let mut code: u32 = 0;
    while code <= 0x10ffff {
        if let Some(c) = char::from_u32(code) {
            assert_eq!(whitespace(c), c.is_whitespace(), "U+{:04X}", code);
        }
        code += 1;
    }
}

#[test]
fn whitespace_characters_by_name() {
    for c in [' ', '\t', '\n', '\u{b}', '\u{c}', '\r', '\u{85}', '\u{a0}', '\u{1680}', '\u{2000}', '\u{200a}', '\u{2028}', '\u{2029}', '\u{202f}', '\u{205f}', '\u{3000}'] {
        assert!(whitespace(c));
    }
    for c in ['a', '0', '\0', '\u{8}', '\u{e}', '\u{1f}', '!', '\u{84}', '\u{86}', '\u{200b}', '\u{2060}', '\u{feff}'] {
        assert!(!whitespace(c));
    }
}

#[test]
fn wrapping_is_quote_and_square_brackets() {
    let mut code: u32 = 0;
    while code <= 0x10ffff {
        if let Some(c) = char::from_u32(code) {
            assert_eq!(wrapping(c), c == '"' || c == '[' || c == ']');
        }
        code += 1;
    }
}

#[test]
fn class_membership() {
    assert!(CharClass::Whitespace.contains(' '));
    assert!(!CharClass::Whitespace.contains('['));
    assert!(CharClass::Wrapping.contains('['));
    assert!(CharClass::Wrapping.contains(']'));
    assert!(CharClass::Wrapping.contains('"'));
    assert!(!CharClass::Wrapping.contains(' '));
    assert!(!CharClass::Wrapping.contains('\''));
}

#[test]
fn chars_of_lists_the_characters() {
    assert_eq!(chars_of(""), Vec::<char>::new());
    assert_eq!(chars_of("a\u{e9}\u{65e5}"), vec!['a', '\u{e9}', '\u{65e5}']);
}

#[test]
fn trim_bounds_cuts_both_ends_of_the_window() {
    let v: Vec<char> = "  [\"ab\"]  ".chars().collect();
    assert_eq!(trim_bounds(&v, 0, v.len(), CharClass::Whitespace), (2, 8));
    assert_eq!(trim_bounds(&v, 2, 8, CharClass::Wrapping), (4, 6));
    assert_eq!(trim_bounds(&v, 2, 8, CharClass::Whitespace), (2, 8));
    assert_eq!(trim_bounds(&v, 4, 6, CharClass::Wrapping), (4, 6));
}

#[test]
fn trim_bounds_of_a_window_of_the_class_is_empty() {
    let v: Vec<char> = "a   b".chars().collect();
    let (from, to) = trim_bounds(&v, 1, 4, CharClass::Whitespace);
    assert_eq!(from, to);
    assert!(1 <= from && to <= 4);
    assert_eq!(trim_bounds(&v, 3, 3, CharClass::Whitespace), (3, 3));
    let w: Vec<char> = "[]\"".chars().collect();
    let (p, q) = trim_bounds(&w, 0, 3, CharClass::Wrapping);
    assert_eq!(p, q);
}
