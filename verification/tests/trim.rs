use configinator::trim::{is_whitespace, trim_whitespace};

fn tidy(text: &str) -> String {
    trim_whitespace(Some(String::from(text))).expect("a text stays a text")
}

/// The same rule, written with the standard library's own lines and trim.
fn reference(text: &str) -> String {
    itertools::join(text.lines().map(str::trim).filter(|l| !l.is_empty()), "\n")
}

#[test]
fn an_absent_list_stays_absent() {
    assert_eq!(trim_whitespace(None), None);
}

#[test]
fn lines_are_trimmed_and_blank_ones_dropped() {
    assert_eq!(tidy("  build/\n\n  src/test/\n  "), "build/\nsrc/test/");
    assert_eq!(tidy("\n            build/\n            src/test/\n            "), "build/\nsrc/test/");
}

#[test]
fn tidying_twice_changes_nothing() {
    for text in SAMPLES {
        let once = tidy(text);
        assert_eq!(tidy(&once), once);
    }
    assert_eq!(tidy("build/\nsrc/test/"), "build/\nsrc/test/");
}

#[test]
fn nothing_is_left_of_blank_text() {
    assert_eq!(tidy(""), "");
    assert_eq!(tidy("\n"), "");
    assert_eq!(tidy("   "), "");
    assert_eq!(tidy(" \t \n\r\n \n\n"), "");
}

#[test]
fn a_single_line_is_only_trimmed() {
    assert_eq!(tidy("src/"), "src/");
    assert_eq!(tidy("  src/"), "src/");
    assert_eq!(tidy("src/  \t"), "src/");
    assert_eq!(tidy("\tsrc/\n"), "src/");
    assert_eq!(tidy("x"), "x");
    assert_eq!(tidy(" x "), "x");
}

#[test]
fn whitespace_inside_a_line_stays() {
    assert_eq!(tidy("  my docs/  draft \n b\tc "), "my docs/  draft\nb\tc");
}

#[test]
fn the_order_of_the_lines_stays() {
    assert_eq!(tidy("c\nb\na\nb\n"), "c\nb\na\nb");
}

#[test]
fn carriage_returns_count_as_whitespace() {
    assert_eq!(tidy("a/\r\nb/\r\n"), "a/\nb/");
    assert_eq!(tidy("a/\r\n\r\nb/\r"), "a/\nb/");
    assert_eq!(tidy("\r"), "");
    assert_eq!(tidy("a\rb"), "a\rb");
}

#[test]
fn unicode_whitespace_is_trimmed() {
    assert_eq!(tidy("\u{a0}a/\u{2003}\n\u{3000}\n\u{2028}b/\u{85}"), "a/\nb/");
    assert_eq!(tidy("\u{200b}a"), "\u{200b}a");
    assert_eq!(tidy("ä ö\n  ü  "), "ä ö\nü");
}

const SAMPLES: [&str; 24] = [
    "",
    " ",
    "\n",
    "\n\n",
    "a",
    " a",
    "a ",
    " a \n",
    "\na",
    "a\n\nb",
    "a\n \t \nb\n",
    "  build/\n\n  src/test/\n  ",
    "a\r\nb\r\n",
    "a\r",
    "\r\na\r\r\n\rb",
    "a\rb\n",
    "\u{a0}x\u{a0}\n\u{2000}\u{200a}y",
    "\u{1680}\u{2028}\u{2029}\u{202f}\u{205f}\u{3000}",
    "x\u{b}y\u{c}\n\u{b}z\u{c}",
    "\u{feff}bom\n",
    "tab\tinside\n\tline",
    "ends with newline\n",
    "   \n   \n  last",
    "größe/\n  ünïcode/  \n",
];

#[test]
fn the_rule_agrees_with_the_standard_library() {
    for text in SAMPLES {
        assert_eq!(tidy(text), reference(text));
    }
}

#[test]
fn whitespace_is_what_the_standard_library_calls_whitespace() {
    let mut code: u32 = 0;
    while code <= 0x10ffff {
        if let Some(c) = char::from_u32(code) {
            assert_eq!(is_whitespace(c), c.is_whitespace());
        }
        code += 1;
    }
}

#[test]
fn the_usual_whitespace_is_whitespace() {
    for c in [' ', '\t', '\n', '\r', '\u{b}', '\u{c}', '\u{85}', '\u{a0}', '\u{3000}'] {
        assert!(is_whitespace(c));
    }
    for c in ['a', '0', '/', '.', '\u{0}', '\u{8}', '\u{e}', '\u{1f}', '\u{200b}', '\u{feff}'] {
        assert!(!is_whitespace(c));
    }
}
