use installer_package::text::{char_is_whitespace, holds, lines, string_of, to_chars, trim};

fn owned(items: &[&str]) -> Vec<String> {
    items.iter().map(|s| s.to_string()).collect()
}

#[test]
fn whitespace_is_the_unicode_property() {
    for c in [' ', '\t', '\n', '\u{0B}', '\u{0C}', '\r', '\u{85}', '\u{A0}', '\u{1680}', '\u{2000}',
        '\u{200A}', '\u{2028}', '\u{2029}', '\u{202F}', '\u{205F}', '\u{3000}']
    {
        assert!(char_is_whitespace(c), "{:?}", c);
        assert!(c.is_whitespace());
    }
    for c in ['a', '3', '/', '\u{200B}', '\u{FEFF}', '\u{1F}', '\u{0E}', '\u{8}'] {
        assert!(!char_is_whitespace(c), "{:?}", c);
        assert!(!c.is_whitespace());
    }
}

#[test]
fn whitespace_agrees_with_std_on_every_char_below_0x3100() {
    for n in 0u32..0x3100 {
        if let Some(c) = char::from_u32(n) {
            assert_eq!(char_is_whitespace(c), c.is_whitespace(), "{:#x}", n);
        }
    }
}

#[test]
fn trim_drops_whitespace_at_both_ends_only() {
    assert_eq!(trim("  a b \n"), "a b");
    assert_eq!(trim("3\n"), "3");
    assert_eq!(trim("\u{3000}x\u{A0}"), "x");
    assert_eq!(trim(""), "");
    assert_eq!(trim(" \t\r\n"), "");
    assert_eq!(trim("x"), "x");
}

#[test]
fn trim_agrees_with_std() {
    for s in ["", " ", "a", " a", "a ", "  a  b  ", "\n3\r\n", "\u{2003}é\u{2003}", "3 ", "03"] {
        assert_eq!(trim(s), s.trim());
    }
}

#[test]
fn lines_split_at_line_feeds() {
    assert_eq!(lines("a\nb\nc"), owned(&["a", "b", "c"]));
    assert_eq!(lines("a\nb\n"), owned(&["a", "b"]));
    assert_eq!(lines(""), Vec::<String>::new());
    assert_eq!(lines("\n"), owned(&[""]));
    assert_eq!(lines("a\n\nb"), owned(&["a", "", "b"]));
}

#[test]
fn lines_drop_a_carriage_return_before_a_line_feed_only() {
    assert_eq!(lines("a\r\nb\r\n"), owned(&["a", "b"]));
    assert_eq!(lines("a\rb\n"), owned(&["a\rb"]));
    assert_eq!(lines("a\r\r\n"), owned(&["a\r"]));
    assert_eq!(lines("a\r"), owned(&["a\r"]));
    assert_eq!(lines("\r\n"), owned(&[""]));
}

#[test]
fn lines_agree_with_std() {
    for s in ["", "\n", "\r\n", "a", "a\n", "a\r\n", "a\nb", "a\r\nb\r", "\n\n", "x\r\n\r\ny\n", "é\nü"] {
        let expected: Vec<String> = s.lines().map(|l| l.to_string()).collect();
        assert_eq!(lines(s), expected, "{:?}", s);
    }
}

#[test]
fn chars_and_back() {
    let v = to_chars("héllo");
    assert_eq!(v, vec!['h', 'é', 'l', 'l', 'o']);
    assert_eq!(string_of(&v, 1, 4), "éll");
    assert_eq!(string_of(&v, 2, 2), "");
    assert_eq!(string_of(&v, 0, 5), "héllo");
}

#[test]
fn holds_finds_exact_names_only() {
    let list = owned(&["rustc", "cargo"]);
    assert!(holds(&list, "rustc"));
    assert!(holds(&list, "cargo"));
    assert!(!holds(&list, "rust"));
    assert!(!holds(&list, "rustc "));
    assert!(!holds(&Vec::new(), ""));
}
