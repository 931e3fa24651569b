use reversi::text::{ascii_lowercase, find_char, is_whitespace, parse_u16_str, trim};

#[test]
fn trim_removes_unicode_whitespace_at_both_ends() {
    assert_eq!(trim("  a b \t\n"), "a b");
    assert_eq!(trim("\u{3000}x\u{a0}"), "x");
    assert_eq!(trim("   "), "");
    assert_eq!(trim(""), "");
    for s in ["  a b \t\n", "\u{2003}é\u{85}", "x", " \u{200b}y "] {
        assert_eq!(trim(s), s.trim());
    }
}

#[test]
fn whitespace_matches_the_standard_library() {
    for u in 0u32..0x3100 {
        if let Some(c) = char::from_u32(u) {
            assert_eq!(is_whitespace(c), c.is_whitespace(), "{u:#x}");
        }
    }
}

#[test]
fn parse_u16_agrees_with_the_standard_parser() {
    for s in ["0", "7", "+7", "65535", "65536", "", "+", "-1", "007", "1a", "99999999999", " 1", "١"] {
        assert_eq!(parse_u16_str(s), s.parse::<u16>().ok(), "{s:?}");
    }
}

#[test]
fn find_char_gives_the_first_position() {
    assert_eq!(find_char("a:b:c", ':'), Some(1));
    assert_eq!(find_char("é:x", ':'), Some(1));
    assert_eq!(find_char("abc", ':'), None);
}

#[test]
fn ascii_lowercase_leaves_other_characters() {
    assert_eq!(ascii_lowercase("Relay.EXAMPLE.org"), "relay.example.org");
    assert_eq!(ascii_lowercase("ÀB"), "Àb");
}
