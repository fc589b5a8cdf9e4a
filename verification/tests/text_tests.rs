use opentypeless_llm::text::{
    is_blank_str, is_white_space_char, str_chars, string_from_chars, trim_string, utf8_width_of,
};

#[test]
fn white_space_matches_std_for_every_char() {
    for u in 0u32..=0x10FFFF {
        if let Some(c) = char::from_u32(u) {
            assert_eq!(is_white_space_char(c), c.is_whitespace(), "U+{:04X}", u);
        }
    }
}

#[test]
fn trim_matches_std() {
    for s in ["", "   ", " a ", "\u{3000}日本\u{2028}", "\t\r\nx y\n", "abc", "\u{85}z\u{a0}"] {
        assert_eq!(trim_string(s), s.trim());
        assert_eq!(is_blank_str(s), s.trim().is_empty());
    }
}

#[test]
fn utf8_widths_match_std() {
    for c in ['a', '\u{7f}', '\u{80}', 'é', '\u{7ff}', '\u{800}', '中', '\u{ffff}', '\u{10000}', '😀'] {
        assert_eq!(utf8_width_of(c), c.len_utf8());
    }
}

#[test]
fn chars_round_trip() {
    let v = str_chars("añ中😀");
    assert_eq!(v, vec!['a', 'ñ', '中', '😀']);
    assert_eq!(string_from_chars(&v, 1, 3), "ñ中");
}
