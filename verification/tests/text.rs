use novaforge::text::{trim, white_space};

#[test]
fn white_space_matches_char_is_whitespace() {
    for n in 0..=0x10FFFFu32 {
        if let Some(c) = char::from_u32(n) {
            assert_eq!(white_space(c), c.is_whitespace(), "U+{n:04X}");
        }
    }
}

#[test]
fn trim_matches_str_trim() {
    let samples = [
        "", " ", "x", "  x ", "\t\n x y \r\n", "\u{3000}名\u{3000}", "\u{85}a\u{a0}", "a\u{200b}",
        "\u{2028}\u{2029}", " \u{1680}mid dle\u{205f}", "\u{feff}bom",
    ];
    for s in samples {
        assert_eq!(trim(s), s.trim(), "{s:?}");
    }
}
