use netprobe::text::trim;

#[test]
fn white_space_is_trimmed_at_both_ends() {
    let cases = [
        "",
        " ",
        " \t\r\n\u{b}\u{c}",
        "a",
        " a",
        "a ",
        " a b ",
        "\u{85}\u{a0}\u{1680}x\u{2000}\u{200a}\u{2028}\u{2029}\u{202f}\u{205f}\u{3000}",
        "\u{200b}x\u{200b}",
        "\u{1f}x\u{feff}",
        "ü — ",
    ];
    for s in cases {
        assert_eq!(trim(s), s.trim());
    }
    // Every character is white space here just if it is for the standard library.
    for c in '\0'..='\u{10ffff}' {
        if c.is_whitespace() || (c as u32) < 0x3100 {
            let s = format!("{c}x{c}");
            assert_eq!(trim(&s), s.trim());
        }
    }
}
