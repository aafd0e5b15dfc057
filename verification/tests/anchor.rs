use change_report::anchor::{anchor, is_space};

#[test]
fn a_heading_becomes_an_anchor() {
    assert_eq!(anchor(" 1 January 2021"), "1-January-2021");
    assert_eq!(anchor("15 May 2015"), "15-May-2015");
    assert_eq!(anchor("31 December 1969"), "31-December-1969");
}

#[test]
fn white_space_around_a_heading_is_dropped() {
    assert_eq!(anchor(""), "");
    assert_eq!(anchor("   "), "");
    assert_eq!(anchor(" \t\n"), "");
    assert_eq!(anchor("a"), "a");
    assert_eq!(anchor("  a  b  "), "a--b");
    assert_eq!(anchor("\ta b\n"), "a-b");
    assert_eq!(anchor("a\tb"), "a\tb");
    assert_eq!(anchor("\u{3000}x y\u{a0}"), "x-y");
}

#[test]
fn anchors_agree_with_trim_and_replace() {
    let samples = [
        "", " ", "  ", "a", " a", "a ", " a ", "a b", " a b ", "a  b", "\u{85}a b\u{2003}",
        " 9 September 2021", "\r\n x \r\n", "caf\u{e9} au lait ", "\u{1F512} locked ",
        "\u{200b} zero width ", "tab\tinside",
    ];
    for sample in samples {
        assert_eq!(anchor(sample), sample.trim().replace(" ", "-"), "{:?}", sample);
    }
}

#[test]
fn white_space_is_the_unicode_property() {
    for code in 0u32..0x3100 {
        if let Some(c) = char::from_u32(code) {
            assert_eq!(is_space(c), c.is_whitespace(), "{:?}", c);
        }
    }
    assert!(!is_space('\u{1F512}'));
    assert!(!is_space('\u{FEFF}'));
}
