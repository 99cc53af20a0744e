use kg_passgen::text::{chars_of, first_chars, trim};

#[test]
fn trim_removes_white_space_at_both_ends() {
    assert_eq!(trim("  master  "), "master");
    assert_eq!(trim("\t\r\n x y \n"), "x y");
    assert_eq!(trim("plain"), "plain");
    assert_eq!(trim(""), "");
    assert_eq!(trim(" \n\t "), "");
    assert_eq!(trim("a"), "a");
    assert_eq!(trim(" a"), "a");
    assert_eq!(trim("a "), "a");
}

#[test]
fn trim_knows_unicode_white_space() {
    for s in [
        "\u{a0}x\u{2003}",
        "\u{3000}\u{e9}t\u{e9}\u{2028}",
        "\u{85}a b\u{1680}",
        "\u{200b}zero width is no white space\u{200b}",
        "\u{feff}bom",
    ] {
        assert_eq!(trim(s), s.trim());
    }
    assert_eq!(trim("\u{a0}x\u{2003}"), "x");
    assert_eq!(trim("\u{200b}x"), "\u{200b}x");
}

#[test]
fn first_chars_counts_characters() {
    assert_eq!(first_chars("short", 100), "short");
    assert_eq!(first_chars("short", 5), "short");
    assert_eq!(first_chars("short", 4), "shor");
    assert_eq!(first_chars("short", 0), "");
    assert_eq!(first_chars("", 3), "");
    assert_eq!(first_chars("\u{e9}\u{4e16}z", 2), "\u{e9}\u{4e16}");
    assert_eq!(first_chars("abc", usize::MAX), "abc");
}

#[test]
fn chars_come_in_order() {
    let v = chars_of("a\u{e9}b");
    assert_eq!(v, vec!['a', '\u{e9}', 'b']);
    assert_eq!(chars_of(""), Vec::<char>::new());
}
