//! Texts: white space, order and search.

use crown::text::{comes_before, contains_text, decimal, trim};

#[test]
fn trimming_agrees_with_the_standard_library() {
    for text in [
        "",
        " ",
        "Zoom",
        "  a b\t",
        "\u{3000}\u{a0}Größe\u{2028}\n",
        "\u{200b}kept\u{200b}",
        "\u{85}\u{1680}\u{2000}\u{200a}\u{2029}\u{202f}\u{205f}",
        "a \u{b} \u{c}",
    ] {
        assert_eq!(trim(text), text.trim(), "{text:?}");
    }
    for code in 0..0x11_0000u32 {
        if let Some(c) = char::from_u32(code) {
            let mut text = String::from(c);
            text.push('x');
            assert_eq!(trim(&text) == "x", c.is_whitespace(), "{code:#x}");
        }
    }
}

#[test]
fn texts_compare_and_search_like_strings() {
    let texts = ["", "a", "ab", "b", "ä", "\u{ffff}", "\u{10000}"];
    for a in texts {
        for b in texts {
            assert_eq!(comes_before(a, b), a < b);
            assert_eq!(contains_text(a, b), a.contains(b));
        }
    }
    assert_eq!(decimal(0), "0");
    assert_eq!(decimal(10), "10");
    assert_eq!(decimal(65535), "65535");
}
