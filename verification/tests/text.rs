use swarm::text::{chars_of, is_whitespace, text_equals};

#[test]
fn whitespace_is_the_unicode_property() {
    for c in ['\t', '\n', '\u{b}', '\u{c}', '\r', ' ', '\u{85}', '\u{a0}', '\u{1680}', '\u{2000}',
        '\u{200a}', '\u{2028}', '\u{2029}', '\u{202f}', '\u{205f}', '\u{3000}'] {
        assert!(is_whitespace(c));
        assert!(c.is_whitespace());
    }
    for c in ['a', '/', '\u{200b}', '\u{180e}', '\u{feff}', '\0'] {
        assert!(!is_whitespace(c));
        assert_eq!(is_whitespace(c), c.is_whitespace());
    }
    for code in 0u32..0x11_0000 {
        if let Some(c) = char::from_u32(code) {
            assert_eq!(is_whitespace(c), c.is_whitespace(), "{:#x}", code);
        }
    }
}

#[test]
fn text_helpers() {
    assert_eq!(chars_of("aé/"), vec!['a', 'é', '/']);
    assert!(text_equals("github", "github"));
    assert!(!text_equals("github", "gitlab"));
    assert!(!text_equals("git", "github"));
}
