use term_ide::text::{trim, trim_end};

#[test]
fn trim_removes_unicode_whitespace_only() {
    assert_eq!(trim("\u{3000} a b \u{85}\t"), "a b");
    assert_eq!(trim("\u{200B}a"), "\u{200B}a");
    assert_eq!(trim("\u{2000}\u{200A}\u{2028}\u{2029}\u{202F}\u{205F}\u{1680}\u{A0}"), "");
    assert_eq!(trim_end("x \u{0B}\u{0C}\r\n"), "x");
}

#[test]
fn trim_agrees_with_std_whitespace() {
    for n in 0u32..0x3100 {
        if let Some(c) = char::from_u32(n) {
            let s = c.to_string();
            assert_eq!(trim(&s).is_empty(), c.is_whitespace(), "U+{:04X}", n);
        }
    }
}
