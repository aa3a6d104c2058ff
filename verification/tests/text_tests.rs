use eisenhower_matrix::text::{is_blank_text, is_white_space_char, trim_text};

#[test]
fn trim_removes_surrounding_spaces() {
    assert_eq!(trim_text("  buy milk \t\n"), "buy milk");
    assert_eq!(trim_text("buy milk"), "buy milk");
    assert_eq!(trim_text("a  b"), "a  b");
}

#[test]
fn trim_of_blank_is_empty() {
    assert_eq!(trim_text(""), "");
    assert_eq!(trim_text("   "), "");
    assert_eq!(trim_text("\u{3000}\u{a0}\u{2028}"), "");
}

#[test]
fn trim_keeps_inner_unicode() {
    assert_eq!(trim_text("\u{2003}할 일 목록\u{205f}"), "할 일 목록");
    assert_eq!(trim_text(" 👨‍👩‍👧 "), "👨‍👩‍👧");
}

#[test]
fn trim_is_idempotent_on_examples() {
    for s in ["", " x ", "\t\ty", "z\u{85}", "  a b  "] {
        let once = trim_text(s);
        assert_eq!(trim_text(&once), once);
    }
}

#[test]
fn trim_agrees_with_std() {
    for s in ["  x  ", "\u{1680}y\u{200a}", "\u{200b}z\u{200b}", "\u{feff} w", "\r\n"] {
        assert_eq!(trim_text(s), s.trim());
    }
}

#[test]
fn white_space_agrees_with_std_for_every_char() {
    for u in 0u32..=0x10FFFF {
        if let Some(c) = char::from_u32(u) {
            assert_eq!(is_white_space_char(c), c.is_whitespace(), "U+{:04X}", u);
        }
    }
}

#[test]
fn blank_texts() {
    assert!(is_blank_text(""));
    assert!(is_blank_text(" \t "));
    assert!(!is_blank_text(" a "));
}
