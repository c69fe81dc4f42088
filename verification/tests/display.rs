use apipost_ui::display::{count_lines, sanitize_display_text, shorten, truncate_display};

#[test]
fn truncate_display_returns_cow_with_same_text() {
    for (s, w) in [
        ("short", 14usize),
        ("a-very-long-environment-name", 14),
        ("中文名字测试", 6),
        ("中文名字测试", 40),
        ("", 10),
    ] {
        let got = truncate_display(s, w);
        let mut width = 0usize;
        let mut expected = s.to_string();
        for (i, ch) in s.char_indices() {
            width += if ch.is_ascii() { 1 } else { 2 };
            if width > w {
                expected = format!("{}…", &s[..i]);
                break;
            }
        }
        let shown = got.clone().unwrap_or_else(|| s.to_string());
        assert_eq!(shown, expected, "the cut text must match: {s:?} / {w}");
        if expected == s {
            assert!(got.is_none(), "a text that fits is handed back untouched: {s:?}");
        }
    }
}

#[test]
fn truncate_display_exact_values() {
    assert_eq!(truncate_display("abcdef", 3), Some("abc…".to_string()));
    assert_eq!(truncate_display("ab中", 3), Some("ab…".to_string()));
    assert_eq!(truncate_display("ab中", 4), None);
    assert_eq!(truncate_display("中文", 0), Some("…".to_string()));
}

#[test]
fn sanitize_drops_layout_breaking_characters() {
    let text = "a\u{200E}b\u{202A}c\u{FEFF}d\u{0007}e\n\tf\r\u{2066}";
    assert_eq!(sanitize_display_text(text), "abcde\n\tf\r");
    assert_eq!(sanitize_display_text("中文 ok"), "中文 ok");
}

#[test]
fn count_lines_cases() {
    assert_eq!(count_lines(""), 1);
    assert_eq!(count_lines("one"), 1);
    assert_eq!(count_lines("one\n"), 1);
    assert_eq!(count_lines("one\ntwo"), 2);
    assert_eq!(count_lines("one\ntwo\n\n"), 3);
    assert_eq!(count_lines("\n"), 1);
}

#[test]
fn shorten_cases() {
    assert_eq!(shorten("abcdef", 3), "abc…");
    assert_eq!(shorten("abc", 3), "abc");
    assert_eq!(shorten("中文名字", 2), "中文…");
}
