use apipost_ui::text::{
    ascii_lower_chars, chars_eq, chars_of, contains_str, cut_bytes_marked, find_char, lines_of, push_signed_decimal,
    slice_chars, split_chars, string_from_chars, trim_chars, trim_start_chars,
};

fn s(v: &Vec<char>) -> String {
    v.iter().collect()
}

#[test]
fn char_helpers() {
    let v = chars_of("a,b,,c");
    assert_eq!(find_char(&v, ','), Some(1));
    assert_eq!(find_char(&v, 'z'), None);
    let parts: Vec<String> = split_chars(&v, ',').iter().map(s).collect();
    assert_eq!(parts, vec!["a", "b", "", "c"]);
    assert_eq!(s(&slice_chars(&v, 2, 5)), "b,,");
    assert_eq!(string_from_chars(&chars_of("中文")), "中文");
    assert_eq!(s(&ascii_lower_chars(&chars_of("AbÇ"))), "abÇ");
    assert!(contains_str(&chars_of("hello world"), "o w"));
    assert!(!contains_str(&chars_of("hello"), "hello!"));
    assert!(chars_eq(&chars_of("x"), &chars_of("x")));
    assert_eq!(s(&trim_chars(&chars_of("\u{3000} a b \n"))), "a b");
    assert_eq!(s(&trim_start_chars(&chars_of("  a "))), "a ");
    let mut out = Vec::new();
    push_signed_decimal(&mut out, -120);
    push_signed_decimal(&mut out, i64::MIN);
    assert_eq!(s(&out), format!("-120{}", i64::MIN));
}

#[test]
fn lines_and_byte_cut() {
    let ls: Vec<String> = lines_of(&chars_of("a\r\nb\n\nc\r")).iter().map(s).collect();
    assert_eq!(ls, vec!["a", "b", "", "c\r"]);
    assert!(lines_of(&chars_of("")).is_empty());
    let ls: Vec<String> = lines_of(&chars_of("x\n")).iter().map(s).collect();
    assert_eq!(ls, vec!["x"]);
    assert_eq!(cut_bytes_marked("abcdef", 3), "abc…");
    assert_eq!(cut_bytes_marked("ab", 3), "ab");
    assert_eq!(cut_bytes_marked("中文字", 6), "中文…");
}
