use apipost_ui::clipboard::copy_to_clipboard;

#[test]
fn no_clipboard_copies_nothing() {
    let mut none: Option<arboard::Clipboard> = None;
    assert!(!copy_to_clipboard(&mut none, "text").0);
    assert!(none.is_none());
}
