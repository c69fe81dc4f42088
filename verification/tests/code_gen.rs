use apipost_ui::code_gen::CodeGenDialogState;
use apipost_ui::send::HttpRequest;

fn request() -> HttpRequest {
    HttpRequest {
        method: "GET".to_string(),
        url: "https://example.com".to_string(),
        headers: Vec::new(),
        body: None,
        content_type: None,
        text_fields: Vec::new(),
        file_fields: Vec::new(),
    }
}

#[test]
fn code_dialog_opens_on_curl() {
    let mut d = CodeGenDialogState::new();
    assert!(!d.open && d.request.is_none() && !d.needs_update);
    assert_eq!(d.selected_language, "curl");
    d.toast_message = Some("old".to_string());
    d.open_dialog(request(), "curl https://example.com".to_string());
    assert!(d.open && d.needs_update && d.toast_message.is_none());
    assert_eq!(d.selected_language, "curl");
    assert_eq!(d.generated_code, "curl https://example.com");
    assert_eq!(d.request.as_ref().unwrap().url, "https://example.com");
}

#[test]
fn code_dialog_switches_language() {
    let mut d = CodeGenDialogState::new();
    // Without a request only the choice changes.
    d.switch_language("python", "ignored".to_string());
    assert_eq!(d.selected_language, "python");
    assert_eq!(d.generated_code, "");
    assert!(d.needs_update);
    d.open_dialog(request(), "curl x".to_string());
    d.needs_update = false;
    d.switch_language("go", "package main".to_string());
    assert_eq!(d.selected_language, "go");
    assert_eq!(d.generated_code, "package main");
    assert!(d.needs_update);
}

#[test]
fn code_dialog_copy_without_clipboard_fails() {
    let mut d = CodeGenDialogState::new();
    d.open_dialog(request(), "curl x".to_string());
    let mut none: Option<arboard::Clipboard> = None;
    assert!(!d.copy_to_clipboard(&mut none).0);
    assert_eq!(d.toast_message, Some("clipboard.copy_failed".to_string()));
    assert_eq!(d.generated_code, "curl x");
}
