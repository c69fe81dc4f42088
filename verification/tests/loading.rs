use apipost_ui::settings::RequestSettings;
use apipost_ui::auth::AuthState;
use apipost_ui::body::{BodyState, BodyType, RawFormat};
use apipost_ui::headers::HeaderEntry;
use apipost_ui::loading::{
    auto_detect_body_type_from_headers, import_curl, load_saved_request, saved_content_type_of,
    saved_header_rows, save_current_request, SaveRequestDialog, SavedRequestDraft,
};
use apipost_ui::tabs::{BuilderTab, RequestForm};

fn form() -> RequestForm {
    RequestForm {
        method: "GET".to_string(),
        url: String::new(),
        params: Vec::new(),
        headers: vec![HeaderEntry { key: "Old".to_string(), value: "1".to_string(), enabled: true }],
        body_state: BodyState::new("{}".to_string(), "<x/>".to_string(), "txt".to_string(), "<p/>".to_string()),
        auth_state: AuthState::NoAuth,
        settings: RequestSettings::default(),
        response: None,
        response_raw_format: RawFormat::Json,
        builder_tab: BuilderTab::Headers,
        timeout_secs: "30".to_string(),
        retry_count: "0".to_string(),
        pre_request_script: String::new(),
        test_script: String::new(),
    }
}

#[test]
fn saved_header_text_is_read_line_by_line() {
    let rows = saved_header_rows(" Accept : text/html \r\nno colon\n: empty key\nX-Url: http://a:b\n");
    assert_eq!(rows.len(), 2);
    assert_eq!((rows[0].key.as_str(), rows[0].value.as_str()), ("Accept", "text/html"));
    assert_eq!((rows[1].key.as_str(), rows[1].value.as_str()), ("X-Url", "http://a:b"));
    assert!(rows.iter().all(|r| r.enabled));
    assert_eq!(saved_content_type_of("A: 1\ncontent-TYPE:  application/xml "), Some("application/xml".to_string()));
    assert_eq!(saved_content_type_of("A: 1"), None);
}

#[test]
fn load_saved_request_with_json_body() {
    let mut f = form();
    load_saved_request(&mut f, "post", "http://h/p?a=1&b&c=%20", Some("Content-Type: application/json"), Some("{\"x\":[1]}"));
    assert_eq!(f.method, "post");
    assert_eq!(f.url, "http://h/p?a=1&b&c=%20");
    assert_eq!(f.headers.len(), 1);
    assert_eq!(f.headers[0].key, "Content-Type");
    assert_eq!(f.params.len(), 2);
    assert_eq!((f.params[0].key.as_str(), f.params[0].value.as_str()), ("a", "1"));
    assert_eq!((f.params[1].key.as_str(), f.params[1].value.as_str()), ("c", " "));
    assert_eq!(f.body_state.body_type, BodyType::Raw);
    assert_eq!(f.body_state.raw_format, RawFormat::Json);
    assert_eq!(f.body_state.raw_content, "{\n  \"x\": [\n    1\n  ]\n}");
    assert_eq!(f.body_state.raw_content_xml, "{\"x\":[1]}");
    assert_eq!(f.builder_tab, BuilderTab::Headers);
}

#[test]
fn load_saved_request_without_body() {
    let mut f = form();
    f.body_state.body_type = BodyType::Raw;
    load_saved_request(&mut f, "GET", "http://h", None, None);
    assert!(f.headers.is_empty());
    assert_eq!(f.body_state.body_type, BodyType::NoBody);
    assert_eq!(f.body_state.raw_content, "");
    assert_eq!(f.body_state.raw_content_xml, "<x/>");
    // a text-like content type in the headers makes the body raw again
    let mut g = form();
    load_saved_request(&mut g, "GET", "http://h", Some("content-type: text/xml"), None);
    assert_eq!(g.body_state.body_type, BodyType::Raw);
    assert_eq!(g.body_state.raw_format, RawFormat::Xml);
}

#[test]
fn auto_detect_cases() {
    let mut body = BodyState::new(String::new(), String::new(), String::new(), String::new());
    let headers = vec![
        HeaderEntry { key: "Content-Type".to_string(), value: String::new(), enabled: true },
        HeaderEntry { key: " content-type ".to_string(), value: "text/html; charset=utf-8".to_string(), enabled: false },
    ];
    auto_detect_body_type_from_headers(&headers, &mut body);
    assert_eq!(body.body_type, BodyType::Raw);
    assert_eq!(body.raw_format, RawFormat::Html);
    let mut other = BodyState::new(String::new(), String::new(), String::new(), String::new());
    let img = vec![HeaderEntry { key: "Content-Type".to_string(), value: "image/png".to_string(), enabled: true }];
    auto_detect_body_type_from_headers(&img, &mut other);
    assert_eq!(other.body_type, BodyType::NoBody);
    assert_eq!(other.raw_format, RawFormat::Json);
}

#[test]
fn import_curl_parts() {
    let mut f = form();
    let headers = vec![("Accept".to_string(), "*/*".to_string())];
    import_curl(&mut f, "PUT", "https://h/p?x=%41&flag", &headers, Some(""));
    assert_eq!(f.method, "PUT");
    assert_eq!(f.url, "https://h/p");
    assert_eq!(f.params.len(), 2);
    assert_eq!((f.params[0].key.as_str(), f.params[0].value.as_str()), ("x", "A"));
    assert_eq!((f.params[1].key.as_str(), f.params[1].value.as_str()), ("flag", ""));
    assert_eq!(f.headers.len(), 1);
    assert_eq!(f.body_state.body_type, BodyType::Raw);
    assert_eq!(f.body_state.raw_content, "");
}

#[test]
fn saved_request_draft_cases() {
    let mut f = form();
    f.url = "   ".to_string();
    assert!(save_current_request(&f).is_none());
    f.url = "https://api.example.com/v1//".to_string();
    f.headers.push(HeaderEntry { key: "Off".to_string(), value: "x".to_string(), enabled: false });
    let d = save_current_request(&f).unwrap();
    assert_eq!(d.name, "api.example.com/v1");
    assert_eq!(d.headers.as_deref(), Some("Old: 1"));
    assert_eq!(d.body.as_deref(), Some("{}"));
    f.url = format!("http://{}", "a".repeat(60));
    f.headers.clear();
    f.body_state.raw_content = String::new();
    let d = save_current_request(&f).unwrap();
    assert_eq!(d.name, format!("{}…", "a".repeat(50)));
    assert!(d.headers.is_none());
    assert!(d.body.is_none());
    assert_eq!(d.method, "GET");
}

fn draft() -> SavedRequestDraft {
    SavedRequestDraft {
        name: "example.com/a".to_string(),
        method: "POST".to_string(),
        url: "https://example.com/a".to_string(),
        headers: Some("Accept: */*".to_string()),
        body: None,
    }
}

#[test]
fn save_dialog_files_request_under_trimmed_name() {
    let mut d = SaveRequestDialog::new();
    assert!(!d.visible && d.name.is_empty() && d.pending_request.is_none() && !d.needs_refresh);
    d.open("example.com/a".to_string(), draft());
    assert!(d.visible);
    d.name = "  My request \t".to_string();
    let saved = d.confirm().unwrap();
    assert_eq!(saved.name, "My request");
    assert_eq!(saved.method, "POST");
    assert_eq!(saved.url, "https://example.com/a");
    assert_eq!(saved.headers, Some("Accept: */*".to_string()));
    assert_eq!(saved.body, None);
    assert!(!d.visible && d.pending_request.is_none() && d.needs_refresh);
    // Nothing waits any more: a second confirm does nothing.
    assert!(d.confirm().is_none());
    assert!(d.needs_refresh);
}

#[test]
fn save_dialog_blank_name_is_untitled_and_cancel_drops_request() {
    let mut d = SaveRequestDialog::new();
    d.open("x".to_string(), draft());
    d.name = "   ".to_string();
    assert_eq!(d.confirm().unwrap().name, "Untitled");
    d.open("y".to_string(), draft());
    assert!(!d.needs_refresh);
    d.cancel();
    assert!(!d.visible && d.pending_request.is_none());
    assert_eq!(d.name, "y");
    assert!(d.confirm().is_none());
}
