use apipost_ui::settings::RequestSettings;
use apipost_ui::auth::{ApiKeyAuthData, ApiKeyLocation, AuthState, BasicAuthData, BearerTokenAuthData};
use apipost_ui::body::{BodyState, BodyType, FormDataEntry, FormDataParamType, FormDataValue, RawFormat, TextInput};
use apipost_ui::headers::HeaderEntry;
use apipost_ui::query::ParamEntry;
use apipost_ui::send::{headers_text, prepare_request, request_headers, HttpResponse, SendState};
use apipost_ui::tabs::{BuilderTab, RequestForm};

fn h(k: &str, v: &str, enabled: bool) -> HeaderEntry {
    HeaderEntry { key: k.to_string(), value: v.to_string(), enabled }
}

fn form() -> RequestForm {
    RequestForm {
        method: "POST".to_string(),
        url: "api.test/items?stale=1".to_string(),
        params: vec![
            ParamEntry { key: "page".to_string(), value: "2".to_string(), enabled: true },
            ParamEntry { key: "off".to_string(), value: "x".to_string(), enabled: false },
        ],
        headers: vec![h("X-Trace", "1", true), h("", "ignored", true), h("X-Off", "0", false)],
        body_state: {
            let mut b = BodyState::new("{\"a\":1}".to_string(), String::new(), String::new(), String::new());
            b.body_type = BodyType::Raw;
            b.raw_format = RawFormat::Json;
            b
        },
        auth_state: AuthState::Bearer(BearerTokenAuthData { token: "abc".to_string() }),
        settings: RequestSettings::default(),
        response: None,
        response_raw_format: RawFormat::Json,
        builder_tab: BuilderTab::Params,
        timeout_secs: "30".to_string(),
        retry_count: "0".to_string(),
        pre_request_script: String::new(),
        test_script: String::new(),
    }
}

#[test]
fn prepare_request_assembles_everything() {
    let r = prepare_request(&form(), "api.test/items?stale=1");
    assert_eq!(r.method, "POST");
    assert_eq!(r.url, "http://api.test/items?page=2");
    assert_eq!(
        r.headers,
        vec![
            ("Authorization".to_string(), "Bearer abc".to_string()),
            ("X-Trace".to_string(), "1".to_string()),
            ("Content-Type".to_string(), "application/json".to_string()),
        ]
    );
    assert_eq!(r.body.as_deref(), Some("{\"a\":1}"));
    assert_eq!(r.content_type.as_deref(), Some("application/json"));
    assert!(r.text_fields.is_empty());
    assert!(r.file_fields.is_empty());
}

#[test]
fn content_type_header_is_not_doubled() {
    let mut f = form();
    f.headers.push(h("CONTENT-type", "text/plain", true));
    let r = prepare_request(&f, "https://x");
    assert_eq!(r.headers.last().unwrap(), &("CONTENT-type".to_string(), "text/plain".to_string()));
    assert_eq!(r.headers.len(), 3);
    let none = request_headers(&AuthState::NoAuth, &Vec::new(), &None);
    assert!(none.is_empty());
}

#[test]
fn api_key_in_query_and_basic_auth() {
    let mut f = form();
    f.auth_state = AuthState::ApiKey(ApiKeyAuthData {
        key: "api key".to_string(),
        value: "s&t".to_string(),
        location_index: 1,
        location_value: ApiKeyLocation::Query,
    });
    let r = prepare_request(&f, "https://x/y");
    assert_eq!(r.url, "https://x/y?page=2&api%20key=s%26t");
    // a key sent in the query is not sent as a header too
    assert!(r.headers.iter().all(|h| h.0 != "api key"));
    f.params.clear();
    let r = prepare_request(&f, "https://x/y");
    assert_eq!(r.url, "https://x/y?api%20key=s%26t");
    f.auth_state = AuthState::Basic(BasicAuthData { username: "user".to_string(), password: "pass".to_string() });
    let r = prepare_request(&f, "https://x/y");
    assert_eq!(r.headers[0], ("Authorization".to_string(), "Basic dXNlcjpwYXNz".to_string()));
}

#[test]
fn binary_and_form_files() {
    let mut f = form();
    f.body_state.body_type = BodyType::Binary;
    f.body_state.binary_file_path = Some("/data/blob.bin".to_string());
    f.body_state.form_data.push(FormDataEntry {
        key: "doc".to_string(),
        value: FormDataValue::File(TextInput { text: String::new(), numbers_only: false }, "/d/a.pdf".to_string()),
        enabled: true,
        param_type: FormDataParamType::File,
        type_index: 4,
    });
    let r = prepare_request(&f, "x");
    assert!(r.body.is_none());
    assert!(r.content_type.is_none());
    assert_eq!(r.file_fields.len(), 2);
    assert_eq!(r.file_fields[0].field_name, "doc");
    assert_eq!(r.file_fields[0].content_type, "application/pdf");
    assert_eq!(r.file_fields[1].field_name, "file");
    assert_eq!(r.file_fields[1].file_path, "/data/blob.bin");
    assert_eq!(r.file_fields[1].content_type, "application/octet-stream");
}

#[test]
fn headers_text_lines() {
    let v = vec![("A".to_string(), "1".to_string()), ("B".to_string(), "".to_string())];
    assert_eq!(headers_text(&v), "A: 1\nB: ");
    assert_eq!(headers_text(&Vec::new()), "");
}

fn response(ct: Option<&str>, body: &str) -> HttpResponse {
    HttpResponse {
        status: 200,
        status_text: "OK".to_string(),
        headers: ct.map(|c| vec![("content-TYPE".to_string(), c.to_string())]).unwrap_or_default(),
        body: body.to_string(),
        time_ms: 5,
        size_bytes: body.len() as u64,
    }
}

#[test]
fn a_second_send_waits_for_the_first() {
    let mut s = SendState::new();
    s.error_message = Some("old".to_string());
    assert!(s.begin_send());
    assert!(s.is_loading && s.error_message.is_none());
    s.loading_frame = 3;
    assert!(!s.begin_send());
    assert_eq!(s.loading_frame, 3);
    let mut f = form();
    s.finish_send(&mut f, Ok(response(Some("application/xml"), "{}")));
    assert!(!s.is_loading && s.loading_frame == 0);
    assert_eq!(f.response_raw_format, RawFormat::Xml);
    assert_eq!(f.response.as_ref().unwrap().body, "{}");
    assert!(s.begin_send());
    s.finish_send(&mut f, Ok(response(None, "<a/>")));
    assert_eq!(f.response_raw_format, RawFormat::Xml);
    assert!(s.begin_send());
    s.finish_send(&mut f, Err("timeout".to_string()));
    assert_eq!(s.error_message.as_deref(), Some("请求失败 -> timeout"));
    assert_eq!(f.response.as_ref().unwrap().body, "<a/>");
    assert!(s.begin_send());
}
