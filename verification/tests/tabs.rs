use apipost_ui::settings::RequestSettings;
use apipost_ui::send::HttpResponse;
use apipost_ui::auth::{ApiKeyAuthData, ApiKeyLocation, AuthState, BasicAuthData, BearerTokenAuthData};
use apipost_ui::body::{BodyState, BodyType, FormDataEntry, FormDataParamType, FormDataValue, RawFormat, TextInput};
use apipost_ui::headers::HeaderEntry;
use apipost_ui::query::ParamEntry;
use apipost_ui::tabs::{method_color, restore_tab, load_workspace, snapshot_tab, BuilderTab, RequestForm, SidebarState, SidebarTab, TabList, TabState};

fn form(url: &str) -> RequestForm {
    let mut body = BodyState::new("{}".to_string(), "<a/>".to_string(), "t".to_string(), "<p/>".to_string());
    body.body_type = BodyType::FormData;
    body.form_data.push(FormDataEntry {
        key: "name".to_string(),
        value: FormDataValue::Text(TextInput { text: "42".to_string(), numbers_only: true }),
        enabled: true,
        param_type: FormDataParamType::Number,
        type_index: 3,
    });
    body.form_data.push(FormDataEntry {
        key: "upload".to_string(),
        value: FormDataValue::File(TextInput { text: "shown".to_string(), numbers_only: false }, "/tmp/a.png".to_string()),
        enabled: false,
        param_type: FormDataParamType::File,
        type_index: 4,
    });
    body.soft_wrap = true;
    RequestForm {
        method: "POST".to_string(),
        url: url.to_string(),
        params: vec![ParamEntry { key: "q".to_string(), value: "1".to_string(), enabled: true }],
        headers: vec![HeaderEntry { key: "X-A".to_string(), value: "b".to_string(), enabled: false }],
        body_state: body,
        auth_state: AuthState::ApiKey(ApiKeyAuthData {
            key: "k".to_string(),
            value: "v".to_string(),
            location_index: 0,
            location_value: ApiKeyLocation::Query,
        }),
        settings: RequestSettings { follow_redirects: false, verify_ssl: true },
        response: Some(HttpResponse {
            status: 404,
            status_text: "Not Found".to_string(),
            headers: vec![("Content-Type".to_string(), "text/plain".to_string())],
            body: "missing".to_string(),
            time_ms: 12,
            size_bytes: 7,
        }),
        response_raw_format: RawFormat::Xml,
        builder_tab: BuilderTab::Body,
        timeout_secs: "10".to_string(),
        retry_count: "2".to_string(),
        pre_request_script: "pre".to_string(),
        test_script: "test".to_string(),
    }
}

#[test]
fn snapshot_keeps_the_form() {
    let f = form("https://example.com/a-long-path/that-goes/on-and-on?q=1");
    let t = snapshot_tab(&f);
    assert_eq!(t.method, "POST");
    assert_eq!(t.name, "https://example.com/a-long-pat…");
    assert_eq!(t.params, vec![("q".to_string(), "1".to_string(), true)]);
    assert_eq!(t.headers, vec![("X-A".to_string(), "b".to_string(), false)]);
    assert_eq!(t.auth_type_index, 3);
    assert_eq!(t.api_key_name, "k");
    assert_eq!(t.api_key_location, ApiKeyLocation::Query);
    assert_eq!(t.bearer_token, "");
    assert_eq!(t.form_data.len(), 2);
    assert_eq!(t.form_data[0].value, "42");
    assert!(!t.form_data[0].is_file);
    assert!(t.form_data[1].is_file);
    assert_eq!(t.form_data[1].value, "shown");
    assert_eq!(t.form_data[1].file_path, "/tmp/a.png");
    assert_eq!(snapshot_tab(&form("short")).name, "short");
    assert_eq!(snapshot_tab(&form("")).name, "");
}

#[test]
fn law_tab_roundtrip_on_values() {
    let f = form("http://x.test/p");
    let t = snapshot_tab(&f);
    let mut g = form("other");
    g.body_state.soft_wrap = false;
    g.body_state.binary_file_path = Some("/bin".to_string());
    g.settings = RequestSettings::default();
    g.response = None;
    restore_tab(&mut g, &t);
    assert_eq!(g.settings, RequestSettings { follow_redirects: false, verify_ssl: true });
    let r = g.response.as_ref().unwrap();
    assert_eq!((r.status, r.status_text.as_str(), r.body.as_str()), (404, "Not Found", "missing"));
    assert_eq!(r.headers, vec![("Content-Type".to_string(), "text/plain".to_string())]);
    assert_eq!((r.time_ms, r.size_bytes), (12, 7));
    assert_eq!(g.method, f.method);
    assert_eq!(g.url, f.url);
    assert_eq!(g.params.len(), 1);
    assert_eq!(g.params[0].key, "q");
    assert_eq!(g.body_state.body_type, BodyType::FormData);
    assert_eq!(g.body_state.raw_content, "{}");
    assert_eq!(g.response_raw_format, RawFormat::Xml);
    assert_eq!(g.builder_tab, BuilderTab::Body);
    assert_eq!(g.timeout_secs, "10");
    // what a tab does not keep stays as it was in the form loaded into
    assert!(!g.body_state.soft_wrap);
    assert_eq!(g.body_state.binary_file_path.as_deref(), Some("/bin"));
    // rows come back with a plain input and the selector at its first position
    match &g.body_state.form_data[0].value {
        FormDataValue::Text(i) => {
            assert_eq!(i.text, "42");
            assert!(!i.numbers_only);
        }
        _ => panic!("a text row comes back as text"),
    }
    assert_eq!(g.body_state.form_data[0].type_index, 0);
    assert_eq!(g.body_state.form_data[0].param_type, FormDataParamType::Number);
    match &g.body_state.form_data[1].value {
        FormDataValue::File(i, p) => {
            assert_eq!(p, "/tmp/a.png");
            assert_eq!(i.text, "/tmp/a.png");
        }
        _ => panic!("a file row comes back as a file"),
    }
    match &g.auth_state {
        AuthState::ApiKey(k) => {
            assert_eq!(k.key, "k");
            assert_eq!(k.location_value, ApiKeyLocation::Query);
            assert_eq!(k.location_index, 1);
        }
        _ => panic!("the API key comes back"),
    }
}

#[test]
fn restore_auth_kinds() {
    let mut t = TabState::default();
    t.auth_type_index = 1;
    t.bearer_token = "tok".to_string();
    let mut g = form("u");
    restore_tab(&mut g, &t);
    assert!(matches!(&g.auth_state, AuthState::Bearer(BearerTokenAuthData { token }) if token == "tok"));
    t.auth_type_index = 2;
    t.basic_username = "u".to_string();
    t.basic_password = "p".to_string();
    restore_tab(&mut g, &t);
    assert!(matches!(&g.auth_state, AuthState::Basic(BasicAuthData { username, password }) if username == "u" && password == "p"));
    t.auth_type_index = 9;
    restore_tab(&mut g, &t);
    assert!(matches!(g.auth_state, AuthState::NoAuth));
}

#[test]
fn default_tab_state_has_no_response() {
    let t = TabState::default();
    assert!(t.response.is_none());
    assert!(t.settings.follow_redirects && t.settings.verify_ssl);
}

#[test]
fn request_settings_toggle() {
    let mut s = RequestSettings::default();
    s.toggle_follow_redirects();
    assert_eq!(s, RequestSettings { follow_redirects: false, verify_ssl: true });
    s.toggle_verify_ssl();
    assert_eq!(s, RequestSettings { follow_redirects: false, verify_ssl: false });
}

#[test]
fn default_tab_state() {
    let t = TabState::default();
    assert_eq!(t.method, "GET");
    assert_eq!(t.raw_json, "{\"key\": \"value\"}");
    assert_eq!(t.raw_xml, "<root></root>");
    assert_eq!(t.timeout_secs, "30");
    assert_eq!(t.retry_count, "0");
    assert_eq!(t.body_type, BodyType::NoBody);
    assert_eq!(t.builder_tab, BuilderTab::Params);
}

fn three_tabs() -> TabList {
    let states = vec![TabState::default(), TabState::default(), TabState::default()];
    load_workspace(states, 1, "New").unwrap()
}

#[test]
fn load_workspace_cases() {
    assert!(load_workspace(Vec::new(), 0, "New").is_none());
    let mut named = TabState::default();
    named.name = "saved".to_string();
    named.url = "http://a".to_string();
    let l = load_workspace(vec![TabState::default(), named], 7, "New").unwrap();
    assert_eq!(l.tabs.len(), 2);
    assert_eq!(l.active_tab, 1);
    assert_eq!(l.next_tab_id, 2);
    assert_eq!(l.tabs[0].name, "New");
    assert_eq!(l.tabs[1].name, "saved");
    assert_eq!(l.tabs[1].url, "http://a");
    assert_eq!(l.tabs[1].id, 1);
}

#[test]
fn close_tab_cases() {
    let mut l = three_tabs();
    // closing a tab before the active one keeps the same tab active
    assert_eq!(l.close_tab(0), Some(0));
    assert_eq!(l.tabs[0].id, 1);
    // closing the active last tab makes the one before active
    let mut l = three_tabs();
    l.active_tab = 2;
    assert_eq!(l.close_tab(2), Some(1));
    // closing a tab after the active one keeps the position
    let mut l = three_tabs();
    assert_eq!(l.close_tab(2), Some(1));
    assert_eq!(l.tabs[1].id, 1);
    // the last tab is never closed
    let mut one = load_workspace(vec![TabState::default()], 0, "New").unwrap();
    assert_eq!(one.close_tab(0), None);
    assert_eq!(one.tabs.len(), 1);
}

#[test]
fn switch_and_add_tab() {
    let mut l = three_tabs();
    let f = form("http://host/x");
    assert_eq!(l.switch_tab(1, &f, "New"), None);
    assert_eq!(l.switch_tab(5, &f, "New"), None);
    assert_eq!(l.switch_tab(2, &f, "New"), Some(2));
    assert_eq!(l.active_tab, 2);
    assert_eq!(l.tabs[1].url, "http://host/x");
    assert_eq!(l.tabs[1].method, "POST");
    assert_eq!(l.tabs[1].tab_state.url, "http://host/x");
    let blank = form("");
    let idx = l.add_tab(&blank, "New request");
    assert_eq!(idx, 3);
    assert_eq!(l.active_tab, 3);
    assert_eq!(l.tabs[2].name, "New request");
    assert_eq!(l.tabs[3].id, 3);
    assert_eq!(l.tabs[3].method, "GET");
    assert_eq!(l.next_tab_id, 4);
}

#[test]
fn param_and_header_rows() {
    let mut f = form("http://h/p?old=1");
    f.add_param();
    assert_eq!(f.params.len(), 2);
    assert_eq!(f.url, "http://h/p?q=1");
    f.params[1].key = "a b".to_string();
    f.params[1].value = "c&d".to_string();
    f.toggle_param(1);
    assert!(!f.params[1].enabled);
    assert_eq!(f.url, "http://h/p?q=1");
    f.toggle_param(1);
    assert_eq!(f.url, "http://h/p?q=1&a%20b=c%26d");
    f.remove_param(0);
    assert_eq!(f.url, "http://h/p?a%20b=c%26d");
    f.remove_param(9);
    assert_eq!(f.params.len(), 1);
    f.add_header();
    assert_eq!(f.headers.len(), 2);
    f.toggle_header(0);
    assert!(f.headers[0].enabled);
    f.remove_header(0);
    assert_eq!(f.headers.len(), 1);
    assert_eq!(f.headers[0].key, "");
}

#[test]
fn body_line_count() {
    let mut f = form("u");
    assert_eq!(f.calculate_body_line_count(), 1);
    f.body_state.body_type = BodyType::Raw;
    f.body_state.raw_format = RawFormat::Json;
    f.body_state.raw_content = "{\n  \"a\": 1\n}".to_string();
    assert_eq!(f.calculate_body_line_count(), 3);
}

#[test]
fn tab_method_colors() {
    assert_eq!(method_color("get"), 0x22c55e);
    assert_eq!(method_color("OPTIONS"), 0x8b5cf6);
    assert_eq!(method_color("patch"), 0x8b5cf6);
    assert_eq!(method_color("TRACE"), 0x6b7280);
}

#[test]
fn form_setters_and_history() {
    let mut f = form("u");
    f.set_body_type(3);
    assert_eq!(f.get_body_type(), BodyType::Raw);
    f.set_body_type(40);
    assert_eq!(f.get_body_type(), BodyType::NoBody);
    f.set_raw_format(1);
    assert_eq!(f.get_raw_format(), RawFormat::Xml);
    f.set_response_raw_format(2);
    assert_eq!(f.get_response_raw_format(), RawFormat::Text);
    f.set_builder_tab(BuilderTab::Tests);
    assert_eq!(f.builder_tab, BuilderTab::Tests);
    assert_eq!(f.get_auth_type(), apipost_ui::auth::AuthType::ApiKey);
    f.load_from_history("DELETE", "http://old/1");
    assert_eq!(f.method, "DELETE");
    assert_eq!(f.url, "http://old/1");
    assert_eq!(f.params.len(), 1);
}

#[test]
fn showing_saved_requests_reads_them_again() {
    let mut s = SidebarState { tab: SidebarTab::History, needs_collections_refresh: false };
    s.set_sidebar_tab(SidebarTab::Environments);
    assert_eq!(s.tab, SidebarTab::Environments);
    assert!(!s.needs_collections_refresh);
    s.set_sidebar_tab(SidebarTab::Collections);
    assert_eq!(s.tab, SidebarTab::Collections);
    assert!(s.needs_collections_refresh);
    s.set_sidebar_tab(SidebarTab::History);
    assert!(s.needs_collections_refresh);
}

#[test]
fn window_starts_with_one_empty_tab() {
    let l = TabList::new("New Request".to_string());
    assert_eq!(l.tabs.len(), 1);
    assert_eq!(l.active_tab, 0);
    assert_eq!(l.next_tab_id, 2);
    assert_eq!(l.tabs[0].id, 1);
    assert_eq!(l.tabs[0].method, "GET");
    assert_eq!(l.tabs[0].url, "");
    assert_eq!(l.tabs[0].name, "New Request");
    assert_eq!(l.tabs[0].tab_state.method, "GET");
}

#[test]
fn window_starts_with_an_empty_form() {
    let f = RequestForm::new();
    assert_eq!(f.method, "GET");
    assert!(f.url.is_empty() && f.params.is_empty() && f.headers.is_empty());
    assert_eq!(f.body_state.body_type, BodyType::NoBody);
    assert_eq!(f.body_state.raw_content, "{\"key\": \"value\"}");
    assert_eq!(f.body_state.raw_content_text, "plain text");
    assert!(matches!(f.auth_state, AuthState::NoAuth));
    assert!(f.response.is_none());
    assert_eq!(f.timeout_secs, "30");
    assert_eq!(f.builder_tab, BuilderTab::Params);
}

#[test]
fn new_tabs_get_fresh_ids() {
    let mut l = TabList::new("New".to_string());
    let f = RequestForm::new();
    let a = l.add_tab(&f, "New");
    let b = l.add_tab(&f, "New");
    assert_eq!((a, b), (1, 2));
    let ids: Vec<usize> = l.tabs.iter().map(|t| t.id).collect();
    assert_eq!(ids, vec![1, 2, 3]);
    assert_eq!(l.next_tab_id, 4);
    l.close_tab(1);
    let c = l.add_tab(&f, "New");
    assert_eq!(l.tabs[c].id, 4);
}
