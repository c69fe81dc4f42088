//! Request tabs: what a tab keeps while another one is shown, how the request form is saved
//! into a tab and loaded back from it, and how tabs are added, closed and switched.
use vstd::prelude::*;
use crate::auth::{kind_of, ApiKeyAuthData, ApiKeyLocation, AuthState, AuthType, BasicAuthData, BearerTokenAuthData};
use crate::body::{
    file_path_of, input_text, BodyState, BodyType, FormDataEntry, FormDataParamType,
    FormDataValue, RawFormat, SavedFormDataEntry, TextInput,
};
use crate::headers::HeaderEntry;
use crate::send::{copy_opt_response, opt_response_view, HttpResponse};
use crate::settings::RequestSettings;
use crate::display::{count_lines, line_count};
use crate::query::{sync_params_to_url, synced_url, ParamEntry};
use crate::outside::{spec_to_uppercase, to_uppercase};
use crate::text::{ascii_upper, byte_cut_fits, byte_cut_marked, chars_eq_str, chars_of, cut_bytes_marked, string_from_chars};

verus! {

/// The panes of the request builder.
#[derive(PartialEq, Eq, Structural, Clone, Copy, Debug)]
pub enum BuilderTab {
    Params,
    Authorization,
    Headers,
    Body,
    PreRequest,
    Tests,
    Settings,
}

/// The panes of the sidebar.
#[derive(PartialEq, Eq, Structural, Clone, Copy, Debug)]
pub enum SidebarTab {
    Collections,
    History,
    Environments,
}

/// The panes of the response view.
#[derive(PartialEq, Eq, Structural, Clone, Copy, Debug)]
pub enum ResponseTab {
    Body,
    Cookies,
    Headers,
    TestResults,
}

/// How the response body is shown.
#[derive(PartialEq, Eq, Structural, Clone, Copy, Debug)]
pub enum BodyViewMode {
    Pretty,
    Raw,
    Preview,
}

/// Everything a tab keeps of its request while another tab is shown.
pub struct TabState {
    pub method: String,
    pub url: String,
    pub name: String,
    pub body_type: BodyType,
    pub raw_format: RawFormat,
    pub raw_json: String,
    pub raw_xml: String,
    pub raw_text: String,
    pub raw_html: String,
    /// Header rows: key, value, enabled.
    pub headers: Vec<(String, String, bool)>,
    /// Query-parameter rows: key, value, enabled.
    pub params: Vec<(String, String, bool)>,
    pub form_data: Vec<SavedFormDataEntry>,
    pub urlencoded_data: Vec<SavedFormDataEntry>,
    /// Position of the authorisation kind in its selector.
    pub auth_type_index: usize,
    pub bearer_token: String,
    pub basic_username: String,
    pub basic_password: String,
    pub api_key_name: String,
    pub api_key_value: String,
    pub api_key_location: ApiKeyLocation,
    pub settings: RequestSettings,
    /// The last response received in the tab.
    pub response: Option<HttpResponse>,
    pub response_raw_format: RawFormat,
    pub builder_tab: BuilderTab,
    pub timeout_secs: String,
    pub retry_count: String,
    pub pre_request_script: String,
    pub test_script: String,
}

/// The state of a new tab: a `GET` with no URL and no body, the JSON and XML editors holding
/// a small sample, no authorisation, redirects followed and certificates checked, no response,
/// a 30 second timeout and no retry.
pub open spec fn is_default_tab(t: TabState) -> bool {
    &&& t.method@ == "GET"@
    &&& t.url@.len() == 0
    &&& t.name@.len() == 0
    &&& t.body_type == BodyType::NoBody
    &&& t.raw_format == RawFormat::Json
    &&& t.raw_json@ == "{\"key\": \"value\"}"@
    &&& t.raw_xml@ == "<root></root>"@
    &&& t.raw_text@.len() == 0
    &&& t.raw_html@.len() == 0
    &&& t.headers@.len() == 0
    &&& t.params@.len() == 0
    &&& t.form_data@.len() == 0
    &&& t.urlencoded_data@.len() == 0
    &&& t.auth_type_index == 0
    &&& t.bearer_token@.len() == 0
    &&& t.basic_username@.len() == 0
    &&& t.basic_password@.len() == 0
    &&& t.api_key_name@.len() == 0
    &&& t.api_key_value@.len() == 0
    &&& t.api_key_location == ApiKeyLocation::Header
    &&& t.settings.follow_redirects && t.settings.verify_ssl
    &&& t.response is None
    &&& t.response_raw_format == RawFormat::Json
    &&& t.builder_tab == BuilderTab::Params
    &&& t.timeout_secs@ == "30"@
    &&& t.retry_count@ == "0"@
    &&& t.pre_request_script@.len() == 0
    &&& t.test_script@.len() == 0
}

fn text(s: &str) -> (r: String)
    ensures
        r@ == s@,
{
    string_from_chars(&chars_of(s))
}

impl Default for TabState {
    fn default() -> (t: TabState)
        ensures
            is_default_tab(t),
    {
        TabState {
            method: text("GET"),
            url: String::new(),
            name: String::new(),
            body_type: BodyType::NoBody,
            raw_format: RawFormat::Json,
            raw_json: text("{\"key\": \"value\"}"),
            raw_xml: text("<root></root>"),
            raw_text: String::new(),
            raw_html: String::new(),
            headers: Vec::new(),
            params: Vec::new(),
            form_data: Vec::new(),
            urlencoded_data: Vec::new(),
            auth_type_index: 0,
            bearer_token: String::new(),
            basic_username: String::new(),
            basic_password: String::new(),
            api_key_name: String::new(),
            api_key_value: String::new(),
            api_key_location: ApiKeyLocation::Header,
            settings: RequestSettings::default(),
            response: None,
            response_raw_format: RawFormat::Json,
            builder_tab: BuilderTab::Params,
            timeout_secs: text("30"),
            retry_count: text("0"),
            pre_request_script: String::new(),
            test_script: String::new(),
        }
    }
}

/// The request form as it is being edited in the active tab.
pub struct RequestForm {
    pub method: String,
    pub url: String,
    pub params: Vec<ParamEntry>,
    pub headers: Vec<HeaderEntry>,
    pub body_state: BodyState,
    pub auth_state: AuthState,
    pub settings: RequestSettings,
    /// The response shown for the request.
    pub response: Option<HttpResponse>,
    pub response_raw_format: RawFormat,
    pub builder_tab: BuilderTab,
    pub timeout_secs: String,
    pub retry_count: String,
    pub pre_request_script: String,
    pub test_script: String,
}

/// The number of bytes of the URL a tab's name keeps.
pub const TAB_NAME_MAX_BYTES: usize = 30;

/// A kept row as text: key, value, enabled.
pub open spec fn triple_view(t: (String, String, bool)) -> (Seq<char>, Seq<char>, bool) {
    (t.0@, t.1@, t.2)
}

/// Kept rows hold the parameter rows, in order.
pub open spec fn params_kept(kept: Seq<(String, String, bool)>, ps: Seq<ParamEntry>) -> bool {
    &&& kept.len() == ps.len()
    &&& forall|i: int|
        0 <= i < ps.len() ==> #[trigger] triple_view(kept[i]) == (ps[i].key@, ps[i].value@,
            ps[i].enabled)
}

/// Kept rows hold the header rows, in order.
pub open spec fn headers_kept(kept: Seq<(String, String, bool)>, hs: Seq<HeaderEntry>) -> bool {
    &&& kept.len() == hs.len()
    &&& forall|i: int|
        0 <= i < hs.len() ==> #[trigger] triple_view(kept[i]) == (hs[i].key@, hs[i].value@,
            hs[i].enabled)
}

/// A form row as kept: key, the text its input shows, switch, kind, whether it is a file
/// row, and the chosen path (empty for a text row).
pub open spec fn row_kept(s: SavedFormDataEntry, e: FormDataEntry) -> bool {
    &&& s.key@ == e.key@
    &&& s.value@ == input_text(e.value)
    &&& s.enabled == e.enabled
    &&& s.param_type == e.param_type
    &&& s.is_file == (e.value is File)
    &&& s.file_path@ == file_path_of(e.value)
}

/// Kept rows hold the form rows, in order.
pub open spec fn rows_kept(kept: Seq<SavedFormDataEntry>, rows: Seq<FormDataEntry>) -> bool {
    &&& kept.len() == rows.len()
    &&& forall|i: int| 0 <= i < rows.len() ==> #[trigger] row_kept(kept[i], rows[i])
}

/// How a tab keeps an authorisation: the kind's position in the selector (none 0, bearer 1,
/// basic 2, API key 3), the fields of that kind, the other fields empty, and the API key's
/// place (`Header` for the other kinds).
pub open spec fn auth_kept(t: TabState, a: AuthState) -> bool {
    match a {
        AuthState::NoAuth => t.auth_type_index == 0 && t.bearer_token@.len() == 0
            && t.basic_username@.len() == 0 && t.basic_password@.len() == 0
            && t.api_key_name@.len() == 0 && t.api_key_value@.len() == 0
            && t.api_key_location == ApiKeyLocation::Header,
        AuthState::Bearer(b) => t.auth_type_index == 1 && t.bearer_token@ == b.token@
            && t.basic_username@.len() == 0 && t.basic_password@.len() == 0
            && t.api_key_name@.len() == 0 && t.api_key_value@.len() == 0
            && t.api_key_location == ApiKeyLocation::Header,
        AuthState::Basic(b) => t.auth_type_index == 2 && t.bearer_token@.len() == 0
            && t.basic_username@ == b.username@ && t.basic_password@ == b.password@
            && t.api_key_name@.len() == 0 && t.api_key_value@.len() == 0
            && t.api_key_location == ApiKeyLocation::Header,
        AuthState::ApiKey(k) => t.auth_type_index == 3 && t.bearer_token@.len() == 0
            && t.basic_username@.len() == 0 && t.basic_password@.len() == 0
            && t.api_key_name@ == k.key@ && t.api_key_value@ == k.value@
            && t.api_key_location == k.location_value,
    }
}

/// A tab's name for a URL: its first 30 bytes and `…` when it is longer.
pub open spec fn tab_name_of(url: Seq<char>) -> Seq<char> {
    byte_cut_marked(url, TAB_NAME_MAX_BYTES as nat)
}

/// `t` is what a tab keeps of the form `f`.
pub open spec fn is_snapshot_of(t: TabState, f: RequestForm) -> bool {
    &&& t.method@ == f.method@
    &&& t.url@ == f.url@
    &&& t.name@ == tab_name_of(f.url@)
    &&& t.body_type == f.body_state.body_type
    &&& t.raw_format == f.body_state.raw_format
    &&& t.raw_json@ == f.body_state.raw_content@
    &&& t.raw_xml@ == f.body_state.raw_content_xml@
    &&& t.raw_text@ == f.body_state.raw_content_text@
    &&& t.raw_html@ == f.body_state.raw_content_html@
    &&& headers_kept(t.headers@, f.headers@)
    &&& params_kept(t.params@, f.params@)
    &&& rows_kept(t.form_data@, f.body_state.form_data@)
    &&& rows_kept(t.urlencoded_data@, f.body_state.urlencoded_data@)
    &&& auth_kept(t, f.auth_state)
    &&& t.settings == f.settings
    &&& opt_response_view(t.response) == opt_response_view(f.response)
    &&& t.response_raw_format == f.response_raw_format
    &&& t.builder_tab == f.builder_tab
    &&& t.timeout_secs@ == f.timeout_secs@
    &&& t.retry_count@ == f.retry_count@
    &&& t.pre_request_script@ == f.pre_request_script@
    &&& t.test_script@ == f.test_script@
}

fn keep_params(ps: &Vec<ParamEntry>) -> (r: Vec<(String, String, bool)>)
    ensures
        params_kept(r@, ps@),
{
    let mut r: Vec<(String, String, bool)> = Vec::new();
    let mut i: usize = 0;
    while i < ps.len()
        invariant
            i <= ps@.len(),
            r@.len() == i,
            forall|j: int|
                0 <= j < i ==> #[trigger] triple_view(r@[j]) == (ps@[j].key@, ps@[j].value@,
                    ps@[j].enabled),
        decreases ps@.len() - i,
    {
        r.push((ps[i].key.clone(), ps[i].value.clone(), ps[i].enabled));
        i += 1;
    }
    r
}

fn keep_headers(hs: &Vec<HeaderEntry>) -> (r: Vec<(String, String, bool)>)
    ensures
        headers_kept(r@, hs@),
{
    let mut r: Vec<(String, String, bool)> = Vec::new();
    let mut i: usize = 0;
    while i < hs.len()
        invariant
            i <= hs@.len(),
            r@.len() == i,
            forall|j: int|
                0 <= j < i ==> #[trigger] triple_view(r@[j]) == (hs@[j].key@, hs@[j].value@,
                    hs@[j].enabled),
        decreases hs@.len() - i,
    {
        r.push((hs[i].key.clone(), hs[i].value.clone(), hs[i].enabled));
        i += 1;
    }
    r
}

fn keep_row(e: &FormDataEntry) -> (s: SavedFormDataEntry)
    ensures
        row_kept(s, *e),
{
    let (value, is_file, file_path) = match &e.value {
        FormDataValue::Text(t) => (t.text.clone(), false, String::new()),
        FormDataValue::File(t, p) => (t.text.clone(), true, p.clone()),
    };
    SavedFormDataEntry {
        key: e.key.clone(),
        value,
        enabled: e.enabled,
        param_type: e.param_type,
        is_file,
        file_path,
    }
}

fn keep_rows(rows: &Vec<FormDataEntry>) -> (r: Vec<SavedFormDataEntry>)
    ensures
        rows_kept(r@, rows@),
{
    let mut r: Vec<SavedFormDataEntry> = Vec::new();
    let mut i: usize = 0;
    while i < rows.len()
        invariant
            i <= rows@.len(),
            r@.len() == i,
            forall|j: int| 0 <= j < i ==> #[trigger] row_kept(r@[j], rows@[j]),
        decreases rows@.len() - i,
    {
        let s = keep_row(&rows[i]);
        r.push(s);
        i += 1;
    }
    r
}

/// The state a tab keeps of the form (what is saved when another tab is shown). Its name is
/// the URL cut to 30 bytes and marked with `…`.
pub fn snapshot_tab(form: &RequestForm) -> (t: TabState)
    requires
        byte_cut_fits(form.url@, TAB_NAME_MAX_BYTES as nat),
    ensures
        is_snapshot_of(t, *form),
{
    let name = cut_bytes_marked(form.url.as_str(), TAB_NAME_MAX_BYTES);
    let (auth_type_index, bearer_token, basic_username, basic_password, api_key_name, api_key_value, api_key_location) =
        match &form.auth_state {
        AuthState::NoAuth => (
            0usize,
            String::new(),
            String::new(),
            String::new(),
            String::new(),
            String::new(),
            ApiKeyLocation::Header,
        ),
        AuthState::Bearer(a) => (
            1usize,
            a.token.clone(),
            String::new(),
            String::new(),
            String::new(),
            String::new(),
            ApiKeyLocation::Header,
        ),
        AuthState::Basic(a) => (
            2usize,
            String::new(),
            a.username.clone(),
            a.password.clone(),
            String::new(),
            String::new(),
            ApiKeyLocation::Header,
        ),
        AuthState::ApiKey(a) => (
            3usize,
            String::new(),
            String::new(),
            String::new(),
            a.key.clone(),
            a.value.clone(),
            a.location_value,
        ),
    };
    TabState {
        method: form.method.clone(),
        url: form.url.clone(),
        name,
        body_type: form.body_state.body_type,
        raw_format: form.body_state.raw_format,
        raw_json: form.body_state.raw_content.clone(),
        raw_xml: form.body_state.raw_content_xml.clone(),
        raw_text: form.body_state.raw_content_text.clone(),
        raw_html: form.body_state.raw_content_html.clone(),
        headers: keep_headers(&form.headers),
        params: keep_params(&form.params),
        form_data: keep_rows(&form.body_state.form_data),
        urlencoded_data: keep_rows(&form.body_state.urlencoded_data),
        auth_type_index,
        bearer_token,
        basic_username,
        basic_password,
        api_key_name,
        api_key_value,
        api_key_location,
        settings: form.settings,
        response: copy_opt_response(&form.response),
        response_raw_format: form.response_raw_format,
        builder_tab: form.builder_tab,
        timeout_secs: form.timeout_secs.clone(),
        retry_count: form.retry_count.clone(),
        pre_request_script: form.pre_request_script.clone(),
        test_script: form.test_script.clone(),
    }
}

/// A form row loaded from a kept row: the key, switch and kind come back, the kind selector
/// shows its first position, and the input is a plain one holding the chosen path (a file row,
/// which keeps that path) or the kept text.
pub open spec fn row_loaded(e: FormDataEntry, s: SavedFormDataEntry) -> bool {
    &&& e.key@ == s.key@
    &&& e.enabled == s.enabled
    &&& e.param_type == s.param_type
    &&& e.type_index == 0
    &&& if s.is_file {
        e.value matches FormDataValue::File(i, p) && i.text@ == s.file_path@ && !i.numbers_only
            && p@ == s.file_path@
    } else {
        e.value matches FormDataValue::Text(i) && i.text@ == s.value@ && !i.numbers_only
    }
}

/// Form rows loaded from kept rows, in order.
pub open spec fn rows_loaded(rows: Seq<FormDataEntry>, kept: Seq<SavedFormDataEntry>) -> bool {
    &&& rows.len() == kept.len()
    &&& forall|i: int| 0 <= i < kept.len() ==> #[trigger] row_loaded(rows[i], kept[i])
}

/// The authorisation loaded from a tab: the kind at the kept position (positions past the
/// last give none) with the kept fields of that kind; an API key's place selector shows the
/// kept place.
pub open spec fn auth_loaded(a: AuthState, t: TabState) -> bool {
    if t.auth_type_index == 1 {
        a matches AuthState::Bearer(b) && b.token@ == t.bearer_token@
    } else if t.auth_type_index == 2 {
        a matches AuthState::Basic(b) && b.username@ == t.basic_username@ && b.password@
            == t.basic_password@
    } else if t.auth_type_index == 3 {
        a matches AuthState::ApiKey(k) && k.key@ == t.api_key_name@ && k.value@
            == t.api_key_value@ && k.location_value == t.api_key_location && k.location_index
            == t.api_key_location.index_of()
    } else {
        a is NoAuth
    }
}

/// `g` is the form `f` after the tab `t` was loaded into it: everything comes from the tab,
/// but the binary body's file, the last JSON formatting error and the soft-wrap switch, which
/// a tab does not keep, stay as they were.
pub open spec fn is_loaded_from(g: RequestForm, f: RequestForm, t: TabState) -> bool {
    &&& g.method@ == t.method@
    &&& g.url@ == t.url@
    &&& params_kept(t.params@, g.params@)
    &&& headers_kept(t.headers@, g.headers@)
    &&& g.body_state.body_type == t.body_type
    &&& g.body_state.raw_format == t.raw_format
    &&& g.body_state.raw_content@ == t.raw_json@
    &&& g.body_state.raw_content_xml@ == t.raw_xml@
    &&& g.body_state.raw_content_text@ == t.raw_text@
    &&& g.body_state.raw_content_html@ == t.raw_html@
    &&& rows_loaded(g.body_state.form_data@, t.form_data@)
    &&& rows_loaded(g.body_state.urlencoded_data@, t.urlencoded_data@)
    &&& g.body_state.binary_file_path == f.body_state.binary_file_path
    &&& g.body_state.json_error == f.body_state.json_error
    &&& g.body_state.soft_wrap == f.body_state.soft_wrap
    &&& auth_loaded(g.auth_state, t)
    &&& g.settings == t.settings
    &&& opt_response_view(g.response) == opt_response_view(t.response)
    &&& g.response_raw_format == t.response_raw_format
    &&& g.builder_tab == t.builder_tab
    &&& g.timeout_secs@ == t.timeout_secs@
    &&& g.retry_count@ == t.retry_count@
    &&& g.pre_request_script@ == t.pre_request_script@
    &&& g.test_script@ == t.test_script@
}

fn load_params(kept: &Vec<(String, String, bool)>) -> (r: Vec<ParamEntry>)
    ensures
        params_kept(kept@, r@),
{
    let mut r: Vec<ParamEntry> = Vec::new();
    let mut i: usize = 0;
    while i < kept.len()
        invariant
            i <= kept@.len(),
            r@.len() == i,
            forall|j: int|
                0 <= j < i ==> #[trigger] triple_view(kept@[j]) == (r@[j].key@, r@[j].value@,
                    r@[j].enabled),
        decreases kept@.len() - i,
    {
        r.push(ParamEntry { key: kept[i].0.clone(), value: kept[i].1.clone(), enabled: kept[i].2 });
        i += 1;
    }
    r
}

fn load_headers(kept: &Vec<(String, String, bool)>) -> (r: Vec<HeaderEntry>)
    ensures
        headers_kept(kept@, r@),
{
    let mut r: Vec<HeaderEntry> = Vec::new();
    let mut i: usize = 0;
    while i < kept.len()
        invariant
            i <= kept@.len(),
            r@.len() == i,
            forall|j: int|
                0 <= j < i ==> #[trigger] triple_view(kept@[j]) == (r@[j].key@, r@[j].value@,
                    r@[j].enabled),
        decreases kept@.len() - i,
    {
        r.push(HeaderEntry { key: kept[i].0.clone(), value: kept[i].1.clone(), enabled: kept[i].2 });
        i += 1;
    }
    r
}

fn load_row(s: &SavedFormDataEntry) -> (e: FormDataEntry)
    ensures
        row_loaded(e, *s),
{
    let value = if s.is_file {
        FormDataValue::File(
            TextInput { text: s.file_path.clone(), numbers_only: false },
            s.file_path.clone(),
        )
    } else {
        FormDataValue::Text(TextInput { text: s.value.clone(), numbers_only: false })
    };
    FormDataEntry {
        key: s.key.clone(),
        value,
        enabled: s.enabled,
        param_type: s.param_type,
        type_index: 0,
    }
}

fn load_rows(kept: &Vec<SavedFormDataEntry>) -> (r: Vec<FormDataEntry>)
    ensures
        rows_loaded(r@, kept@),
{
    let mut r: Vec<FormDataEntry> = Vec::new();
    let mut i: usize = 0;
    while i < kept.len()
        invariant
            i <= kept@.len(),
            r@.len() == i,
            forall|j: int| 0 <= j < i ==> #[trigger] row_loaded(r@[j], kept@[j]),
        decreases kept@.len() - i,
    {
        let e = load_row(&kept[i]);
        r.push(e);
        i += 1;
    }
    r
}

fn load_auth(t: &TabState) -> (a: AuthState)
    ensures
        auth_loaded(a, *t),
{
    if t.auth_type_index == 1 {
        AuthState::Bearer(BearerTokenAuthData { token: t.bearer_token.clone() })
    } else if t.auth_type_index == 2 {
        AuthState::Basic(
            BasicAuthData { username: t.basic_username.clone(), password: t.basic_password.clone() },
        )
    } else if t.auth_type_index == 3 {
        AuthState::ApiKey(
            ApiKeyAuthData {
                key: t.api_key_name.clone(),
                value: t.api_key_value.clone(),
                location_index: t.api_key_location.to_index(),
                location_value: t.api_key_location,
            },
        )
    } else {
        AuthState::NoAuth
    }
}

/// Loads a tab into the form (what is done when a tab is shown); see `is_loaded_from`.
pub fn restore_tab(form: &mut RequestForm, tab: &TabState)
    ensures
        is_loaded_from(*final(form), *old(form), *tab),
{
    form.method = tab.method.clone();
    form.url = tab.url.clone();
    form.params = load_params(&tab.params);
    form.headers = load_headers(&tab.headers);
    form.body_state.body_type = tab.body_type;
    form.body_state.raw_format = tab.raw_format;
    form.body_state.raw_content = tab.raw_json.clone();
    form.body_state.raw_content_xml = tab.raw_xml.clone();
    form.body_state.raw_content_text = tab.raw_text.clone();
    form.body_state.raw_content_html = tab.raw_html.clone();
    form.body_state.form_data = load_rows(&tab.form_data);
    form.body_state.urlencoded_data = load_rows(&tab.urlencoded_data);
    form.auth_state = load_auth(tab);
    form.settings = tab.settings;
    form.response = copy_opt_response(&tab.response);
    form.response_raw_format = tab.response_raw_format;
    form.builder_tab = tab.builder_tab;
    form.timeout_secs = tab.timeout_secs.clone();
    form.retry_count = tab.retry_count.clone();
    form.pre_request_script = tab.pre_request_script.clone();
    form.test_script = tab.test_script.clone();
}

/// A row as it comes back from its tab: key, switch and kind kept, a text row keeps its
/// text, a file row keeps its path (and its input then shows the path), the selector shows
/// its first position and the input takes any text.
pub open spec fn row_comes_back(g: FormDataEntry, e: FormDataEntry) -> bool {
    &&& g.key@ == e.key@
    &&& g.enabled == e.enabled
    &&& g.param_type == e.param_type
    &&& g.type_index == 0
    &&& match e.value {
        FormDataValue::Text(i) => g.value matches FormDataValue::Text(j) && j.text@ == i.text@
            && !j.numbers_only,
        FormDataValue::File(_, p) => g.value matches FormDataValue::File(j, q) && q@ == p@
            && j.text@ == p@ && !j.numbers_only,
    }
}

/// An authorisation as it comes back from its tab: the same kind and fields; an API key's
/// place selector shows its place.
pub open spec fn auth_comes_back(g: AuthState, a: AuthState) -> bool {
    match a {
        AuthState::NoAuth => g is NoAuth,
        AuthState::Bearer(b) => g matches AuthState::Bearer(c) && c.token@ == b.token@,
        AuthState::Basic(b) => g matches AuthState::Basic(c) && c.username@ == b.username@
            && c.password@ == b.password@,
        AuthState::ApiKey(k) => g matches AuthState::ApiKey(m) && m.key@ == k.key@ && m.value@
            == k.value@ && m.location_value == k.location_value && m.location_index
            == k.location_value.index_of(),
    }
}

/// Law: saving the form into a tab and loading that tab back gives the same request: method,
/// URL, parameter and header rows, body kind, format and texts, the form rows (up to what
/// `row_comes_back` says), the authorisation (up to its place selector), the request settings,
/// the response and its format, the builder pane, timeout, retry count and scripts.
pub proof fn law_tab_roundtrip(f: RequestForm, t: TabState, g: RequestForm)
    requires
        is_snapshot_of(t, f),
        is_loaded_from(g, f, t),
    ensures
        g.method@ == f.method@,
        g.url@ == f.url@,
        g.params@.len() == f.params@.len(),
        forall|i: int|
            0 <= i < f.params@.len() ==> (#[trigger] g.params@[i]).key@ == f.params@[i].key@
                && g.params@[i].value@ == f.params@[i].value@ && g.params@[i].enabled
                == f.params@[i].enabled,
        g.headers@.len() == f.headers@.len(),
        forall|i: int|
            0 <= i < f.headers@.len() ==> (#[trigger] g.headers@[i]).key@ == f.headers@[i].key@
                && g.headers@[i].value@ == f.headers@[i].value@ && g.headers@[i].enabled
                == f.headers@[i].enabled,
        g.body_state.body_type == f.body_state.body_type,
        g.body_state.raw_format == f.body_state.raw_format,
        g.body_state.raw_content@ == f.body_state.raw_content@,
        g.body_state.raw_content_xml@ == f.body_state.raw_content_xml@,
        g.body_state.raw_content_text@ == f.body_state.raw_content_text@,
        g.body_state.raw_content_html@ == f.body_state.raw_content_html@,
        g.body_state.form_data@.len() == f.body_state.form_data@.len(),
        forall|i: int|
            0 <= i < f.body_state.form_data@.len() ==> row_comes_back(
                #[trigger] g.body_state.form_data@[i],
                f.body_state.form_data@[i],
            ),
        g.body_state.urlencoded_data@.len() == f.body_state.urlencoded_data@.len(),
        forall|i: int|
            0 <= i < f.body_state.urlencoded_data@.len() ==> row_comes_back(
                #[trigger] g.body_state.urlencoded_data@[i],
                f.body_state.urlencoded_data@[i],
            ),
        g.body_state.binary_file_path == f.body_state.binary_file_path,
        g.body_state.json_error == f.body_state.json_error,
        g.body_state.soft_wrap == f.body_state.soft_wrap,
        auth_comes_back(g.auth_state, f.auth_state),
        g.settings == f.settings,
        opt_response_view(g.response) == opt_response_view(f.response),
        g.response_raw_format == f.response_raw_format,
        g.builder_tab == f.builder_tab,
        g.timeout_secs@ == f.timeout_secs@,
        g.retry_count@ == f.retry_count@,
        g.pre_request_script@ == f.pre_request_script@,
        g.test_script@ == f.test_script@,
{
    assert forall|i: int| 0 <= i < f.params@.len() implies (#[trigger] g.params@[i]).key@
        == f.params@[i].key@ && g.params@[i].value@ == f.params@[i].value@
        && g.params@[i].enabled == f.params@[i].enabled by {
        assert(triple_view(t.params@[i]) == (f.params@[i].key@, f.params@[i].value@, f.params@[i].enabled));
        assert(triple_view(t.params@[i]) == (g.params@[i].key@, g.params@[i].value@, g.params@[i].enabled));
    }
    assert forall|i: int| 0 <= i < f.headers@.len() implies (#[trigger] g.headers@[i]).key@
        == f.headers@[i].key@ && g.headers@[i].value@ == f.headers@[i].value@
        && g.headers@[i].enabled == f.headers@[i].enabled by {
        assert(triple_view(t.headers@[i]) == (f.headers@[i].key@, f.headers@[i].value@, f.headers@[i].enabled));
        assert(triple_view(t.headers@[i]) == (g.headers@[i].key@, g.headers@[i].value@, g.headers@[i].enabled));
    }
    assert forall|i: int| 0 <= i < f.body_state.form_data@.len() implies row_comes_back(
        #[trigger] g.body_state.form_data@[i],
        f.body_state.form_data@[i],
    ) by {
        assert(row_kept(t.form_data@[i], f.body_state.form_data@[i]));
        assert(row_loaded(g.body_state.form_data@[i], t.form_data@[i]));
    }
    assert forall|i: int| 0 <= i < f.body_state.urlencoded_data@.len() implies row_comes_back(
        #[trigger] g.body_state.urlencoded_data@[i],
        f.body_state.urlencoded_data@[i],
    ) by {
        assert(row_kept(t.urlencoded_data@[i], f.body_state.urlencoded_data@[i]));
        assert(row_loaded(g.body_state.urlencoded_data@[i], t.urlencoded_data@[i]));
    }
}

/// A kept form row as plain values.
pub open spec fn saved_row_view(s: SavedFormDataEntry) -> (Seq<char>, Seq<char>, bool, FormDataParamType, bool, Seq<char>) {
    (s.key@, s.value@, s.enabled, s.param_type, s.is_file, s.file_path@)
}

/// A kept row as a row of the form keeps it: a file row's text is its path, a text row has
/// no path.
pub open spec fn row_is_canonical(s: SavedFormDataEntry) -> bool {
    if s.is_file {
        s.value@ == s.file_path@
    } else {
        s.file_path@.len() == 0
    }
}

/// A tab state as saving a form gives it: the authorisation at a position of the selector,
/// with the fields of the other kinds empty (and the key's place `Header` unless it is an API
/// key), and every kept row canonical.
pub open spec fn tab_is_canonical(t: TabState) -> bool {
    &&& t.auth_type_index <= 3
    &&& t.auth_type_index != 1 ==> t.bearer_token@.len() == 0
    &&& t.auth_type_index != 2 ==> t.basic_username@.len() == 0 && t.basic_password@.len() == 0
    &&& t.auth_type_index != 3 ==> t.api_key_name@.len() == 0 && t.api_key_value@.len() == 0
        && t.api_key_location == ApiKeyLocation::Header
    &&& forall|i: int| 0 <= i < t.form_data@.len() ==> row_is_canonical(#[trigger] t.form_data@[i])
    &&& forall|i: int| 0 <= i < t.urlencoded_data@.len() ==> row_is_canonical(
        #[trigger] t.urlencoded_data@[i],
    )
}

proof fn lemma_rows_back(kept: Seq<SavedFormDataEntry>, rows: Seq<FormDataEntry>, again: Seq<SavedFormDataEntry>)
    requires
        forall|i: int| 0 <= i < kept.len() ==> row_is_canonical(#[trigger] kept[i]),
        rows_loaded(rows, kept),
        rows_kept(again, rows),
    ensures
        again.len() == kept.len(),
        forall|i: int| 0 <= i < kept.len() ==> saved_row_view(#[trigger] again[i]) == saved_row_view(kept[i]),
{
    assert forall|i: int| 0 <= i < kept.len() implies saved_row_view(#[trigger] again[i]) == saved_row_view(kept[i]) by {
        assert(row_loaded(rows[i], kept[i]));
        assert(row_kept(again[i], rows[i]));
        assert(row_is_canonical(kept[i]));
    }
}

/// Law: loading a tab into the form and saving the form again gives back the tab's state:
/// every field is the same, but the name, which becomes the URL cut to 30 bytes (as saving
/// always names a tab). It holds of every tab state that saving a form can give.
pub proof fn law_load_then_save(t: TabState, f: RequestForm, g: RequestForm, t2: TabState)
    requires
        tab_is_canonical(t),
        is_loaded_from(g, f, t),
        is_snapshot_of(t2, g),
    ensures
        t2.method@ == t.method@,
        t2.url@ == t.url@,
        t2.name@ == tab_name_of(t.url@),
        t2.body_type == t.body_type,
        t2.raw_format == t.raw_format,
        t2.raw_json@ == t.raw_json@,
        t2.raw_xml@ == t.raw_xml@,
        t2.raw_text@ == t.raw_text@,
        t2.raw_html@ == t.raw_html@,
        t2.headers@.map_values(|h: (String, String, bool)| triple_view(h)) == t.headers@.map_values(
            |h: (String, String, bool)| triple_view(h),
        ),
        t2.params@.map_values(|h: (String, String, bool)| triple_view(h)) == t.params@.map_values(
            |h: (String, String, bool)| triple_view(h),
        ),
        t2.form_data@.map_values(|r: SavedFormDataEntry| saved_row_view(r)) == t.form_data@.map_values(
            |r: SavedFormDataEntry| saved_row_view(r),
        ),
        t2.urlencoded_data@.map_values(|r: SavedFormDataEntry| saved_row_view(r))
            == t.urlencoded_data@.map_values(|r: SavedFormDataEntry| saved_row_view(r)),
        t2.auth_type_index == t.auth_type_index,
        t2.bearer_token@ == t.bearer_token@,
        t2.basic_username@ == t.basic_username@,
        t2.basic_password@ == t.basic_password@,
        t2.api_key_name@ == t.api_key_name@,
        t2.api_key_value@ == t.api_key_value@,
        t2.api_key_location == t.api_key_location,
        t2.settings == t.settings,
        opt_response_view(t2.response) == opt_response_view(t.response),
        t2.response_raw_format == t.response_raw_format,
        t2.builder_tab == t.builder_tab,
        t2.timeout_secs@ == t.timeout_secs@,
        t2.retry_count@ == t.retry_count@,
        t2.pre_request_script@ == t.pre_request_script@,
        t2.test_script@ == t.test_script@,
{
    assert(t2.headers@.map_values(|h: (String, String, bool)| triple_view(h)) =~= t.headers@.map_values(
        |h: (String, String, bool)| triple_view(h),
    )) by {
        assert forall|i: int| 0 <= i < t.headers@.len() implies triple_view(#[trigger] t2.headers@[i])
            == triple_view(t.headers@[i]) by {
            assert(triple_view(t.headers@[i]) == (g.headers@[i].key@, g.headers@[i].value@, g.headers@[i].enabled));
            assert(triple_view(t2.headers@[i]) == (g.headers@[i].key@, g.headers@[i].value@, g.headers@[i].enabled));
        }
    }
    assert(t2.params@.map_values(|h: (String, String, bool)| triple_view(h)) =~= t.params@.map_values(
        |h: (String, String, bool)| triple_view(h),
    )) by {
        assert forall|i: int| 0 <= i < t.params@.len() implies triple_view(#[trigger] t2.params@[i])
            == triple_view(t.params@[i]) by {
            assert(triple_view(t.params@[i]) == (g.params@[i].key@, g.params@[i].value@, g.params@[i].enabled));
            assert(triple_view(t2.params@[i]) == (g.params@[i].key@, g.params@[i].value@, g.params@[i].enabled));
        }
    }
    lemma_rows_back(t.form_data@, g.body_state.form_data@, t2.form_data@);
    lemma_rows_back(t.urlencoded_data@, g.body_state.urlencoded_data@, t2.urlencoded_data@);
    assert(t2.form_data@.map_values(|r: SavedFormDataEntry| saved_row_view(r)) =~= t.form_data@.map_values(
        |r: SavedFormDataEntry| saved_row_view(r),
    ));
    assert(t2.urlencoded_data@.map_values(|r: SavedFormDataEntry| saved_row_view(r))
        =~= t.urlencoded_data@.map_values(|r: SavedFormDataEntry| saved_row_view(r)));
}

/// A request tab: its id, the method, URL and name shown on it, and what it keeps.
pub struct RequestTab {
    pub id: usize,
    pub method: String,
    pub url: String,
    pub name: String,
    pub tab_state: TabState,
}

/// The open tabs, which one is active, and the id the next new tab gets.
pub struct TabList {
    pub tabs: Vec<RequestTab>,
    pub active_tab: usize,
    pub next_tab_id: usize,
}

/// The name shown on a tab for a URL: the cut URL, or the given placeholder when that is empty.
pub open spec fn shown_name(url: Seq<char>, placeholder: Seq<char>) -> Seq<char> {
    if tab_name_of(url).len() == 0 {
        placeholder
    } else {
        tab_name_of(url)
    }
}

/// `r` is the tab `old` after the form `f` was saved into it.
pub open spec fn is_saved_into(r: RequestTab, old: RequestTab, f: RequestForm, placeholder: Seq<char>) -> bool {
    &&& r.id == old.id
    &&& r.url@ == f.url@
    &&& r.method@ == f.method@
    &&& r.name@ == shown_name(f.url@, placeholder)
    &&& is_snapshot_of(r.tab_state, f)
}

/// `r` is the tab list `old` after the form was saved into its active tab (when there is one).
pub open spec fn is_saved_list(r: TabList, old: TabList, f: RequestForm, placeholder: Seq<char>) -> bool {
    &&& r.active_tab == old.active_tab
    &&& r.next_tab_id == old.next_tab_id
    &&& r.tabs@.len() == old.tabs@.len()
    &&& forall|i: int| 0 <= i < old.tabs@.len() && i != old.active_tab ==> r.tabs@[i] == old.tabs@[i]
    &&& old.active_tab < old.tabs@.len() ==> is_saved_into(r.tabs@[old.active_tab as int], old.tabs@[old.active_tab as int], f, placeholder)
}

/// The active position after a tab was closed, with `n` tabs left: the last one when the
/// active position is now past the end, the one before when a tab before the active one was
/// closed, else the same position.
pub open spec fn active_after_close(active: usize, n: nat, closed: usize) -> int {
    if active >= n {
        n - 1
    } else if closed < active {
        active - 1
    } else {
        active as int
    }
}

/// Law: closing a tab other than the active one leaves the same tab active; closing the
/// active one makes a remaining tab active.
pub proof fn law_close_keeps_active_tab(tabs: Seq<RequestTab>, active: usize, closed: usize)
    requires
        tabs.len() > 1,
        active < tabs.len(),
        closed < tabs.len(),
    ensures
        0 <= active_after_close(active, (tabs.len() - 1) as nat, closed) < tabs.len() - 1,
        closed != active ==> tabs.remove(closed as int)[active_after_close(active, (tabs.len() - 1) as nat, closed)] == tabs[active as int],
{
}

impl TabList {
    /// There is a tab and the active one is one of them.
    pub open spec fn wf(self) -> bool {
        self.active_tab < self.tabs@.len()
    }

    /// No two tabs share an id, and every id is below the next one to be given.
    pub open spec fn ids_fresh(self) -> bool {
        &&& forall|i: int, j: int|
            0 <= i < j < self.tabs@.len() ==> #[trigger] self.tabs@[i].id != #[trigger] self.tabs@[j].id
        &&& forall|i: int| 0 <= i < self.tabs@.len() ==> #[trigger] self.tabs@[i].id < self.next_tab_id
    }

    /// The tabs the window starts with: one empty `GET` tab with id 1 under `default_name`,
    /// active, and 2 as the next id.
    pub fn new(default_name: String) -> (r: TabList)
        ensures
            r.wf(),
            r.tabs@.len() == 1,
            r.active_tab == 0,
            r.next_tab_id == 2,
            r.tabs@[0].id == 1,
            r.tabs@[0].method@ == "GET"@,
            r.tabs@[0].url@.len() == 0,
            r.tabs@[0].name == default_name,
            is_default_tab(r.tabs@[0].tab_state),
            r.ids_fresh(),
    {
        let tab = RequestTab {
            id: 1,
            method: text("GET"),
            url: String::new(),
            name: default_name,
            tab_state: TabState::default(),
        };
        TabList { tabs: vec![tab], active_tab: 0, next_tab_id: 2 }
    }

    /// Saves the form into the active tab: its URL, method, name (the cut URL, or
    /// `placeholder` when that is empty) and kept state. Nothing changes when the active
    /// position is past the tabs.
    pub fn save_current(&mut self, form: &RequestForm, placeholder: &str)
        requires
            byte_cut_fits(form.url@, TAB_NAME_MAX_BYTES as nat),
        ensures
            is_saved_list(*final(self), *old(self), *form, placeholder@),
    {
        if self.active_tab >= self.tabs.len() {
            return;
        }
        let state = snapshot_tab(form);
        let name = if state.name.as_str().is_empty() {
            text(placeholder)
        } else {
            state.name.clone()
        };
        let i = self.active_tab;
        let old_tab = self.tabs.remove(i);
        let tab = RequestTab {
            id: old_tab.id,
            method: form.method.clone(),
            url: form.url.clone(),
            name,
            tab_state: state,
        };
        self.tabs.insert(i, tab);
        assert forall|j: int| 0 <= j < old(self).tabs@.len() && j != i implies self.tabs@[j] == old(self).tabs@[j] by {
            if j < i {
            } else {
            }
        }
    }

    /// Opens a new tab after the others and makes it active, once the form is saved into the
    /// tab that was active. The new tab has the next id, a `GET` with no URL, the placeholder
    /// as name and the default state; the id after it is the next one. Returns its position,
    /// the tab to load into the form.
    pub fn add_tab(&mut self, form: &RequestForm, placeholder: &str) -> (idx: usize)
        requires
            byte_cut_fits(form.url@, TAB_NAME_MAX_BYTES as nat),
            old(self).next_tab_id < usize::MAX,
            old(self).tabs@.len() < usize::MAX,
        ensures
            idx == old(self).tabs@.len(),
            final(self).tabs@.len() == old(self).tabs@.len() + 1,
            final(self).active_tab == idx,
            final(self).next_tab_id == old(self).next_tab_id + 1,
            final(self).wf(),
            forall|j: int| 0 <= j < old(self).tabs@.len() && j != old(self).active_tab
                ==> final(self).tabs@[j] == old(self).tabs@[j],
            old(self).active_tab < old(self).tabs@.len() ==> is_saved_into(
                final(self).tabs@[old(self).active_tab as int],
                old(self).tabs@[old(self).active_tab as int],
                *form,
                placeholder@,
            ),
            final(self).tabs@[idx as int].id == old(self).next_tab_id,
            final(self).tabs@[idx as int].method@ == "GET"@,
            final(self).tabs@[idx as int].url@.len() == 0,
            final(self).tabs@[idx as int].name@ == placeholder@,
            is_default_tab(final(self).tabs@[idx as int].tab_state),
            forall|j: int| 0 <= j < old(self).tabs@.len() ==> #[trigger] final(self).tabs@[j].id
                == old(self).tabs@[j].id,
            old(self).ids_fresh() ==> final(self).ids_fresh(),
    {
        self.save_current(form, placeholder);
        let id = self.next_tab_id;
        self.next_tab_id = self.next_tab_id + 1;
        let tab = RequestTab {
            id,
            method: text("GET"),
            url: String::new(),
            name: text(placeholder),
            tab_state: TabState::default(),
        };
        self.tabs.push(tab);
        let idx = self.tabs.len() - 1;
        self.active_tab = idx;
        idx
    }

    /// Closes the tab at `tab_idx`, unless it is the only one (then nothing changes and
    /// `None` comes back). The tab that becomes active: the last one when the active position
    /// is now past the end, the one before when a tab before the active one was closed, else
    /// the same position. Returns that position, the tab to load into the form.
    pub fn close_tab(&mut self, tab_idx: usize) -> (r: Option<usize>)
        requires
            old(self).tabs@.len() > 1 ==> tab_idx < old(self).tabs@.len(),
        ensures
            old(self).tabs@.len() <= 1 ==> r is None && *final(self) == *old(self),
            old(self).tabs@.len() > 1 ==> {
                let na = active_after_close(old(self).active_tab, (old(self).tabs@.len() - 1) as nat, tab_idx);
                &&& r is Some && r->0 == na
                &&& final(self).tabs@ == old(self).tabs@.remove(tab_idx as int)
                &&& final(self).active_tab == na
                &&& final(self).next_tab_id == old(self).next_tab_id
                &&& final(self).wf()
                &&& old(self).ids_fresh() ==> final(self).ids_fresh()
            },
    {
        if self.tabs.len() <= 1 {
            return None;
        }
        self.tabs.remove(tab_idx);
        let n = self.tabs.len();
        let new_active = if self.active_tab >= n {
            n - 1
        } else if tab_idx < self.active_tab {
            self.active_tab - 1
        } else {
            self.active_tab
        };
        self.active_tab = new_active;
        Some(new_active)
    }

    /// Shows the tab at `tab_idx`: when it is another existing tab, the form is saved into
    /// the active tab and `tab_idx` becomes active, and `Some(tab_idx)` comes back (the tab to
    /// load into the form); otherwise nothing changes and `None` comes back.
    pub fn switch_tab(&mut self, tab_idx: usize, form: &RequestForm, placeholder: &str) -> (r: Option<usize>)
        requires
            byte_cut_fits(form.url@, TAB_NAME_MAX_BYTES as nat),
        ensures
            (tab_idx == old(self).active_tab || tab_idx >= old(self).tabs@.len()) ==> r is None
                && *final(self) == *old(self),
            !(tab_idx == old(self).active_tab || tab_idx >= old(self).tabs@.len()) ==> {
                &&& r == Some(tab_idx)
                &&& final(self).active_tab == tab_idx
                &&& final(self).next_tab_id == old(self).next_tab_id
                &&& final(self).tabs@.len() == old(self).tabs@.len()
                &&& forall|j: int| 0 <= j < old(self).tabs@.len() && j != old(self).active_tab
                    ==> final(self).tabs@[j] == old(self).tabs@[j]
                &&& old(self).active_tab < old(self).tabs@.len() ==> is_saved_into(
                    final(self).tabs@[old(self).active_tab as int],
                    old(self).tabs@[old(self).active_tab as int],
                    *form,
                    placeholder@,
                )
                &&& old(self).ids_fresh() ==> final(self).ids_fresh()
            },
    {
        if tab_idx == self.active_tab || tab_idx >= self.tabs.len() {
            return None;
        }
        self.save_current(form, placeholder);
        self.active_tab = tab_idx;
        Some(tab_idx)
    }
}

/// Rebuilds the tab list from saved tab states (`None` when there are none): tab `i` gets id
/// `i`, the state's method and URL, and its name (the placeholder when that is empty); the
/// next id is the number of tabs, and the active position is the saved one, or the last tab
/// when that is past the end.
pub fn load_workspace(states: Vec<TabState>, active_tab: usize, placeholder: &str) -> (r: Option<TabList>)
    ensures
        states@.len() == 0 <==> r is None,
        match r {
            Some(l) => {
                &&& l.tabs@.len() == states@.len()
                &&& l.next_tab_id == states@.len()
                &&& l.active_tab == if active_tab < states@.len() {
                    active_tab as int
                } else {
                    states@.len() - 1
                }
                &&& l.wf()
                &&& l.ids_fresh()
                &&& forall|i: int| 0 <= i < states@.len() ==> {
                    let t = #[trigger] l.tabs@[i];
                    &&& t.id == i
                    &&& t.method@ == states@[i].method@
                    &&& t.url@ == states@[i].url@
                    &&& t.name@ == if states@[i].name@.len() == 0 {
                        placeholder@
                    } else {
                        states@[i].name@
                    }
                    &&& t.tab_state == states@[i]
                }
            },
            None => true,
        },
{
    if states.len() == 0 {
        return None;
    }
    let n = states.len();
    let ghost all = states@;
    let mut rest = states;
    let mut rev: Vec<RequestTab> = Vec::new();
    while rest.len() > 0
        invariant
            rest@.len() + rev@.len() == n,
            n == all.len(),
            rest@ == all.take(rest@.len() as int),
            forall|k: int| 0 <= k < rev@.len() ==> {
                let i = n - 1 - k;
                let t = #[trigger] rev@[k];
                &&& t.id == i
                &&& t.method@ == all[i].method@
                &&& t.url@ == all[i].url@
                &&& t.name@ == if all[i].name@.len() == 0 {
                    placeholder@
                } else {
                    all[i].name@
                }
                &&& t.tab_state == all[i]
            },
        decreases rest@.len(),
    {
        let ts = rest.pop().unwrap();
        let i = rest.len();
        let name = if ts.name.as_str().is_empty() {
            text(placeholder)
        } else {
            ts.name.clone()
        };
        let tab = RequestTab { id: i, method: ts.method.clone(), url: ts.url.clone(), name, tab_state: ts };
        rev.push(tab);
        assert(rest@ =~= all.take(rest@.len() as int));
    }
    let mut tabs: Vec<RequestTab> = Vec::new();
    while rev.len() > 0
        invariant
            rev@.len() + tabs@.len() == n,
            n == all.len(),
            forall|k: int| 0 <= k < rev@.len() ==> {
                let i = n - 1 - k;
                let t = #[trigger] rev@[k];
                &&& t.id == i
                &&& t.method@ == all[i].method@
                &&& t.url@ == all[i].url@
                &&& t.name@ == if all[i].name@.len() == 0 {
                    placeholder@
                } else {
                    all[i].name@
                }
                &&& t.tab_state == all[i]
            },
            forall|i: int| 0 <= i < tabs@.len() ==> {
                let t = #[trigger] tabs@[i];
                &&& t.id == i
                &&& t.method@ == all[i].method@
                &&& t.url@ == all[i].url@
                &&& t.name@ == if all[i].name@.len() == 0 {
                    placeholder@
                } else {
                    all[i].name@
                }
                &&& t.tab_state == all[i]
            },
        decreases rev@.len(),
    {
        let t = rev.pop().unwrap();
        tabs.push(t);
    }
    let active = if active_tab < n { active_tab } else { n - 1 };
    Some(TabList { tabs, active_tab: active, next_tab_id: n })
}

impl RequestForm {
    /// Adds an empty, enabled parameter row and writes the table back into the URL.
    pub fn add_param(&mut self)
        ensures
            final(self).params@ == old(self).params@.push(final(self).params@.last()),
            final(self).params@.last().key@.len() == 0,
            final(self).params@.last().value@.len() == 0,
            final(self).params@.last().enabled,
            final(self).url@ == synced_url(old(self).url@, final(self).params@),
            final(self).headers == old(self).headers,
            final(self).method == old(self).method,
    {
        self.params.push(ParamEntry { key: String::new(), value: String::new(), enabled: true });
        self.url = sync_params_to_url(self.url.as_str(), &self.params);
    }

    /// Removes the parameter row at `index`, when there is one, and writes the table back
    /// into the URL; otherwise nothing changes.
    pub fn remove_param(&mut self, index: usize)
        ensures
            index < old(self).params@.len() ==> final(self).params@ == old(self).params@.remove(index as int)
                && final(self).url@ == synced_url(old(self).url@, final(self).params@),
            index >= old(self).params@.len() ==> final(self).params == old(self).params
                && final(self).url == old(self).url,
            final(self).headers == old(self).headers,
            final(self).method == old(self).method,
    {
        if index < self.params.len() {
            self.params.remove(index);
            self.url = sync_params_to_url(self.url.as_str(), &self.params);
        }
    }

    /// Switches the parameter row at `index` on or off, when there is one, and writes the table
    /// back into the URL; otherwise nothing changes.
    pub fn toggle_param(&mut self, index: usize)
        ensures
            final(self).params@.len() == old(self).params@.len(),
            index < old(self).params@.len() ==> {
                &&& final(self).params@[index as int].key == old(self).params@[index as int].key
                &&& final(self).params@[index as int].value == old(self).params@[index as int].value
                &&& final(self).params@[index as int].enabled == !old(self).params@[index as int].enabled
                &&& forall|j: int| 0 <= j < old(self).params@.len() && j != index ==> final(self).params@[j] == old(self).params@[j]
                &&& final(self).url@ == synced_url(old(self).url@, final(self).params@)
            },
            index >= old(self).params@.len() ==> final(self).params == old(self).params
                && final(self).url == old(self).url,
            final(self).headers == old(self).headers,
            final(self).method == old(self).method,
    {
        if index < self.params.len() {
            let p = self.params.remove(index);
            self.params.insert(index, ParamEntry { key: p.key, value: p.value, enabled: !p.enabled });
            self.url = sync_params_to_url(self.url.as_str(), &self.params);
            assert forall|j: int| 0 <= j < old(self).params@.len() && j != index implies self.params@[j] == old(self).params@[j] by {
                if j < index {
                } else {
                }
            }
        }
    }

    /// Adds an empty, enabled header row.
    pub fn add_header(&mut self)
        ensures
            final(self).headers@.len() == old(self).headers@.len() + 1,
            forall|j: int| 0 <= j < old(self).headers@.len() ==> final(self).headers@[j] == old(self).headers@[j],
            final(self).headers@.last().key@.len() == 0,
            final(self).headers@.last().value@.len() == 0,
            final(self).headers@.last().enabled,
            final(self).params == old(self).params,
            final(self).url == old(self).url,
    {
        self.headers.push(HeaderEntry::new());
    }

    /// Removes the header row at `index`, when there is one.
    pub fn remove_header(&mut self, index: usize)
        ensures
            index < old(self).headers@.len() ==> final(self).headers@ == old(self).headers@.remove(index as int),
            index >= old(self).headers@.len() ==> final(self).headers == old(self).headers,
            final(self).params == old(self).params,
            final(self).url == old(self).url,
    {
        if index < self.headers.len() {
            self.headers.remove(index);
        }
    }

    /// Switches the header row at `index` on or off, when there is one.
    pub fn toggle_header(&mut self, index: usize)
        ensures
            final(self).headers@.len() == old(self).headers@.len(),
            index < old(self).headers@.len() ==> {
                &&& final(self).headers@[index as int].key == old(self).headers@[index as int].key
                &&& final(self).headers@[index as int].value == old(self).headers@[index as int].value
                &&& final(self).headers@[index as int].enabled == !old(self).headers@[index as int].enabled
                &&& forall|j: int| 0 <= j < old(self).headers@.len() && j != index ==> final(self).headers@[j] == old(self).headers@[j]
            },
            index >= old(self).headers@.len() ==> final(self).headers == old(self).headers,
            final(self).params == old(self).params,
            final(self).url == old(self).url,
    {
        if index < self.headers.len() {
            let h = self.headers.remove(index);
            self.headers.insert(index, HeaderEntry { key: h.key, value: h.value, enabled: !h.enabled });
            assert forall|j: int| 0 <= j < old(self).headers@.len() && j != index implies self.headers@[j] == old(self).headers@[j] by {
                if j < index {
                } else {
                }
            }
        }
    }

    /// The number of lines of the body editor: those of the JSON text for a raw JSON body,
    /// else 1.
    pub fn calculate_body_line_count(&self) -> (n: usize)
        ensures
            n == if self.body_state.body_type == BodyType::Raw && self.body_state.raw_format == RawFormat::Json {
                line_count(self.body_state.raw_content@)
            } else {
                1
            },
    {
        if self.body_state.body_type == BodyType::Raw && self.body_state.raw_format == RawFormat::Json {
            count_lines(self.body_state.raw_content.as_str())
        } else {
            1
        }
    }
}

/// The colour (RGB) of a tab's method label: green GET, amber POST, blue PUT, red DELETE,
/// violet PATCH and OPTIONS, grey HEAD and any other; compared upper-cased.
pub fn method_color(method: &str) -> (c: u32)
    ensures
        vstd::utf8::is_ascii_chars(method@) ==> spec_to_uppercase(method@) == ascii_upper(method@),
        c == (if spec_to_uppercase(method@) == "GET"@ {
            0x22c55eu32
        } else if spec_to_uppercase(method@) == "POST"@ {
            0xf59e0bu32
        } else if spec_to_uppercase(method@) == "PUT"@ {
            0x3b82f6u32
        } else if spec_to_uppercase(method@) == "DELETE"@ {
            0xef4444u32
        } else if spec_to_uppercase(method@) == "PATCH"@ || spec_to_uppercase(method@) == "OPTIONS"@ {
            0x8b5cf6u32
        } else {
            0x6b7280u32
        }),
{
    let u = chars_of(to_uppercase(method).as_str());
    if chars_eq_str(&u, "GET") {
        0x22c55e
    } else if chars_eq_str(&u, "POST") {
        0xf59e0b
    } else if chars_eq_str(&u, "PUT") {
        0x3b82f6
    } else if chars_eq_str(&u, "DELETE") {
        0xef4444
    } else if chars_eq_str(&u, "PATCH") || chars_eq_str(&u, "OPTIONS") {
        0x8b5cf6
    } else {
        0x6b7280
    }
}

impl RequestForm {
    /// The form the window starts with: an empty `GET` with no rows, no body kind (the raw
    /// editors holding their samples), no authorisation, the default settings, no response
    /// (shown as JSON), the parameters pane, a 30 second timeout, no retry and no scripts.
    pub fn new() -> (f: RequestForm)
        ensures
            f.method@ == "GET"@,
            f.url@.len() == 0,
            f.params@.len() == 0,
            f.headers@.len() == 0,
            f.body_state.body_type == BodyType::NoBody,
            f.body_state.raw_format == RawFormat::Json,
            f.body_state.raw_content@ == "{\"key\": \"value\"}"@,
            f.body_state.raw_content_xml@ == "<root></root>"@,
            f.body_state.raw_content_text@ == "plain text"@,
            f.body_state.raw_content_html@ == "<html></html>"@,
            f.body_state.form_data@.len() == 0,
            f.body_state.urlencoded_data@.len() == 0,
            f.body_state.binary_file_path is None,
            f.body_state.json_error is None,
            !f.body_state.soft_wrap,
            f.auth_state is NoAuth,
            f.settings.follow_redirects && f.settings.verify_ssl,
            f.response is None,
            f.response_raw_format == RawFormat::Json,
            f.builder_tab == BuilderTab::Params,
            f.timeout_secs@ == "30"@,
            f.retry_count@ == "0"@,
            f.pre_request_script@.len() == 0,
            f.test_script@.len() == 0,
    {
        RequestForm {
            method: text("GET"),
            url: String::new(),
            params: Vec::new(),
            headers: Vec::new(),
            body_state: BodyState::new(
                text("{\"key\": \"value\"}"),
                text("<root></root>"),
                text("plain text"),
                text("<html></html>"),
            ),
            auth_state: AuthState::NoAuth,
            settings: RequestSettings::default(),
            response: None,
            response_raw_format: RawFormat::Json,
            builder_tab: BuilderTab::Params,
            timeout_secs: text("30"),
            retry_count: text("0"),
            pre_request_script: String::new(),
            test_script: String::new(),
        }
    }
}

impl RequestForm {
    /// Shows a request from the history: its method and URL.
    pub fn load_from_history(&mut self, method: &str, url: &str)
        ensures
            final(self).method@ == method@,
            final(self).url@ == url@,
            final(self).params == old(self).params,
            final(self).headers == old(self).headers,
            final(self).body_state == old(self).body_state,
            final(self).auth_state == old(self).auth_state,
    {
        self.method = text(method);
        self.url = text(url);
    }

    /// The kind of authorisation in the form.
    pub fn get_auth_type(&self) -> (t: AuthType)
        ensures
            t == kind_of(self.auth_state),
    {
        self.auth_state.auth_type()
    }

    /// Sets the kind of body by its position in the selector (positions past the last give no
    /// body).
    pub fn set_body_type(&mut self, index: usize)
        ensures
            final(self).body_state == (BodyState { body_type: BodyType::from_index_spec(index), ..old(self).body_state }),
            final(self).params == old(self).params,
            final(self).headers == old(self).headers,
    {
        self.body_state.body_type = BodyType::from_index(index);
    }

    /// The kind of body in the form.
    pub fn get_body_type(&self) -> (t: BodyType)
        ensures
            t == self.body_state.body_type,
    {
        self.body_state.body_type
    }

    /// Sets the raw format by its position in the selector (positions past the last give JSON).
    pub fn set_raw_format(&mut self, index: usize)
        ensures
            final(self).body_state == (BodyState { raw_format: RawFormat::from_index_spec(index), ..old(self).body_state }),
            final(self).params == old(self).params,
            final(self).headers == old(self).headers,
    {
        self.body_state.raw_format = RawFormat::from_index(index);
    }

    /// The raw format of the body.
    pub fn get_raw_format(&self) -> (f: RawFormat)
        ensures
            f == self.body_state.raw_format,
    {
        self.body_state.raw_format
    }

    /// Sets the format the response is shown in by its position in the selector (positions past
    /// the last give JSON).
    pub fn set_response_raw_format(&mut self, index: usize)
        ensures
            final(self).response_raw_format == RawFormat::from_index_spec(index),
            final(self).body_state == old(self).body_state,
    {
        self.response_raw_format = RawFormat::from_index(index);
    }

    /// The format the response is shown in.
    pub fn get_response_raw_format(&self) -> (f: RawFormat)
        ensures
            f == self.response_raw_format,
    {
        self.response_raw_format
    }

    /// Shows a pane of the request builder.
    pub fn set_builder_tab(&mut self, tab: BuilderTab)
        ensures
            final(self).builder_tab == tab,
            final(self).body_state == old(self).body_state,
            final(self).params == old(self).params,
    {
        self.builder_tab = tab;
    }
}

/// The sidebar: the pane shown, and whether the saved requests are to be read again.
pub struct SidebarState {
    pub tab: SidebarTab,
    pub needs_collections_refresh: bool,
}

impl SidebarState {
    /// Shows a pane of the sidebar; showing the saved requests has them read again.
    pub fn set_sidebar_tab(&mut self, tab: SidebarTab)
        ensures
            final(self).tab == tab,
            final(self).needs_collections_refresh == (old(self).needs_collections_refresh || tab
                == SidebarTab::Collections),
    {
        self.tab = tab;
        if tab == SidebarTab::Collections {
            self.needs_collections_refresh = true;
        }
    }
}

} // verus!
