//! What a request is sent with: its headers (authorisation, table rows and the body's content
//! type), its URL, body and form fields, all taken from the request form.
use vstd::prelude::*;
use crate::auth::{auth_headers, auth_query, credentials_fit, AuthState};
use crate::body::{body_content_type, body_text, detected_format, file_fields, text_fields, BodyState, BodyType, RawFormat};
use crate::headers::{enabled_headers, sent_headers, HeaderEntry};
use crate::query::{request_url, request_url_spec, ParamEntry};
use crate::tabs::RequestForm;
use crate::text::{append_str, ascii_lower, ascii_lower_chars, chars_eq_str, chars_of, string_from_chars};

verus! {

/// A file sent as a form field: the field's name, the file's path and its content type.
pub struct FileField {
    pub field_name: String,
    pub file_path: String,
    pub content_type: String,
}

/// A request ready to be sent.
pub struct HttpRequest {
    pub method: String,
    pub url: String,
    pub headers: Vec<(String, String)>,
    pub body: Option<String>,
    pub content_type: Option<String>,
    pub text_fields: Vec<(String, String)>,
    pub file_fields: Vec<FileField>,
}

/// A response as it was received: status code and reason, headers, body text, the time it
/// took in milliseconds and its size in bytes.
pub struct HttpResponse {
    pub status: u16,
    pub status_text: String,
    pub headers: Vec<(String, String)>,
    pub body: String,
    pub time_ms: u64,
    pub size_bytes: u64,
}

/// A response as plain values.
pub open spec fn response_view(r: HttpResponse) -> (u16, Seq<char>, Seq<(String, String)>, Seq<char>, u64, u64) {
    (r.status, r.status_text@, r.headers@, r.body@, r.time_ms, r.size_bytes)
}

/// An optional response as plain values.
pub open spec fn opt_response_view(r: Option<HttpResponse>) -> Option<
    (u16, Seq<char>, Seq<(String, String)>, Seq<char>, u64, u64),
> {
    match r {
        Some(x) => Some(response_view(x)),
        None => None,
    }
}

pub(crate) fn copy_pairs(v: &Vec<(String, String)>) -> (r: Vec<(String, String)>)
    ensures
        r@ == v@,
{
    let mut r: Vec<(String, String)> = Vec::new();
    let mut i: usize = 0;
    while i < v.len()
        invariant
            i <= v@.len(),
            r@ == v@.take(i as int),
        decreases v@.len() - i,
    {
        r.push((v[i].0.clone(), v[i].1.clone()));
        assert(r@ =~= v@.take(i + 1));
        i += 1;
    }
    assert(v@.take(v@.len() as int) =~= v@);
    r
}

/// A copy of a response, equal to it.
pub(crate) fn copy_response(r: &HttpResponse) -> (c: HttpResponse)
    ensures
        response_view(c) == response_view(*r),
{
    HttpResponse {
        status: r.status,
        status_text: r.status_text.clone(),
        headers: copy_pairs(&r.headers),
        body: r.body.clone(),
        time_ms: r.time_ms,
        size_bytes: r.size_bytes,
    }
}

/// A copy of an optional response, equal to it.
pub(crate) fn copy_opt_response(r: &Option<HttpResponse>) -> (c: Option<HttpResponse>)
    ensures
        opt_response_view(c) == opt_response_view(*r),
{
    match r {
        Some(x) => Some(copy_response(x)),
        None => None,
    }
}

/// Pairs of texts, as sequences of characters.
pub open spec fn pair_views(v: Seq<(String, String)>) -> Seq<(Seq<char>, Seq<char>)> {
    v.map_values(|p: (String, String)| (p.0@, p.1@))
}

/// An optional text, as characters.
pub open spec fn opt_view(o: Option<String>) -> Option<Seq<char>> {
    match o {
        Some(s) => Some(s@),
        None => None,
    }
}

/// A header name that names the content type: it lower-cases to `content-type`. (Unicode
/// lower-casing yields this ASCII name only from the same ASCII letters, so ASCII lower-casing
/// decides it.)
pub open spec fn names_content_type(k: Seq<char>) -> bool {
    ascii_lower(k) == "content-type"@
}

/// The headers a request is sent with: those of the authorisation, then the enabled table
/// rows with a key, then `Content-Type` with the body's content type when the body has one
/// and no header so far names it.
pub open spec fn request_headers_spec(
    a: AuthState,
    hs: Seq<HeaderEntry>,
    ct: Option<Seq<char>>,
) -> Seq<(Seq<char>, Seq<char>)> {
    let base = auth_headers(a) + sent_headers(hs);
    match ct {
        Some(c) => if exists|i: int| 0 <= i < base.len() && names_content_type(#[trigger] base[i].0) {
            base
        } else {
            base.push(("Content-Type"@, c))
        },
        None => base,
    }
}

/// The headers a request is sent with (see `request_headers_spec`).
pub fn request_headers(
    auth: &AuthState,
    headers: &Vec<HeaderEntry>,
    content_type: &Option<String>,
) -> (r: Vec<(String, String)>)
    requires
        credentials_fit(*auth),
    ensures
        pair_views(r@) == request_headers_spec(*auth, headers@, opt_view(*content_type)),
{
    let mut all = auth.to_headers();
    let user = enabled_headers(headers);
    let ghost a0 = pair_views(all@);
    let mut i: usize = 0;
    while i < user.len()
        invariant
            i <= user@.len(),
            a0 == auth_headers(*auth),
            pair_views(user@) == sent_headers(headers@),
            pair_views(all@) == a0 + pair_views(user@).take(i as int),
        decreases user@.len() - i,
    {
        let (k, v) = (user[i].0.clone(), user[i].1.clone());
        let ghost before = all@;
        all.push((k, v));
        assert(pair_views(all@) =~= pair_views(before).push((user@[i as int].0@, user@[i as int].1@)));
        i += 1;
        assert(pair_views(all@) =~= a0 + pair_views(user@).take(i as int));
    }
    assert(pair_views(user@).take(user@.len() as int) =~= pair_views(user@));
    let ghost base = pair_views(all@);
    match content_type {
        Some(ct) => {
            let mut found = false;
            let mut j: usize = 0;
            while j < all.len()
                invariant
                    j <= all@.len(),
                    base == pair_views(all@),
                    found <==> exists|m: int| 0 <= m < j && names_content_type(#[trigger] base[m].0),
                decreases all@.len() - j,
            {
                let lower = ascii_lower_chars(&chars_of(all[j].0.as_str()));
                if chars_eq_str(&lower, "content-type") {
                    found = true;
                }
                assert(base[j as int].0 == all@[j as int].0@);
                j += 1;
            }
            if !found {
                all.push((string_from_chars(&chars_of("Content-Type")), ct.clone()));
                assert(pair_views(all@) =~= base.push(("Content-Type"@, ct@)));
            }
        },
        None => {},
    }
    all
}

/// A header as a line: `key: value`.
pub open spec fn header_line(p: (Seq<char>, Seq<char>)) -> Seq<char> {
    p.0 + ": "@ + p.1
}

/// The header lines joined by newlines.
pub open spec fn header_lines(ps: Seq<(Seq<char>, Seq<char>)>) -> Seq<char>
    decreases ps.len(),
{
    if ps.len() == 0 {
        Seq::empty()
    } else if ps.len() == 1 {
        header_line(ps[0])
    } else {
        header_lines(ps.drop_last()) + seq!['\n'] + header_line(ps.last())
    }
}

/// The headers as text, one `key: value` line each, joined by newlines (as a history entry
/// keeps them).
pub fn headers_text(headers: &Vec<(String, String)>) -> (r: String)
    ensures
        r@ == header_lines(pair_views(headers@)),
{
    let ghost ps = pair_views(headers@);
    let mut out: Vec<char> = Vec::new();
    let mut i: usize = 0;
    while i < headers.len()
        invariant
            i <= headers@.len(),
            ps == pair_views(headers@),
            out@ == header_lines(ps.take(i as int)),
        decreases headers@.len() - i,
    {
        proof {
            reveal_strlit(": ");
        }
        let ghost before = out@;
        if i > 0 {
            out.push('\n');
        }
        append_str(&mut out, headers[i].0.as_str());
        append_str(&mut out, ": ");
        append_str(&mut out, headers[i].1.as_str());
        assert(ps.take(i + 1).drop_last() =~= ps.take(i as int));
        assert(ps[i as int] == (headers@[i as int].0@, headers@[i as int].1@));
        i += 1;
        assert(out@ =~= header_lines(ps.take(i as int)));
    }
    assert(ps.take(headers@.len() as int) =~= ps);
    string_from_chars(&out)
}

/// A file field as text: name, path and content type.
pub open spec fn file_view(f: FileField) -> (Seq<char>, Seq<char>, Seq<char>) {
    (f.field_name@, f.file_path@, f.content_type@)
}

/// The files a request sends: those of the form-data table, then, for a binary body with a
/// chosen file, that file as the field `file` of type `application/octet-stream`.
pub open spec fn sent_files(b: BodyState) -> Seq<(Seq<char>, Seq<char>, Seq<char>)> {
    let fs = file_fields(b.form_data@);
    if b.body_type == BodyType::Binary && b.binary_file_path is Some {
        fs.push(("file"@, b.binary_file_path->0@, "application/octet-stream"@))
    } else {
        fs
    }
}

/// The request the form sends once its URL is resolved: the form's method; the resolved URL
/// with the scheme added, the query of the parameter table and the API key pair (see
/// `request_url_spec`); the headers of `request_headers_spec`; the body, its content type,
/// and the form fields and files of the body.
pub fn prepare_request(form: &RequestForm, resolved_url: &str) -> (r: HttpRequest)
    requires
        credentials_fit(form.auth_state),
    ensures
        r.method@ == form.method@,
        r.url@ == request_url_spec(resolved_url@, form.params@, auth_query(form.auth_state)),
        pair_views(r.headers@) == request_headers_spec(
            form.auth_state,
            form.headers@,
            body_content_type(form.body_state),
        ),
        opt_view(r.body) == body_text(form.body_state),
        opt_view(r.content_type) == body_content_type(form.body_state),
        pair_views(r.text_fields@) == text_fields(form.body_state.form_data@),
        r.file_fields@.map_values(|f: FileField| file_view(f)) == sent_files(form.body_state),
{
    let content_type = form.body_state.content_type();
    assert(opt_view(content_type) == body_content_type(form.body_state));
    let headers = request_headers(&form.auth_state, &form.headers, &content_type);
    let auth_q = form.auth_state.to_query_params();
    let url = request_url(resolved_url, &form.params, &auth_q);
    let body = form.body_state.to_body();
    let text_fields = form.body_state.get_form_data_text_fields();
    let raw_files = form.body_state.get_form_data_file_fields();
    let ghost rv = raw_files@.map_values(|p: (String, String, String)| (p.0@, p.1@, p.2@));
    let mut files: Vec<FileField> = Vec::new();
    let mut i: usize = 0;
    while i < raw_files.len()
        invariant
            i <= raw_files@.len(),
            rv == raw_files@.map_values(|p: (String, String, String)| (p.0@, p.1@, p.2@)),
            files@.map_values(|f: FileField| file_view(f)) == rv.take(i as int),
        decreases raw_files@.len() - i,
    {
        let f = FileField {
            field_name: raw_files[i].0.clone(),
            file_path: raw_files[i].1.clone(),
            content_type: raw_files[i].2.clone(),
        };
        let ghost before = files@;
        files.push(f);
        assert(files@.map_values(|f: FileField| file_view(f)) =~= before.map_values(
            |f: FileField| file_view(f),
        ).push(rv[i as int]));
        i += 1;
        assert(rv.take(i as int) =~= rv.take(i - 1).push(rv[i - 1]));
    }
    assert(rv.take(raw_files@.len() as int) =~= rv);
    if form.body_state.body_type == BodyType::Binary {
        match &form.body_state.binary_file_path {
            Some(path) => {
                let ghost before = files@;
                files.push(
                    FileField {
                        field_name: string_from_chars(&chars_of("file")),
                        file_path: path.clone(),
                        content_type: string_from_chars(&chars_of("application/octet-stream")),
                    },
                );
                assert(files@.map_values(|f: FileField| file_view(f)) =~= before.map_values(
                    |f: FileField| file_view(f),
                ).push(("file"@, path@, "application/octet-stream"@)));
            },
            None => {},
        }
    }
    HttpRequest {
        method: form.method.clone(),
        url,
        headers,
        body,
        content_type,
        text_fields,
        file_fields: files,
    }
}

/// The value of a response's first header that names the content type.
pub open spec fn response_content_type(hs: Seq<(String, String)>) -> Option<Seq<char>>
    decreases hs.len(),
{
    if hs.len() == 0 {
        None
    } else if names_content_type(hs[0].0@) {
        Some(hs[0].1@)
    } else {
        response_content_type(hs.drop_first())
    }
}

fn find_content_type(hs: &Vec<(String, String)>) -> (r: Option<String>)
    ensures
        opt_view(r) == response_content_type(hs@),
{
    let mut i: usize = 0;
    assert(hs@.skip(0) =~= hs@);
    while i < hs.len()
        invariant
            i <= hs@.len(),
            response_content_type(hs@.skip(i as int)) == response_content_type(hs@),
        decreases hs@.len() - i,
    {
        assert(hs@.skip(i as int).drop_first() =~= hs@.skip(i + 1));
        assert(hs@.skip(i as int)[0] == hs@[i as int]);
        let l = ascii_lower_chars(&chars_of(hs[i].0.as_str()));
        if chars_eq_str(&l, "content-type") {
            return Some(hs[i].1.clone());
        }
        i += 1;
    }
    assert(hs@.skip(i as int).len() == 0);
    None
}

/// The message shown when a request failed: `请求失败 -> ` and the error.
pub open spec fn failure_message(e: Seq<char>) -> Seq<char> {
    "请求失败 -> "@ + e
}

/// Whether a request is on its way, the frame of its loading animation, and the message of the
/// last failure.
pub struct SendState {
    pub is_loading: bool,
    pub loading_frame: u64,
    pub error_message: Option<String>,
}

impl SendState {
    /// Nothing on its way and no failure.
    pub fn new() -> (s: SendState)
        ensures
            !s.is_loading,
            s.loading_frame == 0,
            s.error_message is None,
    {
        SendState { is_loading: false, loading_frame: 0, error_message: None }
    }

    /// Starts sending, unless a request is already on its way: then nothing changes and
    /// `false` comes back. Starting clears the last failure and restarts the animation.
    pub fn begin_send(&mut self) -> (started: bool)
        ensures
            started == !old(self).is_loading,
            started ==> final(self).is_loading && final(self).loading_frame == 0
                && final(self).error_message is None,
            !started ==> *final(self) == *old(self),
    {
        if self.is_loading {
            return false;
        }
        self.is_loading = true;
        self.loading_frame = 0;
        self.error_message = None;
        true
    }

    /// Takes in the outcome of a request: a response is shown in the form, in the format its
    /// content type (or else its body) suggests; a failure is kept as a message and the form
    /// stays as it is. Either way nothing is on its way any more.
    pub fn finish_send(&mut self, form: &mut RequestForm, result: Result<HttpResponse, String>)
        ensures
            !final(self).is_loading,
            final(self).loading_frame == 0,
            match result {
                Ok(r) => {
                    &&& final(self).error_message == old(self).error_message
                    &&& *final(form) == (RequestForm {
                        response: Some(r),
                        response_raw_format: detected_format(response_content_type(r.headers@), r.body@),
                        ..*old(form)
                    })
                },
                Err(e) => {
                    &&& opt_view(final(self).error_message) == Some(failure_message(e@))
                    &&& *final(form) == *old(form)
                },
            },
    {
        match result {
            Ok(r) => {
                let ct = find_content_type(&r.headers);
                let f = match &ct {
                    Some(c) => RawFormat::detect(Some(c.as_str()), r.body.as_str()),
                    None => RawFormat::detect(None, r.body.as_str()),
                };
                form.response_raw_format = f;
                form.response = Some(r);
            },
            Err(e) => {
                let mut m = chars_of("请求失败 -> ");
                append_str(&mut m, e.as_str());
                self.error_message = Some(string_from_chars(&m));
            },
        }
        self.is_loading = false;
        self.loading_frame = 0;
    }
}

} // verus!
