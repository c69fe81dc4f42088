//! Filling the request form from outside: a saved request, the parts of an imported cURL
//! command, and the body kind a `Content-Type` header suggests; and the draft a request is
//! saved from.
use vstd::prelude::*;
use crate::body::{detected_format, BodyState, BodyType, RawFormat};
use crate::headers::HeaderEntry;
use crate::json::pretty_or_same;
use crate::query::{
    base_of, http_prefix, https_prefix, params_in_url, split_curl_url, starts_with, url_params,
    QueryStyle,
};
use crate::send::{header_lines, headers_text, names_content_type, pair_views};
use crate::text::{
    ascii_lower, ascii_lower_chars, byte_cut_fits, byte_cut_marked, chars_eq_str, chars_of,
    contains, contains_str, cut_bytes_marked, find_char, index_of, lines_of, slice_chars,
    string_from_chars, text_lines, trim, trim_chars,
};

verus! {

/// A content type that asks for a raw body: it mentions `json`, `xml`, `html`, `text` or
/// `javascript`, in any case. (Unicode lower-casing yields these ASCII words only from the
/// same ASCII letters, so ASCII lower-casing decides it.)
pub open spec fn is_text_like(ct: Seq<char>) -> bool {
    let l = ascii_lower(ct);
    contains(l, "json"@) || contains(l, "xml"@) || contains(l, "html"@) || contains(l, "text"@)
        || contains(l, "javascript"@)
}

/// The content type set in a header table: the value of the first row whose trimmed key is
/// `content-type` (in any case) and whose value is not empty. Disabled rows count too.
pub open spec fn header_content_type(hs: Seq<HeaderEntry>) -> Option<Seq<char>>
    decreases hs.len(),
{
    if hs.len() == 0 {
        None
    } else if names_content_type(trim(hs[0].key@)) && hs[0].value@.len() > 0 {
        Some(hs[0].value@)
    } else {
        header_content_type(hs.drop_first())
    }
}

/// The body kind and raw format once a content type was found: a text-like one makes the
/// body raw, in the format the content type names; anything else leaves both as they are.
pub open spec fn detected_body(bt: BodyType, rf: RawFormat, ct: Option<Seq<char>>) -> (BodyType, RawFormat) {
    match ct {
        Some(c) => if is_text_like(c) {
            (BodyType::Raw, detected_format(Some(c), Seq::empty()))
        } else {
            (bt, rf)
        },
        None => (bt, rf),
    }
}

/// Law: a content type that mentions `json` (in any case) makes the body raw, in JSON format,
/// whatever it was before.
pub proof fn law_json_content_type_makes_raw_json(bt: BodyType, rf: RawFormat, ct: Seq<char>)
    requires
        contains(ascii_lower(ct), "json"@),
    ensures
        detected_body(bt, rf, Some(ct)) == (BodyType::Raw, RawFormat::Json),
{
}

/// Law: a content type that mentions `xml`, `html` or `javascript` but not `json` makes the
/// body raw in that format (`xml` before `html` before `javascript`); one that mentions only
/// `text` of these makes it raw text; one that mentions none leaves the body as it was.
pub proof fn law_text_like_content_types(bt: BodyType, rf: RawFormat, ct: Seq<char>)
    ensures
        !contains(ascii_lower(ct), "json"@) && contains(ascii_lower(ct), "xml"@) ==> detected_body(
            bt,
            rf,
            Some(ct),
        ) == (BodyType::Raw, RawFormat::Xml),
        !contains(ascii_lower(ct), "json"@) && !contains(ascii_lower(ct), "xml"@) && contains(
            ascii_lower(ct),
            "html"@,
        ) ==> detected_body(bt, rf, Some(ct)) == (BodyType::Raw, RawFormat::Html),
        !contains(ascii_lower(ct), "json"@) && !contains(ascii_lower(ct), "xml"@) && !contains(
            ascii_lower(ct),
            "html"@,
        ) && contains(ascii_lower(ct), "javascript"@) ==> detected_body(bt, rf, Some(ct)) == (
            BodyType::Raw,
            RawFormat::JavaScript,
        ),
        !contains(ascii_lower(ct), "json"@) && !contains(ascii_lower(ct), "xml"@) && !contains(
            ascii_lower(ct),
            "html"@,
        ) && !contains(ascii_lower(ct), "javascript"@) && contains(ascii_lower(ct), "text"@)
            ==> detected_body(bt, rf, Some(ct)) == (BodyType::Raw, RawFormat::Text),
        !contains(ascii_lower(ct), "json"@) && !contains(ascii_lower(ct), "xml"@) && !contains(
            ascii_lower(ct),
            "html"@,
        ) && !contains(ascii_lower(ct), "javascript"@) && !contains(ascii_lower(ct), "text"@)
            ==> detected_body(bt, rf, Some(ct)) == (bt, rf),
        detected_body(bt, rf, None) == (bt, rf),
{
}

/// Law: a header table whose content type (the first `Content-Type` row with a value, its
/// name in any case) mentions `json` makes the body raw JSON.
pub proof fn law_json_header_makes_raw_json(hs: Seq<HeaderEntry>, bt: BodyType, rf: RawFormat)
    requires
        exists|i: int| #![trigger hs[i]]
            0 <= i < hs.len() && ascii_lower(trim(hs[i].key@)) == "content-type"@ && hs[i].value@.len() > 0
                && contains(ascii_lower(hs[i].value@), "json"@) && forall|j: int|
                0 <= j < i ==> !(ascii_lower(trim(hs[j].key@)) == "content-type"@ && hs[j].value@.len()
                    > 0),
    ensures
        detected_body(bt, rf, header_content_type(hs)) == (BodyType::Raw, RawFormat::Json),
{
    let i = choose|i: int| #![trigger hs[i]]
        0 <= i < hs.len() && ascii_lower(trim(hs[i].key@)) == "content-type"@ && hs[i].value@.len() > 0
            && contains(ascii_lower(hs[i].value@), "json"@) && forall|j: int|
            0 <= j < i ==> !(ascii_lower(trim(hs[j].key@)) == "content-type"@ && hs[j].value@.len()
                > 0);
    lemma_first_content_type(hs, i);
}

proof fn lemma_first_content_type(hs: Seq<HeaderEntry>, i: int)
    requires
        0 <= i < hs.len(),
        ascii_lower(trim(hs[i].key@)) == "content-type"@ && hs[i].value@.len() > 0,
        forall|j: int|
            0 <= j < i ==> !(ascii_lower(trim(hs[j].key@)) == "content-type"@ && hs[j].value@.len() > 0),
    ensures
        header_content_type(hs) == Some(hs[i].value@),
    decreases i,
{
    if i > 0 {
        assert(!(ascii_lower(trim(hs[0].key@)) == "content-type"@ && hs[0].value@.len() > 0));
        assert forall|j: int| 0 <= j < i - 1 implies !(ascii_lower(trim(hs.drop_first()[j].key@))
            == "content-type"@ && hs.drop_first()[j].value@.len() > 0) by {
            assert(hs.drop_first()[j] == hs[j + 1]);
        }
        lemma_first_content_type(hs.drop_first(), i - 1);
    }
}

fn find_header_content_type(hs: &Vec<HeaderEntry>) -> (r: Option<String>)
    ensures
        match r {
            Some(c) => header_content_type(hs@) == Some(c@),
            None => header_content_type(hs@) is None,
        },
{
    let mut i: usize = 0;
    assert(hs@.skip(0) =~= hs@);
    while i < hs.len()
        invariant
            i <= hs@.len(),
            header_content_type(hs@) == header_content_type(hs@.skip(i as int)),
        decreases hs@.len() - i,
    {
        let key = ascii_lower_chars(&trim_chars(&chars_of(hs[i].key.as_str())));
        assert(hs@.skip(i as int)[0] == hs@[i as int]);
        if chars_eq_str(&key, "content-type") && !hs[i].value.as_str().is_empty() {
            return Some(hs[i].value.clone());
        }
        assert(hs@.skip(i as int).drop_first() =~= hs@.skip(i + 1));
        i += 1;
    }
    assert(hs@.skip(hs@.len() as int) =~= Seq::<HeaderEntry>::empty());
    None
}

/// Makes the body raw when a header names a text-like content type, in the format that
/// content type names (see `header_content_type` and `detected_body`). Nothing else of the
/// body changes.
pub fn auto_detect_body_type_from_headers(headers: &Vec<HeaderEntry>, body: &mut BodyState)
    ensures
        (final(body).body_type, final(body).raw_format) == detected_body(
            old(body).body_type,
            old(body).raw_format,
            header_content_type(headers@),
        ),
        final(body).raw_content == old(body).raw_content,
        final(body).raw_content_xml == old(body).raw_content_xml,
        final(body).raw_content_text == old(body).raw_content_text,
        final(body).raw_content_html == old(body).raw_content_html,
        final(body).form_data == old(body).form_data,
        final(body).urlencoded_data == old(body).urlencoded_data,
        final(body).binary_file_path == old(body).binary_file_path,
        final(body).json_error == old(body).json_error,
        final(body).soft_wrap == old(body).soft_wrap,
{
    match find_header_content_type(headers) {
        Some(ct) => {
            let l = ascii_lower_chars(&chars_of(ct.as_str()));
            if contains_str(&l, "json") || contains_str(&l, "xml") || contains_str(&l, "html")
                || contains_str(&l, "text") || contains_str(&l, "javascript") {
                body.body_type = BodyType::Raw;
                body.raw_format = RawFormat::detect(Some(ct.as_str()), "");
            }
        },
        None => {},
    }
}

/// The header a line of a saved request's header text gives: the trimmed text before its
/// first `:` as key (when not empty), the trimmed text after it as value.
pub open spec fn header_of_line(l: Seq<char>) -> Option<(Seq<char>, Seq<char>)> {
    match index_of(l, ':') {
        Some(p) => if trim(l.take(p)).len() > 0 {
            Some((trim(l.take(p)), trim(l.skip(p + 1))))
        } else {
            None
        },
        None => None,
    }
}

/// The headers the lines give, in order.
pub open spec fn headers_of_lines(ls: Seq<Seq<char>>) -> Seq<(Seq<char>, Seq<char>)>
    decreases ls.len(),
{
    if ls.len() == 0 {
        Seq::empty()
    } else {
        let prev = headers_of_lines(ls.drop_last());
        match header_of_line(ls.last()) {
            Some(h) => prev.push(h),
            None => prev,
        }
    }
}

/// The headers kept in a saved request's header text.
pub open spec fn saved_headers(text: Seq<char>) -> Seq<(Seq<char>, Seq<char>)> {
    headers_of_lines(text_lines(text))
}

/// The content type a line gives: the trimmed text after its first `:` when the trimmed text
/// before it is `content-type` in any case.
pub open spec fn content_type_of_line(l: Seq<char>) -> Option<Seq<char>> {
    match index_of(l, ':') {
        Some(p) => if names_content_type(trim(l.take(p))) {
            Some(trim(l.skip(p + 1)))
        } else {
            None
        },
        None => None,
    }
}

/// The content type of the first line that gives one.
pub open spec fn content_type_of_lines(ls: Seq<Seq<char>>) -> Option<Seq<char>>
    decreases ls.len(),
{
    if ls.len() == 0 {
        None
    } else {
        match content_type_of_line(ls[0]) {
            Some(c) => Some(c),
            None => content_type_of_lines(ls.drop_first()),
        }
    }
}

/// The content type kept in a saved request's header text.
pub open spec fn saved_content_type(text: Seq<char>) -> Option<Seq<char>> {
    content_type_of_lines(text_lines(text))
}

/// Rows read from a saved request's header text (see `saved_headers`), all enabled.
pub fn saved_header_rows(text: &str) -> (r: Vec<HeaderEntry>)
    ensures
        r@.len() == saved_headers(text@).len(),
        forall|i: int|
            0 <= i < r@.len() ==> (#[trigger] r@[i]).key@ == saved_headers(text@)[i].0
                && r@[i].value@ == saved_headers(text@)[i].1 && r@[i].enabled,
{
    let lines = lines_of(&chars_of(text));
    let ghost ls = text_lines(text@);
    let mut r: Vec<HeaderEntry> = Vec::new();
    let mut i: usize = 0;
    while i < lines.len()
        invariant
            i <= lines@.len() == ls.len(),
            forall|k: int| 0 <= k < lines@.len() ==> #[trigger] lines@[k]@ == ls[k],
            r@.len() == headers_of_lines(ls.take(i as int)).len(),
            forall|k: int|
                0 <= k < r@.len() ==> (#[trigger] r@[k]).key@ == headers_of_lines(ls.take(i as int))[k].0
                    && r@[k].value@ == headers_of_lines(ls.take(i as int))[k].1 && r@[k].enabled,
        decreases lines@.len() - i,
    {
        assert(ls.take(i + 1).drop_last() =~= ls.take(i as int));
        let line = &lines[i];
        assert(line@ == ls[i as int]);
        match find_char(line, ':') {
            Some(p) => {
                let key = trim_chars(&slice_chars(line, 0, p));
                assert(line@.subrange(0, p as int) =~= line@.take(p as int));
                if key.len() > 0 {
                    let value = trim_chars(&slice_chars(line, p + 1, line.len()));
                    assert(line@.subrange(p + 1, line@.len() as int) =~= line@.skip(p + 1));
                    r.push(
                        HeaderEntry {
                            key: string_from_chars(&key),
                            value: string_from_chars(&value),
                            enabled: true,
                        },
                    );
                }
            },
            None => {},
        }
        i += 1;
    }
    assert(ls.take(lines@.len() as int) =~= ls);
    r
}

/// The content type kept in a saved request's header text (see `saved_content_type`).
pub fn saved_content_type_of(text: &str) -> (r: Option<String>)
    ensures
        match r {
            Some(c) => saved_content_type(text@) == Some(c@),
            None => saved_content_type(text@) is None,
        },
{
    let lines = lines_of(&chars_of(text));
    let ghost ls = text_lines(text@);
    let mut i: usize = 0;
    assert(ls.skip(0) =~= ls);
    while i < lines.len()
        invariant
            i <= lines@.len() == ls.len(),
            forall|k: int| 0 <= k < lines@.len() ==> #[trigger] lines@[k]@ == ls[k],
            ls == text_lines(text@),
            content_type_of_lines(ls) == content_type_of_lines(ls.skip(i as int)),
        decreases lines@.len() - i,
    {
        let line = &lines[i];
        assert(ls.skip(i as int)[0] == ls[i as int]);
        match find_char(line, ':') {
            Some(p) => {
                let key = ascii_lower_chars(&trim_chars(&slice_chars(line, 0, p)));
                assert(line@.subrange(0, p as int) =~= line@.take(p as int));
                if chars_eq_str(&key, "content-type") {
                    let value = trim_chars(&slice_chars(line, p + 1, line.len()));
                    assert(line@.subrange(p + 1, line@.len() as int) =~= line@.skip(p + 1));
                    assert(content_type_of_line(ls.skip(i as int)[0]) == Some(value@));
                    return Some(string_from_chars(&value));
                }
            },
            None => {},
        }
        assert(ls.skip(i as int).drop_first() =~= ls.skip(i + 1));
        i += 1;
    }
    assert(ls.skip(lines@.len() as int) =~= Seq::<Seq<char>>::empty());
    None
}

fn text(s: &str) -> (r: String)
    ensures
        r@ == s@,
{
    string_from_chars(&chars_of(s))
}

/// The text of an optional text, empty when there is none.
pub open spec fn text_or_empty(o: Option<&str>) -> Seq<char> {
    match o {
        Some(s) => s@,
        None => Seq::empty(),
    }
}

/// The headers kept in an optional header text.
pub open spec fn saved_headers_of(h: Option<&str>) -> Seq<(Seq<char>, Seq<char>)> {
    match h {
        Some(t) => saved_headers(t@),
        None => Seq::empty(),
    }
}

/// The content type kept in an optional header text.
pub open spec fn saved_content_type_in(h: Option<&str>) -> Option<Seq<char>> {
    match h {
        Some(t) => saved_content_type(t@),
        None => None,
    }
}

/// Header rows hold the given pairs, in order, all enabled.
pub open spec fn rows_hold(rows: Seq<HeaderEntry>, pairs: Seq<(Seq<char>, Seq<char>)>) -> bool {
    &&& rows.len() == pairs.len()
    &&& forall|i: int|
        0 <= i < rows.len() ==> (#[trigger] rows[i]).key@ == pairs[i].0 && rows[i].value@
            == pairs[i].1 && rows[i].enabled
}

/// Parameter rows hold the parameters of a URL's query read in a style, in order, all enabled.
pub open spec fn params_hold(params: Seq<crate::query::ParamEntry>, url: Seq<char>, style: QueryStyle) -> bool {
    &&& params.len() == url_params(url, style).len()
    &&& forall|i: int|
        0 <= i < params.len() ==> (#[trigger] params[i]).key@ == url_params(url, style)[i].0
            && params[i].value@ == url_params(url, style)[i].1 && params[i].enabled
}

/// `g` is the form `f` with a saved request loaded: its method and URL; header rows read from
/// its header text; parameter rows read from the URL's query (pieces holding `=` only); a
/// non-empty body makes the body raw, in the format the saved content type (or else the
/// body's first character) names, with the JSON editor holding the body pretty-printed when it
/// parses and the other editors holding it as it is; no body makes the body of no kind with an
/// empty JSON editor. Then a header naming a text-like content type makes the body raw in
/// that format (see `detected_body`). Everything else stays.
pub open spec fn is_saved_request_loaded(
    g: crate::tabs::RequestForm,
    f: crate::tabs::RequestForm,
    method: Seq<char>,
    url: Seq<char>,
    headers: Option<&str>,
    body: Option<&str>,
) -> bool {
    let b = text_or_empty(body);
    let ct = saved_content_type_in(headers);
    let (bt, rf) = if b.len() > 0 {
        (BodyType::Raw, detected_format(ct, b))
    } else {
        (BodyType::NoBody, f.body_state.raw_format)
    };
    &&& g.method@ == method
    &&& g.url@ == url
    &&& rows_hold(g.headers@, saved_headers_of(headers))
    &&& params_hold(g.params@, url, QueryStyle::Saved)
    &&& (g.body_state.body_type, g.body_state.raw_format) == detected_body(bt, rf, header_content_type(g.headers@))
    &&& g.body_state.raw_content@ == if b.len() > 0 {
        pretty_or_same(b)
    } else {
        Seq::empty()
    }
    &&& g.body_state.raw_content_xml@ == if b.len() > 0 {
        b
    } else {
        f.body_state.raw_content_xml@
    }
    &&& g.body_state.raw_content_text@ == if b.len() > 0 {
        b
    } else {
        f.body_state.raw_content_text@
    }
    &&& g.body_state.raw_content_html@ == if b.len() > 0 {
        b
    } else {
        f.body_state.raw_content_html@
    }
    &&& g.body_state.form_data == f.body_state.form_data
    &&& g.body_state.urlencoded_data == f.body_state.urlencoded_data
    &&& g.body_state.binary_file_path == f.body_state.binary_file_path
    &&& g.body_state.json_error == f.body_state.json_error
    &&& g.body_state.soft_wrap == f.body_state.soft_wrap
    &&& g.auth_state == f.auth_state
    &&& g.response_raw_format == f.response_raw_format
    &&& g.builder_tab == f.builder_tab
    &&& g.timeout_secs == f.timeout_secs
    &&& g.retry_count == f.retry_count
    &&& g.pre_request_script == f.pre_request_script
    &&& g.test_script == f.test_script
}

/// Loads a saved request into the form (see `is_saved_request_loaded`).
pub fn load_saved_request(
    form: &mut crate::tabs::RequestForm,
    method: &str,
    url: &str,
    headers: Option<&str>,
    body: Option<&str>,
)
    ensures
        is_saved_request_loaded(*final(form), *old(form), method@, url@, headers, body),
{
    form.method = text(method);
    form.url = text(url);
    form.headers = match headers {
        Some(h) => saved_header_rows(h),
        None => Vec::new(),
    };
    let b = match body {
        Some(b) => text(b),
        None => String::new(),
    };
    if !b.as_str().is_empty() {
        let ct = match headers {
            Some(h) => saved_content_type_of(h),
            None => None,
        };
        form.body_state.body_type = BodyType::Raw;
        form.body_state.raw_format = match &ct {
            Some(c) => RawFormat::detect(Some(c.as_str()), b.as_str()),
            None => RawFormat::detect(None, b.as_str()),
        };
        form.body_state.raw_content = RawFormat::Json.format_body(b.as_str());
        form.body_state.raw_content_xml = b.clone();
        form.body_state.raw_content_text = b.clone();
        form.body_state.raw_content_html = b.clone();
    } else {
        form.body_state.body_type = BodyType::NoBody;
        form.body_state.raw_content = String::new();
    }
    form.params = params_in_url(url, QueryStyle::Saved);
    auto_detect_body_type_from_headers(&form.headers, &mut form.body_state);
}

/// `g` is the form `f` with an imported cURL command's method, URL, headers and body: the
/// method; the URL without its query, whose pieces become parameter rows (a piece without `=`
/// is a key with an empty value); the headers as enabled rows; a body makes the body raw with
/// the JSON editor holding it. Everything else stays.
pub open spec fn is_curl_loaded(
    g: crate::tabs::RequestForm,
    f: crate::tabs::RequestForm,
    method: Seq<char>,
    url: Seq<char>,
    headers: Seq<(Seq<char>, Seq<char>)>,
    body: Option<&str>,
) -> bool {
    &&& g.method@ == method
    &&& g.url@ == base_of(url)
    &&& params_hold(g.params@, url, QueryStyle::Curl)
    &&& rows_hold(g.headers@, headers)
    &&& match body {
        Some(b) => g.body_state.body_type == BodyType::Raw && g.body_state.raw_content@ == b@,
        None => g.body_state.body_type == f.body_state.body_type && g.body_state.raw_content
            == f.body_state.raw_content,
    }
    &&& g.body_state.raw_format == f.body_state.raw_format
    &&& g.body_state.raw_content_xml == f.body_state.raw_content_xml
    &&& g.body_state.raw_content_text == f.body_state.raw_content_text
    &&& g.body_state.raw_content_html == f.body_state.raw_content_html
    &&& g.body_state.form_data == f.body_state.form_data
    &&& g.body_state.urlencoded_data == f.body_state.urlencoded_data
    &&& g.body_state.binary_file_path == f.body_state.binary_file_path
    &&& g.body_state.json_error == f.body_state.json_error
    &&& g.body_state.soft_wrap == f.body_state.soft_wrap
    &&& g.auth_state == f.auth_state
    &&& g.response_raw_format == f.response_raw_format
    &&& g.builder_tab == f.builder_tab
    &&& g.timeout_secs == f.timeout_secs
    &&& g.retry_count == f.retry_count
    &&& g.pre_request_script == f.pre_request_script
    &&& g.test_script == f.test_script
}

/// Loads the parts of an imported cURL command into the form (see `is_curl_loaded`).
pub fn import_curl(
    form: &mut crate::tabs::RequestForm,
    method: &str,
    url: &str,
    headers: &Vec<(String, String)>,
    body: Option<&str>,
)
    ensures
        is_curl_loaded(*final(form), *old(form), method@, url@, pair_views(headers@), body),
{
    form.method = text(method);
    let (base, params) = split_curl_url(url);
    form.url = base;
    form.params = params;
    let mut rows: Vec<HeaderEntry> = Vec::new();
    let mut i: usize = 0;
    while i < headers.len()
        invariant
            i <= headers@.len(),
            rows@.len() == i,
            forall|k: int|
                0 <= k < i ==> (#[trigger] rows@[k]).key@ == headers@[k].0@ && rows@[k].value@
                    == headers@[k].1@ && rows@[k].enabled,
        decreases headers@.len() - i,
    {
        rows.push(HeaderEntry { key: headers[i].0.clone(), value: headers[i].1.clone(), enabled: true });
        i += 1;
    }
    form.headers = rows;
    match body {
        Some(b) => {
            form.body_state.body_type = BodyType::Raw;
            form.body_state.raw_content = text(b);
        },
        None => {},
    }
}

/// What a request is saved with before it is given an id and filed: its name, method, URL,
/// header text and body.
pub struct SavedRequestDraft {
    pub name: String,
    pub method: String,
    pub url: String,
    pub headers: Option<String>,
    pub body: Option<String>,
}

/// The number of bytes of a saved request's default name.
pub const SAVED_NAME_MAX_BYTES: usize = 50;

/// A URL without `https://` or, failing that, `http://` in front.
pub open spec fn without_scheme(url: Seq<char>) -> Seq<char> {
    if starts_with(url, https_prefix()) {
        url.skip(8)
    } else if starts_with(url, http_prefix()) {
        url.skip(7)
    } else {
        url
    }
}

/// A text without the `/` at its end.
pub open spec fn trim_end_slashes(s: Seq<char>) -> Seq<char>
    decreases s.len(),
{
    if s.len() > 0 && s.last() == '/' {
        trim_end_slashes(s.drop_last())
    } else {
        s
    }
}

/// The name a request is saved under by default: its URL without the scheme and the `/` at
/// its end.
pub open spec fn default_request_name(url: Seq<char>) -> Seq<char> {
    trim_end_slashes(without_scheme(url))
}

/// The enabled header rows as `(key, value)`, whether or not the key is empty.
pub open spec fn enabled_pairs(hs: Seq<HeaderEntry>) -> Seq<(Seq<char>, Seq<char>)>
    decreases hs.len(),
{
    if hs.len() == 0 {
        Seq::empty()
    } else {
        let prev = enabled_pairs(hs.drop_last());
        if hs.last().enabled {
            prev.push((hs.last().key@, hs.last().value@))
        } else {
            prev
        }
    }
}

fn trim_slashes(v: &Vec<char>) -> (r: Vec<char>)
    ensures
        r@ == trim_end_slashes(v@),
{
    let mut n = v.len();
    assert(v@.take(n as int) =~= v@);
    while n > 0 && v[n - 1] == '/'
        invariant
            n <= v@.len(),
            trim_end_slashes(v@) == trim_end_slashes(v@.take(n as int)),
        decreases n,
    {
        assert(v@.take(n as int).drop_last() =~= v@.take(n - 1));
        n -= 1;
    }
    assert(v@.subrange(0, n as int) =~= v@.take(n as int));
    slice_chars(v, 0, n)
}

/// The draft the form is saved from, or `None` when the URL is blank: the default name cut to
/// 50 bytes and marked with `…`; the method and URL; the enabled header rows as `key: value`
/// lines (none when there are no such rows); the JSON editor's text as body (none when empty).
pub fn save_current_request(form: &crate::tabs::RequestForm) -> (r: Option<SavedRequestDraft>)
    requires
        byte_cut_fits(default_request_name(form.url@), SAVED_NAME_MAX_BYTES as nat),
    ensures
        trim(form.url@).len() == 0 <==> r is None,
        match r {
            Some(d) => {
                &&& d.name@ == byte_cut_marked(default_request_name(form.url@), SAVED_NAME_MAX_BYTES as nat)
                &&& d.method@ == form.method@
                &&& d.url@ == form.url@
                &&& match d.headers {
                    Some(h) => header_lines(enabled_pairs(form.headers@)).len() > 0 && h@
                        == header_lines(enabled_pairs(form.headers@)),
                    None => header_lines(enabled_pairs(form.headers@)).len() == 0,
                }
                &&& match d.body {
                    Some(b) => b@ == form.body_state.raw_content@ && b@.len() > 0,
                    None => form.body_state.raw_content@.len() == 0,
                }
            },
            None => true,
        },
{
    let url = chars_of(form.url.as_str());
    if trim_chars(&url).len() == 0 {
        return None;
    }
    let stripped = if url.len() >= 8 && url[0] == 'h' && url[1] == 't' && url[2] == 't' && url[3] == 'p'
        && url[4] == 's' && url[5] == ':' && url[6] == '/' && url[7] == '/' {
        assert(url@.take(8) =~= https_prefix());
        slice_chars(&url, 8, url.len())
    } else if url.len() >= 7 && url[0] == 'h' && url[1] == 't' && url[2] == 't' && url[3] == 'p'
        && url[4] == ':' && url[5] == '/' && url[6] == '/' {
        assert(!starts_with(url@, https_prefix())) by {
            if url@.len() >= 8 && url@.take(8) == https_prefix() {
                assert(url@.take(8)[4] == url@[4]);
                assert(https_prefix()[4] == 's');
            }
        }
        assert(url@.take(7) =~= http_prefix());
        slice_chars(&url, 7, url.len())
    } else {
        assert(!starts_with(url@, https_prefix())) by {
            if url@.len() >= 8 && url@.take(8) == https_prefix() {
                assert(url@.take(8)[0] == 'h' && url@.take(8)[7] == '/');
            }
        }
        assert(!starts_with(url@, http_prefix())) by {
            if url@.len() >= 7 && url@.take(7) == http_prefix() {
                assert(url@.take(7)[0] == 'h' && url@.take(7)[6] == '/');
            }
        }
        slice_chars(&url, 0, url.len())
    };
    assert(stripped@ =~= without_scheme(form.url@));
    let default_name = string_from_chars(&trim_slashes(&stripped));
    let name = cut_bytes_marked(default_name.as_str(), SAVED_NAME_MAX_BYTES);
    let mut pairs: Vec<(String, String)> = Vec::new();
    let mut i: usize = 0;
    while i < form.headers.len()
        invariant
            i <= form.headers@.len(),
            pair_views(pairs@) == enabled_pairs(form.headers@.take(i as int)),
        decreases form.headers@.len() - i,
    {
        assert(form.headers@.take(i + 1).drop_last() =~= form.headers@.take(i as int));
        if form.headers[i].enabled {
            let ghost before = pairs@;
            pairs.push((form.headers[i].key.clone(), form.headers[i].value.clone()));
            assert(pair_views(pairs@) =~= pair_views(before).push((form.headers@[i as int].key@, form.headers@[i as int].value@)));
        }
        i += 1;
    }
    assert(form.headers@.take(form.headers@.len() as int) =~= form.headers@);
    let h = headers_text(&pairs);
    let headers = if h.as_str().is_empty() {
        None
    } else {
        Some(h)
    };
    let body = if form.body_state.raw_content.as_str().is_empty() {
        None
    } else {
        Some(form.body_state.raw_content.clone())
    };
    Some(SavedRequestDraft { name, method: form.method.clone(), url: form.url.clone(), headers, body })
}


/// The name a request is filed under when the dialog's name field holds only white space.
pub open spec fn untitled_name() -> Seq<char> {
    seq!['U', 'n', 't', 'i', 't', 'l', 'e', 'd']
}

/// The name a request is filed under: the field's text trimmed, or `Untitled` when that is
/// empty.
pub open spec fn filed_name(field: Seq<char>) -> Seq<char> {
    if trim(field).len() == 0 {
        untitled_name()
    } else {
        trim(field)
    }
}

/// The dialog that asks for the name a request is saved under.
pub struct SaveRequestDialog {
    pub visible: bool,
    /// The text of the name field.
    pub name: String,
    /// The request waiting to be saved.
    pub pending_request: Option<SavedRequestDraft>,
    /// Set when a request was saved, so that the sidebar is read again.
    pub needs_refresh: bool,
}

impl SaveRequestDialog {
    /// A hidden dialog with an empty name and nothing to save.
    pub fn new() -> (d: Self)
        ensures
            !d.visible,
            d.name@.len() == 0,
            d.pending_request is None,
            !d.needs_refresh,
    {
        SaveRequestDialog { visible: false, name: String::new(), pending_request: None, needs_refresh: false }
    }

    /// Shows the dialog for `request`, with `default_name` in the name field.
    pub fn open(&mut self, default_name: String, request: SavedRequestDraft)
        ensures
            final(self).visible,
            final(self).name@ == default_name@,
            final(self).pending_request == Some(request),
            !final(self).needs_refresh,
    {
        self.name = default_name;
        self.pending_request = Some(request);
        self.needs_refresh = false;
        self.visible = true;
    }

    /// Hides the dialog and drops the request waiting to be saved.
    pub fn cancel(&mut self)
        ensures
            !final(self).visible,
            final(self).pending_request is None,
            final(self).name == old(self).name,
            final(self).needs_refresh == old(self).needs_refresh,
    {
        self.visible = false;
        self.pending_request = None;
    }

    /// Confirms the dialog: with a request waiting, hands it back under the field's name
    /// (`Untitled` when the field is blank), hides the dialog and marks the sidebar to be read
    /// again; with none, changes nothing and gives `None`.
    pub fn confirm(&mut self) -> (r: Option<SavedRequestDraft>)
        ensures
            old(self).pending_request is None ==> r is None && *final(self) == *old(self),
            match old(self).pending_request {
                Some(p) => r matches Some(d) && {
                    &&& d.name@ == filed_name(old(self).name@)
                    &&& d.method == p.method
                    &&& d.url == p.url
                    &&& d.headers == p.headers
                    &&& d.body == p.body
                    &&& !final(self).visible
                    &&& final(self).pending_request is None
                    &&& final(self).needs_refresh
                    &&& final(self).name == old(self).name
                },
                None => true,
            },
    {
        let pending = self.pending_request.take();
        match pending {
            Some(p) => {
                let field = chars_of(self.name.as_str());
                let t = trim_chars(&field);
                let name = if t.len() == 0 {
                    let u = "Untitled";
                    proof {
                        reveal_strlit("Untitled");
                    }
                    let s = u.to_string();
                    s
                } else {
                    string_from_chars(&t)
                };
                self.visible = false;
                self.needs_refresh = true;
                Some(SavedRequestDraft { name, method: p.method, url: p.url, headers: p.headers, body: p.body })
            },
            None => None,
        }
    }
}

} // verus!
