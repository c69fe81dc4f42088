//! The request body: its kind, the raw text formats, the form-data and
//! url-encoded tables, and what is sent for each.
use vstd::prelude::*;
use crate::json::{pretty_json_or_same, pretty_or_same};
use crate::outside::{json_from_str, json_to_string_pretty, path_extension, spec_json_from_str, spec_json_to_string_pretty, spec_path_extension};
use crate::text::{
    ascii_lower, ascii_lower_chars, chars_eq_str, chars_of, contains, contains_str, string_from_chars,
    trim_start, trim_start_chars,
};

verus! {

/// The kind of body a request has.
#[derive(PartialEq, Eq, Structural, Clone, Copy, Debug)]
pub enum BodyType {
    NoBody,
    FormData,
    UrlEncoded,
    Raw,
    Binary,
}

impl Default for BodyType {
    /// The default kind: no body.
    fn default() -> (t: BodyType)
        ensures
            t == BodyType::NoBody,
    {
        BodyType::NoBody
    }
}

impl BodyType {
    /// The kind at a position of the selector; positions past the last give no body.
    pub fn from_index(index: usize) -> (t: BodyType)
        ensures
            t == match index {
                0 => BodyType::NoBody,
                1 => BodyType::FormData,
                2 => BodyType::UrlEncoded,
                3 => BodyType::Raw,
                4 => BodyType::Binary,
                _ => BodyType::NoBody,
            },
    {
        match index {
            0 => BodyType::NoBody,
            1 => BodyType::FormData,
            2 => BodyType::UrlEncoded,
            3 => BodyType::Raw,
            4 => BodyType::Binary,
            _ => BodyType::NoBody,
        }
    }

    pub open spec fn index_of(self) -> usize {
        match self {
            BodyType::NoBody => 0,
            BodyType::FormData => 1,
            BodyType::UrlEncoded => 2,
            BodyType::Raw => 3,
            BodyType::Binary => 4,
        }
    }

    /// The position of the kind in the selector.
    pub fn to_index(&self) -> (i: usize)
        ensures
            i == self.index_of(),
    {
        match self {
            BodyType::NoBody => 0,
            BodyType::FormData => 1,
            BodyType::UrlEncoded => 2,
            BodyType::Raw => 3,
            BodyType::Binary => 4,
        }
    }

    pub open spec fn label_of(self) -> Seq<char> {
        match self {
            BodyType::NoBody => "none"@,
            BodyType::FormData => "form-data"@,
            BodyType::UrlEncoded => "x-www-form-urlencoded"@,
            BodyType::Raw => "raw"@,
            BodyType::Binary => "binary"@,
        }
    }

    /// The label shown for the kind.
    pub fn label(&self) -> (r: &'static str)
        ensures
            r@ == self.label_of(),
    {
        match self {
            BodyType::NoBody => "none",
            BodyType::FormData => "form-data",
            BodyType::UrlEncoded => "x-www-form-urlencoded",
            BodyType::Raw => "raw",
            BodyType::Binary => "binary",
        }
    }

    /// The labels of all kinds, in selector order.
    pub fn all() -> (v: Vec<&'static str>)
        ensures
            v@.len() == 5,
            forall|i: int| 0 <= i < 5 ==> (#[trigger] v@[i])@ == BodyType::from_index_spec(i as usize).label_of(),
    {
        vec!["none", "form-data", "x-www-form-urlencoded", "raw", "binary"]
    }

    pub open spec fn from_index_spec(index: usize) -> BodyType {
        match index {
            0 => BodyType::NoBody,
            1 => BodyType::FormData,
            2 => BodyType::UrlEncoded,
            3 => BodyType::Raw,
            4 => BodyType::Binary,
            _ => BodyType::NoBody,
        }
    }
}

/// The formats of a raw body.
#[derive(PartialEq, Eq, Structural, Clone, Copy, Debug)]
pub enum RawFormat {
    Json,
    Xml,
    Text,
    Html,
    JavaScript,
}

/// `"json"`, `"xml"`, `"html"`, `"javascript"`.
pub open spec fn w_json() -> Seq<char> { "json"@ }
pub open spec fn w_xml() -> Seq<char> { "xml"@ }
pub open spec fn w_html() -> Seq<char> { "html"@ }
pub open spec fn w_javascript() -> Seq<char> { "javascript"@ }

/// The format a content type names, read case-insensitively: the first of `json`, `xml`,
/// `html`, `javascript` it contains, else text. (Unicode lower-casing yields these ASCII words
/// only from the same ASCII letters, so ASCII lower-casing decides it.)
pub open spec fn format_of_content_type(ct: Seq<char>) -> RawFormat {
    let l = ascii_lower(ct);
    if contains(l, w_json()) {
        RawFormat::Json
    } else if contains(l, w_xml()) {
        RawFormat::Xml
    } else if contains(l, w_html()) {
        RawFormat::Html
    } else if contains(l, w_javascript()) {
        RawFormat::JavaScript
    } else {
        RawFormat::Text
    }
}

/// The format a body looks like, from its first non-blank character: `{` or `[` is JSON, `<`
/// is HTML when the text holds `<!DOCTYPE html` or `<html` and XML otherwise; anything else
/// is text.
pub open spec fn format_of_body(body: Seq<char>) -> RawFormat {
    let t = trim_start(body);
    if t.len() > 0 && (t[0] == '{' || t[0] == '[') {
        RawFormat::Json
    } else if t.len() > 0 && t[0] == '<' {
        if contains(t, "<!DOCTYPE html"@) || contains(t, "<html"@) {
            RawFormat::Html
        } else {
            RawFormat::Xml
        }
    } else {
        RawFormat::Text
    }
}

/// What `RawFormat::detect` gives: the content type decides when there is one, else the body.
pub open spec fn detected_format(content_type: Option<Seq<char>>, body: Seq<char>) -> RawFormat {
    match content_type {
        Some(ct) => format_of_content_type(ct),
        None => format_of_body(body),
    }
}

impl Default for RawFormat {
    fn default() -> (f: RawFormat)
        ensures
            f == RawFormat::Json,
    {
        RawFormat::Json
    }
}

impl RawFormat {
    pub open spec fn from_index_spec(index: usize) -> RawFormat {
        match index {
            0 => RawFormat::Json,
            1 => RawFormat::Xml,
            2 => RawFormat::Text,
            3 => RawFormat::Html,
            4 => RawFormat::JavaScript,
            _ => RawFormat::Json,
        }
    }

    /// The format at a position of the selector; positions past the last give JSON.
    pub fn from_index(index: usize) -> (f: RawFormat)
        ensures
            f == RawFormat::from_index_spec(index),
    {
        match index {
            0 => RawFormat::Json,
            1 => RawFormat::Xml,
            2 => RawFormat::Text,
            3 => RawFormat::Html,
            4 => RawFormat::JavaScript,
            _ => RawFormat::Json,
        }
    }

    pub open spec fn index_of(self) -> usize {
        match self {
            RawFormat::Json => 0,
            RawFormat::Xml => 1,
            RawFormat::Text => 2,
            RawFormat::Html => 3,
            RawFormat::JavaScript => 4,
        }
    }

    /// The position of the format in the selector.
    pub fn to_index(&self) -> (i: usize)
        ensures
            i == self.index_of(),
    {
        match self {
            RawFormat::Json => 0,
            RawFormat::Xml => 1,
            RawFormat::Text => 2,
            RawFormat::Html => 3,
            RawFormat::JavaScript => 4,
        }
    }

    pub open spec fn label_of(self) -> Seq<char> {
        match self {
            RawFormat::Json => "JSON"@,
            RawFormat::Xml => "XML"@,
            RawFormat::Text => "Text"@,
            RawFormat::Html => "HTML"@,
            RawFormat::JavaScript => "JavaScript"@,
        }
    }

    /// The label shown for the format.
    pub fn label(&self) -> (r: &'static str)
        ensures
            r@ == self.label_of(),
    {
        match self {
            RawFormat::Json => "JSON",
            RawFormat::Xml => "XML",
            RawFormat::Text => "Text",
            RawFormat::Html => "HTML",
            RawFormat::JavaScript => "JavaScript",
        }
    }

    /// The labels of all formats, in selector order.
    pub fn all() -> (v: Vec<&'static str>)
        ensures
            v@.len() == 5,
            forall|i: int| 0 <= i < 5 ==> (#[trigger] v@[i])@ == RawFormat::from_index_spec(i as usize).label_of(),
    {
        vec!["JSON", "XML", "Text", "HTML", "JavaScript"]
    }

    pub open spec fn content_type_of(self) -> Seq<char> {
        match self {
            RawFormat::Json => "application/json"@,
            RawFormat::Xml => "application/xml"@,
            RawFormat::Text => "text/plain"@,
            RawFormat::Html => "text/html"@,
            RawFormat::JavaScript => "application/javascript"@,
        }
    }

    /// The content type a body in this format is sent with.
    pub fn content_type(&self) -> (r: &'static str)
        ensures
            r@ == self.content_type_of(),
    {
        match self {
            RawFormat::Json => "application/json",
            RawFormat::Xml => "application/xml",
            RawFormat::Text => "text/plain",
            RawFormat::Html => "text/html",
            RawFormat::JavaScript => "application/javascript",
        }
    }

    /// The format of a response: from its content type when it has one (see
    /// `format_of_content_type`), else from how the body starts (see `format_of_body`).
    pub fn detect(content_type: Option<&str>, body: &str) -> (f: RawFormat)
        ensures
            f == detected_format(
                match content_type {
                    Some(ct) => Some(ct@),
                    None => None,
                },
                body@,
            ),
    {
        match content_type {
            Some(ct) => {
                let l = ascii_lower_chars(&chars_of(ct));
                if contains_str(&l, "json") {
                    RawFormat::Json
                } else if contains_str(&l, "xml") {
                    RawFormat::Xml
                } else if contains_str(&l, "html") {
                    RawFormat::Html
                } else if contains_str(&l, "javascript") {
                    RawFormat::JavaScript
                } else {
                    RawFormat::Text
                }
            },
            None => {
                let t = trim_start_chars(&chars_of(body));
                if t.len() > 0 && (t[0] == '{' || t[0] == '[') {
                    RawFormat::Json
                } else if t.len() > 0 && t[0] == '<' {
                    if contains_str(&t, "<!DOCTYPE html") || contains_str(&t, "<html") {
                        RawFormat::Html
                    } else {
                        RawFormat::Xml
                    }
                } else {
                    RawFormat::Text
                }
            },
        }
    }

    /// A body shown in this format: JSON is pretty-printed when it parses; every other format
    /// leaves the text as it is.
    pub fn format_body(&self, body: &str) -> (r: String)
        ensures
            r@ == match self {
                RawFormat::Json => pretty_or_same(body@),
                _ => body@,
            },
    {
        match self {
            RawFormat::Json => pretty_json_or_same(body),
            _ => string_from_chars(&chars_of(body)),
        }
    }
}

/// The kind of value a form row holds.
#[derive(PartialEq, Eq, Structural, Clone, Copy, Debug)]
pub enum FormDataParamType {
    Text,
    Boolean,
    Number,
    File,
    Array,
}

impl Default for FormDataParamType {
    fn default() -> (t: FormDataParamType)
        ensures
            t == FormDataParamType::Text,
    {
        FormDataParamType::Text
    }
}

impl FormDataParamType {
    pub open spec fn from_index_spec(index: usize) -> FormDataParamType {
        match index {
            0 => FormDataParamType::Text,
            1 => FormDataParamType::Boolean,
            2 => FormDataParamType::Number,
            3 => FormDataParamType::File,
            4 => FormDataParamType::Array,
            _ => FormDataParamType::Text,
        }
    }

    /// The kind at a position of the selector; positions past the last give `Text`.
    pub fn from_index(index: usize) -> (t: FormDataParamType)
        ensures
            t == FormDataParamType::from_index_spec(index),
    {
        match index {
            0 => FormDataParamType::Text,
            1 => FormDataParamType::Boolean,
            2 => FormDataParamType::Number,
            3 => FormDataParamType::File,
            4 => FormDataParamType::Array,
            _ => FormDataParamType::Text,
        }
    }

    pub open spec fn index_of(self) -> usize {
        match self {
            FormDataParamType::Text => 0,
            FormDataParamType::Boolean => 1,
            FormDataParamType::Number => 2,
            FormDataParamType::File => 3,
            FormDataParamType::Array => 4,
        }
    }

    /// The position of the kind in the selector.
    pub fn to_index(&self) -> (i: usize)
        ensures
            i == self.index_of(),
    {
        match self {
            FormDataParamType::Text => 0,
            FormDataParamType::Boolean => 1,
            FormDataParamType::Number => 2,
            FormDataParamType::File => 3,
            FormDataParamType::Array => 4,
        }
    }

    pub open spec fn label_of(self) -> Seq<char> {
        match self {
            FormDataParamType::Text => "Text"@,
            FormDataParamType::Boolean => "Boolean"@,
            FormDataParamType::Number => "Number"@,
            FormDataParamType::File => "File"@,
            FormDataParamType::Array => "Array"@,
        }
    }

    /// The labels of all kinds, in selector order.
    pub fn all() -> (v: Vec<&'static str>)
        ensures
            v@.len() == 5,
            forall|i: int| 0 <= i < 5 ==> (#[trigger] v@[i])@ == FormDataParamType::from_index_spec(i as usize).label_of(),
    {
        vec!["Text", "Boolean", "Number", "File", "Array"]
    }

    /// The kind a selector label names; other labels name none.
    pub fn from_label(label: &str) -> (t: Option<FormDataParamType>)
        ensures
            t == (if label@ == "Text"@ {
                Some(FormDataParamType::Text)
            } else if label@ == "Boolean"@ {
                Some(FormDataParamType::Boolean)
            } else if label@ == "Number"@ {
                Some(FormDataParamType::Number)
            } else if label@ == "File"@ {
                Some(FormDataParamType::File)
            } else if label@ == "Array"@ {
                Some(FormDataParamType::Array)
            } else {
                None
            }),
    {
        let l = chars_of(label);
        if chars_eq_str(&l, "Text") {
            Some(FormDataParamType::Text)
        } else if chars_eq_str(&l, "Boolean") {
            Some(FormDataParamType::Boolean)
        } else if chars_eq_str(&l, "Number") {
            Some(FormDataParamType::Number)
        } else if chars_eq_str(&l, "File") {
            Some(FormDataParamType::File)
        } else if chars_eq_str(&l, "Array") {
            Some(FormDataParamType::Array)
        } else {
            None
        }
    }
}

/// The text input of a form row: its text, and whether it takes only a number
/// (`-`, digits, one `.`, digits).
pub struct TextInput {
    pub text: String,
    pub numbers_only: bool,
}

/// The value of a form row: a text input, or a file input with the chosen path.
pub enum FormDataValue {
    Text(TextInput),
    File(TextInput, String),
}

impl FormDataValue {
    /// The input that shows the value.
    pub fn get_input(&self) -> (i: &TextInput)
        ensures
            *i == match *self {
                FormDataValue::Text(t) => t,
                FormDataValue::File(t, _) => t,
            },
    {
        match self {
            FormDataValue::Text(e) => e,
            FormDataValue::File(e, _) => e,
        }
    }
}

/// One row of the form-data or url-encoded table.
pub struct FormDataEntry {
    pub key: String,
    pub value: FormDataValue,
    pub enabled: bool,
    pub param_type: FormDataParamType,
    /// Position selected in the row's kind selector.
    pub type_index: usize,
}

/// A form row as a tab keeps it while another tab is shown.
pub struct SavedFormDataEntry {
    pub key: String,
    pub value: String,
    pub enabled: bool,
    pub param_type: FormDataParamType,
    pub is_file: bool,
    pub file_path: String,
}

/// The body being edited.
pub struct BodyState {
    pub body_type: BodyType,
    pub raw_format: RawFormat,
    /// Raw text edited as JSON (also sent for JavaScript).
    pub raw_content: String,
    pub raw_content_xml: String,
    pub raw_content_text: String,
    pub raw_content_html: String,
    pub form_data: Vec<FormDataEntry>,
    pub urlencoded_data: Vec<FormDataEntry>,
    /// The file sent as a binary body.
    pub binary_file_path: Option<String>,
    /// Why the last JSON formatting failed.
    pub json_error: Option<String>,
    pub soft_wrap: bool,
}

/// A fresh row: empty key, empty text value, enabled, kind `Text`.
pub open spec fn is_fresh_entry(e: FormDataEntry) -> bool {
    &&& e.key@.len() == 0
    &&& e.value matches FormDataValue::Text(t) && t.text@.len() == 0 && !t.numbers_only
    &&& e.enabled
    &&& e.param_type == FormDataParamType::Text
    &&& e.type_index == 0
}

/// The value a row gets when its kind is set: an empty file input for `File`, the text
/// `true` for `Boolean`, an empty number-only input for `Number`, an empty text otherwise.
pub open spec fn is_value_for_type(v: FormDataValue, t: FormDataParamType) -> bool {
    match t {
        FormDataParamType::File => v matches FormDataValue::File(i, p) && i.text@.len() == 0
            && !i.numbers_only && p@.len() == 0,
        FormDataParamType::Boolean => v matches FormDataValue::Text(i) && i.text@ == "true"@
            && !i.numbers_only,
        FormDataParamType::Number => v matches FormDataValue::Text(i) && i.text@.len() == 0
            && i.numbers_only,
        _ => v matches FormDataValue::Text(i) && i.text@.len() == 0 && !i.numbers_only,
    }
}

/// The text a row's input shows.
pub open spec fn input_text(v: FormDataValue) -> Seq<char> {
    match v {
        FormDataValue::Text(t) => t.text@,
        FormDataValue::File(t, _) => t.text@,
    }
}

/// A text field that is sent: enabled, not a file, with a key.
pub open spec fn is_sent_text_field(e: FormDataEntry) -> bool {
    e.enabled && e.param_type != FormDataParamType::File && e.key@.len() > 0
}

/// The text fields sent, `(key, value)`, in table order.
pub open spec fn text_fields(es: Seq<FormDataEntry>) -> Seq<(Seq<char>, Seq<char>)>
    decreases es.len(),
{
    if es.len() == 0 {
        Seq::empty()
    } else {
        let prev = text_fields(es.drop_last());
        if is_sent_text_field(es.last()) {
            prev.push((es.last().key@, input_text(es.last().value)))
        } else {
            prev
        }
    }
}

/// A file field that is sent: enabled, of kind `File`, holding a chosen path, with a key and
/// a path.
pub open spec fn is_sent_file_field(e: FormDataEntry) -> bool {
    &&& e.enabled
    &&& e.param_type == FormDataParamType::File
    &&& e.value matches FormDataValue::File(_, p) && p@.len() > 0
    &&& e.key@.len() > 0
}

pub open spec fn file_path_of(v: FormDataValue) -> Seq<char> {
    match v {
        FormDataValue::File(_, p) => p@,
        FormDataValue::Text(_) => Seq::empty(),
    }
}

/// The file fields sent, `(key, path, content type guessed from the path)`, in table order.
pub open spec fn file_fields(es: Seq<FormDataEntry>) -> Seq<(Seq<char>, Seq<char>, Seq<char>)>
    decreases es.len(),
{
    if es.len() == 0 {
        Seq::empty()
    } else {
        let prev = file_fields(es.drop_last());
        if is_sent_file_field(es.last()) {
            let p = file_path_of(es.last().value);
            prev.push((es.last().key@, p, guessed_content_type(p)))
        } else {
            prev
        }
    }
}

/// The content type for a lower-case file extension.
pub open spec fn content_type_for_extension(e: Seq<char>) -> Seq<char> {
    if e == "jpg"@ || e == "jpeg"@ {
        "image/jpeg"@
    } else if e == "png"@ {
        "image/png"@
    } else if e == "gif"@ {
        "image/gif"@
    } else if e == "webp"@ {
        "image/webp"@
    } else if e == "svg"@ {
        "image/svg+xml"@
    } else if e == "pdf"@ {
        "application/pdf"@
    } else if e == "zip"@ {
        "application/zip"@
    } else if e == "tar"@ {
        "application/x-tar"@
    } else if e == "gz"@ || e == "gzip"@ {
        "application/gzip"@
    } else if e == "json"@ {
        "application/json"@
    } else if e == "xml"@ {
        "application/xml"@
    } else if e == "txt"@ {
        "text/plain"@
    } else if e == "html"@ || e == "htm"@ {
        "text/html"@
    } else if e == "css"@ {
        "text/css"@
    } else if e == "js"@ {
        "application/javascript"@
    } else if e == "ts"@ {
        "application/typescript"@
    } else if e == "csv"@ {
        "text/csv"@
    } else if e == "doc"@ {
        "application/msword"@
    } else if e == "docx"@ {
        "application/vnd.openxmlformats-officedocument.wordprocessingml.document"@
    } else if e == "xls"@ {
        "application/vnd.ms-excel"@
    } else if e == "xlsx"@ {
        "application/vnd.openxmlformats-officedocument.spreadsheetml.sheet"@
    } else if e == "ppt"@ {
        "application/vnd.ms-powerpoint"@
    } else if e == "pptx"@ {
        "application/vnd.openxmlformats-officedocument.presentationml.presentation"@
    } else {
        "application/octet-stream"@
    }
}

/// The content type guessed from a file path: by its extension, compared case-insensitively;
/// `application/octet-stream` when it has none or an unknown one.
pub open spec fn guessed_content_type(path: Seq<char>) -> Seq<char> {
    content_type_for_extension(
        ascii_lower(
            match spec_path_extension(path) {
                Some(e) => e,
                None => Seq::empty(),
            },
        ),
    )
}

/// Law: a file is sent with the content type its extension names, the extension read in any
/// case: `png` as `image/png`, `jpg` and `jpeg` as `image/jpeg`, and so on through the known
/// extensions.
pub proof fn law_extension_content_types(path: Seq<char>, e: Seq<char>)
    requires
        spec_path_extension(path) == Some(e),
    ensures
        ascii_lower(e) == "jpg"@ ==> guessed_content_type(path) == "image/jpeg"@,
        ascii_lower(e) == "jpeg"@ ==> guessed_content_type(path) == "image/jpeg"@,
        ascii_lower(e) == "png"@ ==> guessed_content_type(path) == "image/png"@,
        ascii_lower(e) == "gif"@ ==> guessed_content_type(path) == "image/gif"@,
        ascii_lower(e) == "webp"@ ==> guessed_content_type(path) == "image/webp"@,
        ascii_lower(e) == "svg"@ ==> guessed_content_type(path) == "image/svg+xml"@,
        ascii_lower(e) == "pdf"@ ==> guessed_content_type(path) == "application/pdf"@,
        ascii_lower(e) == "zip"@ ==> guessed_content_type(path) == "application/zip"@,
        ascii_lower(e) == "tar"@ ==> guessed_content_type(path) == "application/x-tar"@,
        ascii_lower(e) == "gz"@ ==> guessed_content_type(path) == "application/gzip"@,
        ascii_lower(e) == "gzip"@ ==> guessed_content_type(path) == "application/gzip"@,
        ascii_lower(e) == "json"@ ==> guessed_content_type(path) == "application/json"@,
        ascii_lower(e) == "xml"@ ==> guessed_content_type(path) == "application/xml"@,
        ascii_lower(e) == "txt"@ ==> guessed_content_type(path) == "text/plain"@,
        ascii_lower(e) == "html"@ ==> guessed_content_type(path) == "text/html"@,
        ascii_lower(e) == "htm"@ ==> guessed_content_type(path) == "text/html"@,
        ascii_lower(e) == "css"@ ==> guessed_content_type(path) == "text/css"@,
        ascii_lower(e) == "js"@ ==> guessed_content_type(path) == "application/javascript"@,
        ascii_lower(e) == "ts"@ ==> guessed_content_type(path) == "application/typescript"@,
        ascii_lower(e) == "csv"@ ==> guessed_content_type(path) == "text/csv"@,
        ascii_lower(e) == "doc"@ ==> guessed_content_type(path) == "application/msword"@,
        ascii_lower(e) == "docx"@ ==> guessed_content_type(path) == "application/vnd.openxmlformats-officedocument.wordprocessingml.document"@,
        ascii_lower(e) == "xls"@ ==> guessed_content_type(path) == "application/vnd.ms-excel"@,
        ascii_lower(e) == "xlsx"@ ==> guessed_content_type(path) == "application/vnd.openxmlformats-officedocument.spreadsheetml.sheet"@,
        ascii_lower(e) == "ppt"@ ==> guessed_content_type(path) == "application/vnd.ms-powerpoint"@,
        ascii_lower(e) == "pptx"@ ==> guessed_content_type(path) == "application/vnd.openxmlformats-officedocument.presentationml.presentation"@,
{
    reveal_strlit("application/gzip");
    reveal_strlit("application/javascript");
    reveal_strlit("application/json");
    reveal_strlit("application/msword");
    reveal_strlit("application/pdf");
    reveal_strlit("application/typescript");
    reveal_strlit("application/vnd.ms-excel");
    reveal_strlit("application/vnd.ms-powerpoint");
    reveal_strlit("application/vnd.openxmlformats-officedocument.presentationml.presentation");
    reveal_strlit("application/vnd.openxmlformats-officedocument.spreadsheetml.sheet");
    reveal_strlit("application/vnd.openxmlformats-officedocument.wordprocessingml.document");
    reveal_strlit("application/x-tar");
    reveal_strlit("application/xml");
    reveal_strlit("application/zip");
    reveal_strlit("css");
    reveal_strlit("csv");
    reveal_strlit("doc");
    reveal_strlit("docx");
    reveal_strlit("gif");
    reveal_strlit("gz");
    reveal_strlit("gzip");
    reveal_strlit("htm");
    reveal_strlit("html");
    reveal_strlit("image/gif");
    reveal_strlit("image/jpeg");
    reveal_strlit("image/png");
    reveal_strlit("image/svg+xml");
    reveal_strlit("image/webp");
    reveal_strlit("jpeg");
    reveal_strlit("jpg");
    reveal_strlit("js");
    reveal_strlit("json");
    reveal_strlit("pdf");
    reveal_strlit("png");
    reveal_strlit("ppt");
    reveal_strlit("pptx");
    reveal_strlit("svg");
    reveal_strlit("tar");
    reveal_strlit("text/css");
    reveal_strlit("text/csv");
    reveal_strlit("text/html");
    reveal_strlit("text/plain");
    reveal_strlit("ts");
    reveal_strlit("txt");
    reveal_strlit("webp");
    reveal_strlit("xls");
    reveal_strlit("xlsx");
    reveal_strlit("xml");
    reveal_strlit("zip");
    reveal_strlit("application/octet-stream");
    let l = ascii_lower(e);
    if l == "jpg"@ {
        assert(l.len() == 3 && l[0] == 'j' && l[1] == 'p' && l[2] == 'g');
    }
    if l == "jpeg"@ {
        assert(l.len() == 4 && l[0] == 'j' && l[1] == 'p' && l[2] == 'e' && l[3] == 'g');
    }
    if l == "png"@ {
        assert(l.len() == 3 && l[0] == 'p' && l[1] == 'n' && l[2] == 'g');
    }
    if l == "gif"@ {
        assert(l.len() == 3 && l[0] == 'g' && l[1] == 'i' && l[2] == 'f');
    }
    if l == "webp"@ {
        assert(l.len() == 4 && l[0] == 'w' && l[1] == 'e' && l[2] == 'b' && l[3] == 'p');
    }
    if l == "svg"@ {
        assert(l.len() == 3 && l[0] == 's' && l[1] == 'v' && l[2] == 'g');
    }
    if l == "pdf"@ {
        assert(l.len() == 3 && l[0] == 'p' && l[1] == 'd' && l[2] == 'f');
    }
    if l == "zip"@ {
        assert(l.len() == 3 && l[0] == 'z' && l[1] == 'i' && l[2] == 'p');
    }
    if l == "tar"@ {
        assert(l.len() == 3 && l[0] == 't' && l[1] == 'a' && l[2] == 'r');
    }
    if l == "gz"@ {
        assert(l.len() == 2 && l[0] == 'g' && l[1] == 'z');
    }
    if l == "gzip"@ {
        assert(l.len() == 4 && l[0] == 'g' && l[1] == 'z' && l[2] == 'i' && l[3] == 'p');
    }
    if l == "json"@ {
        assert(l.len() == 4 && l[0] == 'j' && l[1] == 's' && l[2] == 'o' && l[3] == 'n');
    }
    if l == "xml"@ {
        assert(l.len() == 3 && l[0] == 'x' && l[1] == 'm' && l[2] == 'l');
    }
    if l == "txt"@ {
        assert(l.len() == 3 && l[0] == 't' && l[1] == 'x' && l[2] == 't');
    }
    if l == "html"@ {
        assert(l.len() == 4 && l[0] == 'h' && l[1] == 't' && l[2] == 'm' && l[3] == 'l');
    }
    if l == "htm"@ {
        assert(l.len() == 3 && l[0] == 'h' && l[1] == 't' && l[2] == 'm');
    }
    if l == "css"@ {
        assert(l.len() == 3 && l[0] == 'c' && l[1] == 's' && l[2] == 's');
    }
    if l == "js"@ {
        assert(l.len() == 2 && l[0] == 'j' && l[1] == 's');
    }
    if l == "ts"@ {
        assert(l.len() == 2 && l[0] == 't' && l[1] == 's');
    }
    if l == "csv"@ {
        assert(l.len() == 3 && l[0] == 'c' && l[1] == 's' && l[2] == 'v');
    }
    if l == "doc"@ {
        assert(l.len() == 3 && l[0] == 'd' && l[1] == 'o' && l[2] == 'c');
    }
    if l == "docx"@ {
        assert(l.len() == 4 && l[0] == 'd' && l[1] == 'o' && l[2] == 'c' && l[3] == 'x');
    }
    if l == "xls"@ {
        assert(l.len() == 3 && l[0] == 'x' && l[1] == 'l' && l[2] == 's');
    }
    if l == "xlsx"@ {
        assert(l.len() == 4 && l[0] == 'x' && l[1] == 'l' && l[2] == 's' && l[3] == 'x');
    }
    if l == "ppt"@ {
        assert(l.len() == 3 && l[0] == 'p' && l[1] == 'p' && l[2] == 't');
    }
    if l == "pptx"@ {
        assert(l.len() == 4 && l[0] == 'p' && l[1] == 'p' && l[2] == 't' && l[3] == 'x');
    }
}

/// Law: a path without an extension is sent as `application/octet-stream`.
pub proof fn law_no_extension_content_type(path: Seq<char>)
    requires
        spec_path_extension(path) is None,
    ensures
        guessed_content_type(path) == "application/octet-stream"@,
{
    assert(ascii_lower(Seq::<char>::empty()) =~= Seq::<char>::empty());
    reveal_strlit("application/gzip");
    reveal_strlit("application/javascript");
    reveal_strlit("application/json");
    reveal_strlit("application/msword");
    reveal_strlit("application/pdf");
    reveal_strlit("application/typescript");
    reveal_strlit("application/vnd.ms-excel");
    reveal_strlit("application/vnd.ms-powerpoint");
    reveal_strlit("application/vnd.openxmlformats-officedocument.presentationml.presentation");
    reveal_strlit("application/vnd.openxmlformats-officedocument.spreadsheetml.sheet");
    reveal_strlit("application/vnd.openxmlformats-officedocument.wordprocessingml.document");
    reveal_strlit("application/x-tar");
    reveal_strlit("application/xml");
    reveal_strlit("application/zip");
    reveal_strlit("css");
    reveal_strlit("csv");
    reveal_strlit("doc");
    reveal_strlit("docx");
    reveal_strlit("gif");
    reveal_strlit("gz");
    reveal_strlit("gzip");
    reveal_strlit("htm");
    reveal_strlit("html");
    reveal_strlit("image/gif");
    reveal_strlit("image/jpeg");
    reveal_strlit("image/png");
    reveal_strlit("image/svg+xml");
    reveal_strlit("image/webp");
    reveal_strlit("jpeg");
    reveal_strlit("jpg");
    reveal_strlit("js");
    reveal_strlit("json");
    reveal_strlit("pdf");
    reveal_strlit("png");
    reveal_strlit("ppt");
    reveal_strlit("pptx");
    reveal_strlit("svg");
    reveal_strlit("tar");
    reveal_strlit("text/css");
    reveal_strlit("text/csv");
    reveal_strlit("text/html");
    reveal_strlit("text/plain");
    reveal_strlit("ts");
    reveal_strlit("txt");
    reveal_strlit("webp");
    reveal_strlit("xls");
    reveal_strlit("xlsx");
    reveal_strlit("xml");
    reveal_strlit("zip");
}

/// Law: without a content type, a body whose first character that is not white space is `{`
/// or `[` is JSON, one whose first such character is `<` is HTML when it holds `<html` and XML
/// when it holds neither `<html` nor `<!DOCTYPE html`; and with a content type that mentions
/// `json` (in any case), the body is JSON whatever it holds.
pub proof fn law_detect_json(body: Seq<char>, k: int, ct: Seq<char>)
    requires
        0 <= k < body.len(),
        forall|j: int| 0 <= j < k ==> crate::text::is_whitespace(#[trigger] body[j]),
        !crate::text::is_whitespace(body[k]),
    ensures
        body[k] == '{' || body[k] == '[' ==> detected_format(None, body) == RawFormat::Json,
        body[k] == '<' && contains(body.skip(k), "<html"@) ==> detected_format(None, body)
            == RawFormat::Html,
        body[k] == '<' && !contains(body.skip(k), "<html"@) && !contains(body.skip(k), "<!DOCTYPE html"@)
            ==> detected_format(None, body) == RawFormat::Xml,
        body[k] != '{' && body[k] != '[' && body[k] != '<' ==> detected_format(None, body)
            == RawFormat::Text,
        contains(ascii_lower(ct), "json"@) ==> detected_format(Some(ct), body) == RawFormat::Json,
{
    crate::text::lemma_leading_ws_is(body, k);
    assert(trim_start(body) =~= body.skip(k));
}

/// Law: each body kind has its own position in the selector, and the kind at a position
/// gives that position back.
pub proof fn law_body_type_positions(x: BodyType, i: usize)
    ensures
        x.index_of() < 5,
        BodyType::from_index_spec(x.index_of()) == x,
        i < 5 ==> BodyType::from_index_spec(i).index_of() == i,
        x == BodyType::NoBody || x == BodyType::FormData || x == BodyType::UrlEncoded || x == BodyType::Raw || x == BodyType::Binary,
{
}

/// Law: each raw format has its own position in the selector, and the format at a position
/// gives that position back.
pub proof fn law_raw_format_positions(x: RawFormat, i: usize)
    ensures
        x.index_of() < 5,
        RawFormat::from_index_spec(x.index_of()) == x,
        i < 5 ==> RawFormat::from_index_spec(i).index_of() == i,
        x == RawFormat::Json || x == RawFormat::Xml || x == RawFormat::Text || x == RawFormat::Html || x == RawFormat::JavaScript,
{
}

/// Law: each form field kind has its own position in the selector, and the kind at a
/// position gives that position back.
pub proof fn law_param_type_positions(x: FormDataParamType, i: usize)
    ensures
        x.index_of() < 5,
        FormDataParamType::from_index_spec(x.index_of()) == x,
        i < 5 ==> FormDataParamType::from_index_spec(i).index_of() == i,
        x == FormDataParamType::Text || x == FormDataParamType::Boolean || x == FormDataParamType::Number || x == FormDataParamType::File || x == FormDataParamType::Array,
{
}

/// The content type of a file, guessed from its extension (see `guessed_content_type`).
pub fn guess_content_type(file_path: &str) -> (r: String)
    ensures
        r@ == guessed_content_type(file_path@),
{
    let ext = match path_extension(file_path) {
        Some(e) => ascii_lower_chars(&chars_of(e.as_str())),
        None => Vec::new(),
    };
    let e = &ext;
    let t = if chars_eq_str(e, "jpg") || chars_eq_str(e, "jpeg") {
        "image/jpeg"
    } else if chars_eq_str(e, "png") {
        "image/png"
    } else if chars_eq_str(e, "gif") {
        "image/gif"
    } else if chars_eq_str(e, "webp") {
        "image/webp"
    } else if chars_eq_str(e, "svg") {
        "image/svg+xml"
    } else if chars_eq_str(e, "pdf") {
        "application/pdf"
    } else if chars_eq_str(e, "zip") {
        "application/zip"
    } else if chars_eq_str(e, "tar") {
        "application/x-tar"
    } else if chars_eq_str(e, "gz") || chars_eq_str(e, "gzip") {
        "application/gzip"
    } else if chars_eq_str(e, "json") {
        "application/json"
    } else if chars_eq_str(e, "xml") {
        "application/xml"
    } else if chars_eq_str(e, "txt") {
        "text/plain"
    } else if chars_eq_str(e, "html") || chars_eq_str(e, "htm") {
        "text/html"
    } else if chars_eq_str(e, "css") {
        "text/css"
    } else if chars_eq_str(e, "js") {
        "application/javascript"
    } else if chars_eq_str(e, "ts") {
        "application/typescript"
    } else if chars_eq_str(e, "csv") {
        "text/csv"
    } else if chars_eq_str(e, "doc") {
        "application/msword"
    } else if chars_eq_str(e, "docx") {
        "application/vnd.openxmlformats-officedocument.wordprocessingml.document"
    } else if chars_eq_str(e, "xls") {
        "application/vnd.ms-excel"
    } else if chars_eq_str(e, "xlsx") {
        "application/vnd.openxmlformats-officedocument.spreadsheetml.sheet"
    } else if chars_eq_str(e, "ppt") {
        "application/vnd.ms-powerpoint"
    } else if chars_eq_str(e, "pptx") {
        "application/vnd.openxmlformats-officedocument.presentationml.presentation"
    } else {
        "application/octet-stream"
    };
    assert(ext@ == ascii_lower(
        match spec_path_extension(file_path@) {
            Some(x) => x,
            None => Seq::<char>::empty(),
        },
    ));
    string_from_chars(&chars_of(t))
}

/// The content type a body is sent with: multipart for a non-empty form-data table,
/// url-encoded for a non-empty url-encoded table, the raw format's type for a raw body,
/// none otherwise.
pub open spec fn body_content_type(b: BodyState) -> Option<Seq<char>> {
    match b.body_type {
        BodyType::FormData => if b.form_data@.len() == 0 {
            None
        } else {
            Some("multipart/form-data"@)
        },
        BodyType::UrlEncoded => if b.urlencoded_data@.len() == 0 {
            None
        } else {
            Some("application/x-www-form-urlencoded"@)
        },
        BodyType::Raw => Some(b.raw_format.content_type_of()),
        _ => None,
    }
}

/// The raw text of the current format (the JSON text for JavaScript too).
pub open spec fn raw_text_of(b: BodyState) -> Seq<char> {
    match b.raw_format {
        RawFormat::Json => b.raw_content@,
        RawFormat::Xml => b.raw_content_xml@,
        RawFormat::Text => b.raw_content_text@,
        RawFormat::Html => b.raw_content_html@,
        RawFormat::JavaScript => b.raw_content@,
    }
}

/// The text sent as body: the raw text of a raw body when it is not empty; nothing otherwise
/// (form tables and files are sent apart).
pub open spec fn body_text(b: BodyState) -> Option<Seq<char>> {
    if b.body_type == BodyType::Raw && raw_text_of(b).len() > 0 {
        Some(raw_text_of(b))
    } else {
        None
    }
}

/// Everything of a body but its form-data table is as in `b`.
pub open spec fn same_but_form_data(a: BodyState, b: BodyState) -> bool {
    &&& a.body_type == b.body_type
    &&& a.raw_format == b.raw_format
    &&& a.raw_content == b.raw_content
    &&& a.raw_content_xml == b.raw_content_xml
    &&& a.raw_content_text == b.raw_content_text
    &&& a.raw_content_html == b.raw_content_html
    &&& a.urlencoded_data == b.urlencoded_data
    &&& a.binary_file_path == b.binary_file_path
    &&& a.json_error == b.json_error
    &&& a.soft_wrap == b.soft_wrap
}

/// Everything of a body but its url-encoded table is as in `b`.
pub open spec fn same_but_urlencoded(a: BodyState, b: BodyState) -> bool {
    &&& a.body_type == b.body_type
    &&& a.raw_format == b.raw_format
    &&& a.raw_content == b.raw_content
    &&& a.raw_content_xml == b.raw_content_xml
    &&& a.raw_content_text == b.raw_content_text
    &&& a.raw_content_html == b.raw_content_html
    &&& a.form_data == b.form_data
    &&& a.binary_file_path == b.binary_file_path
    &&& a.json_error == b.json_error
    &&& a.soft_wrap == b.soft_wrap
}

/// A table after a row's kind was set to `t`: the row keeps its key and switch, gets the kind,
/// and the value `is_value_for_type` describes; other rows are unchanged.
pub open spec fn kind_set(
    old_rows: Seq<FormDataEntry>,
    new_rows: Seq<FormDataEntry>,
    index: int,
    t: FormDataParamType,
    sync_selector: bool,
) -> bool {
    &&& new_rows.len() == old_rows.len()
    &&& forall|j: int| 0 <= j < old_rows.len() && j != index ==> new_rows[j] == old_rows[j]
    &&& new_rows[index].key == old_rows[index].key
    &&& new_rows[index].enabled == old_rows[index].enabled
    &&& new_rows[index].param_type == t
    &&& new_rows[index].type_index == (if sync_selector {
        t.index_of()
    } else {
        old_rows[index].type_index
    })
    &&& is_value_for_type(new_rows[index].value, t)
}

fn fresh_entry() -> (e: FormDataEntry)
    ensures
        is_fresh_entry(e),
{
    FormDataEntry {
        key: String::new(),
        value: FormDataValue::Text(TextInput { text: String::new(), numbers_only: false }),
        enabled: true,
        param_type: FormDataParamType::Text,
        type_index: 0,
    }
}

fn value_for(t: FormDataParamType) -> (v: FormDataValue)
    ensures
        is_value_for_type(v, t),
{
    match t {
        FormDataParamType::File => FormDataValue::File(
            TextInput { text: String::new(), numbers_only: false },
            String::new(),
        ),
        FormDataParamType::Boolean => {
            let t = string_from_chars(&chars_of("true"));
            FormDataValue::Text(TextInput { text: t, numbers_only: false })
        },
        FormDataParamType::Number => FormDataValue::Text(
            TextInput { text: String::new(), numbers_only: true },
        ),
        _ => FormDataValue::Text(TextInput { text: String::new(), numbers_only: false }),
    }
}

fn copy_string(s: &String) -> (r: String)
    ensures
        r == *s,
{
    s.clone()
}

fn set_row_kind(rows: &mut Vec<FormDataEntry>, index: usize, t: FormDataParamType, sync_selector: bool)
    requires
        index < old(rows)@.len(),
    ensures
        kind_set(old(rows)@, final(rows)@, index as int, t, sync_selector),
{
    let old_row = rows.remove(index);
    let row = FormDataEntry {
        key: old_row.key,
        value: value_for(t),
        enabled: old_row.enabled,
        param_type: t,
        type_index: if sync_selector { t.to_index() } else { old_row.type_index },
    };
    rows.insert(index, row);
    assert forall|j: int| 0 <= j < old(rows)@.len() && j != index implies rows@[j] == old(rows)@[j] by {
        if j < index {
        } else {
        }
    }
}

/// The non-empty path chosen for a form-data file row.
pub open spec fn chosen_path(rows: Seq<FormDataEntry>, index: int) -> Option<Seq<char>> {
    if 0 <= index < rows.len() {
        match rows[index].value {
            FormDataValue::File(_, p) => if p@.len() > 0 {
                Some(p@)
            } else {
                None
            },
            FormDataValue::Text(_) => None,
        }
    } else {
        None
    }
}

impl BodyState {
    /// A body of no kind, raw format JSON, with the given raw texts and empty tables.
    pub fn new(
        raw_content: String,
        raw_content_xml: String,
        raw_content_text: String,
        raw_content_html: String,
    ) -> (b: BodyState)
        ensures
            b.body_type == BodyType::NoBody,
            b.raw_format == RawFormat::Json,
            b.raw_content == raw_content,
            b.raw_content_xml == raw_content_xml,
            b.raw_content_text == raw_content_text,
            b.raw_content_html == raw_content_html,
            b.form_data@.len() == 0,
            b.urlencoded_data@.len() == 0,
            b.binary_file_path is None,
            b.json_error is None,
            !b.soft_wrap,
    {
        BodyState {
            body_type: BodyType::NoBody,
            raw_format: RawFormat::Json,
            raw_content,
            raw_content_xml,
            raw_content_text,
            raw_content_html,
            form_data: Vec::new(),
            urlencoded_data: Vec::new(),
            binary_file_path: None,
            json_error: None,
            soft_wrap: false,
        }
    }

    /// The content type the body is sent with (see `body_content_type`).
    pub fn content_type(&self) -> (r: Option<String>)
        ensures
            match r {
                Some(t) => body_content_type(*self) == Some(t@),
                None => body_content_type(*self) is None,
            },
    {
        match self.body_type {
            BodyType::FormData => {
                if self.form_data.len() == 0 {
                    None
                } else {
                    Some(string_from_chars(&chars_of("multipart/form-data")))
                }
            },
            BodyType::UrlEncoded => {
                if self.urlencoded_data.len() == 0 {
                    None
                } else {
                    Some(string_from_chars(&chars_of("application/x-www-form-urlencoded")))
                }
            },
            BodyType::Raw => Some(string_from_chars(&chars_of(self.raw_format.content_type()))),
            _ => None,
        }
    }

    /// The text sent as body (see `body_text`).
    pub fn to_body(&self) -> (r: Option<String>)
        ensures
            match r {
                Some(t) => body_text(*self) == Some(t@),
                None => body_text(*self) is None,
            },
    {
        if self.body_type != BodyType::Raw {
            return None;
        }
        let content = match self.raw_format {
            RawFormat::Json => copy_string(&self.raw_content),
            RawFormat::Xml => copy_string(&self.raw_content_xml),
            RawFormat::Text => copy_string(&self.raw_content_text),
            RawFormat::Html => copy_string(&self.raw_content_html),
            RawFormat::JavaScript => copy_string(&self.raw_content),
        };
        if content.as_str().is_empty() {
            None
        } else {
            Some(content)
        }
    }

    /// The `(key, value)` text fields of the form-data table that are sent (see `text_fields`).
    pub fn get_form_data_text_fields(&self) -> (r: Vec<(String, String)>)
        ensures
            r@.map_values(|p: (String, String)| (p.0@, p.1@)) == text_fields(self.form_data@),
    {
        let mut fields: Vec<(String, String)> = Vec::new();
        let mut i: usize = 0;
        while i < self.form_data.len()
            invariant
                i <= self.form_data@.len(),
                fields@.map_values(|p: (String, String)| (p.0@, p.1@)) == text_fields(self.form_data@.take(i as int)),
            decreases self.form_data@.len() - i,
        {
            assert(self.form_data@.take(i + 1).drop_last() =~= self.form_data@.take(i as int));
            let entry = &self.form_data[i];
            if entry.enabled && entry.param_type != FormDataParamType::File && !entry.key.as_str().is_empty() {
                let value = copy_string(&entry.value.get_input().text);
                let ghost before = fields@;
                fields.push((copy_string(&entry.key), value));
                assert(fields@.map_values(|p: (String, String)| (p.0@, p.1@)) =~= before.map_values(
                    |p: (String, String)| (p.0@, p.1@),
                ).push((entry.key@, input_text(entry.value))));
            }
            i += 1;
        }
        assert(self.form_data@.take(self.form_data@.len() as int) =~= self.form_data@);
        fields
    }

    /// The file fields of the form-data table that are sent, with the content type guessed
    /// from each path (see `file_fields`).
    pub fn get_form_data_file_fields(&self) -> (r: Vec<(String, String, String)>)
        ensures
            r@.map_values(|p: (String, String, String)| (p.0@, p.1@, p.2@)) == file_fields(self.form_data@),
    {
        let mut fields: Vec<(String, String, String)> = Vec::new();
        let mut i: usize = 0;
        while i < self.form_data.len()
            invariant
                i <= self.form_data@.len(),
                fields@.map_values(|p: (String, String, String)| (p.0@, p.1@, p.2@)) == file_fields(self.form_data@.take(i as int)),
            decreases self.form_data@.len() - i,
        {
            assert(self.form_data@.take(i + 1).drop_last() =~= self.form_data@.take(i as int));
            let entry = &self.form_data[i];
            if entry.enabled && entry.param_type == FormDataParamType::File {
                match &entry.value {
                    FormDataValue::File(_, path) => {
                        if !entry.key.as_str().is_empty() && !path.as_str().is_empty() {
                            let ct = guess_content_type(path.as_str());
                            let ghost before = fields@;
                            fields.push((copy_string(&entry.key), copy_string(path), ct));
                            assert(fields@.map_values(|p: (String, String, String)| (p.0@, p.1@, p.2@)) =~= before.map_values(
                                |p: (String, String, String)| (p.0@, p.1@, p.2@),
                            ).push((entry.key@, path@, guessed_content_type(path@))));
                        }
                    },
                    FormDataValue::Text(_) => {},
                }
            }
            i += 1;
        }
        assert(self.form_data@.take(self.form_data@.len() as int) =~= self.form_data@);
        fields
    }

    /// Turns soft wrapping of the raw editor on or off.
    pub fn toggle_soft_wrap(&mut self)
        ensures
            final(self).soft_wrap == !old(self).soft_wrap,
            same_but_form_data(*final(self), BodyState { soft_wrap: final(self).soft_wrap, ..*old(self) }),
            final(self).form_data == old(self).form_data,
    {
        self.soft_wrap = !self.soft_wrap;
    }

    /// Pretty-prints the raw JSON text in place. Only for a raw JSON body; when the text does
    /// not parse, the text stays and the parser's message is kept as the error.
    pub fn format_json(&mut self)
        ensures
            old(self).body_type != BodyType::Raw || old(self).raw_format != RawFormat::Json ==> *final(self) == *old(self),
            old(self).body_type == BodyType::Raw && old(self).raw_format == RawFormat::Json ==> {
                &&& final(self).body_type == old(self).body_type
                &&& final(self).raw_format == old(self).raw_format
                &&& final(self).raw_content_xml == old(self).raw_content_xml
                &&& final(self).raw_content_text == old(self).raw_content_text
                &&& final(self).raw_content_html == old(self).raw_content_html
                &&& final(self).form_data == old(self).form_data
                &&& final(self).urlencoded_data == old(self).urlencoded_data
                &&& final(self).binary_file_path == old(self).binary_file_path
                &&& final(self).soft_wrap == old(self).soft_wrap
                &&& match spec_json_from_str(old(self).raw_content@) {
                    Ok(v) => final(self).json_error is None && final(self).raw_content@ == match spec_json_to_string_pretty(v) {
                        Some(t) => t,
                        None => old(self).raw_content@,
                    },
                    Err(e) => (final(self).json_error matches Some(m) && m@ == e) && final(self).raw_content == old(self).raw_content,
                }
            },
    {
        if self.body_type != BodyType::Raw || self.raw_format != RawFormat::Json {
            return;
        }
        match json_from_str(self.raw_content.as_str()) {
            Ok(value) => {
                match json_to_string_pretty(&value) {
                    Some(t) => {
                        self.raw_content = t;
                    },
                    None => {},
                }
                self.json_error = None;
            },
            Err(e) => {
                self.json_error = Some(e);
            },
        }
    }

    /// Adds a fresh row (see `is_fresh_entry`) to the form-data table.
    pub fn add_form_data_entry(&mut self)
        ensures
            final(self).form_data@.len() == old(self).form_data@.len() + 1,
            final(self).form_data@.drop_last() == old(self).form_data@,
            is_fresh_entry(final(self).form_data@.last()),
            same_but_form_data(*final(self), *old(self)),
    {
        self.form_data.push(fresh_entry());
        assert(self.form_data@.drop_last() =~= old(self).form_data@);
    }

    /// Adds a fresh row (see `is_fresh_entry`) to the url-encoded table.
    pub fn add_urlencoded_entry(&mut self)
        ensures
            final(self).urlencoded_data@.len() == old(self).urlencoded_data@.len() + 1,
            final(self).urlencoded_data@.drop_last() == old(self).urlencoded_data@,
            is_fresh_entry(final(self).urlencoded_data@.last()),
            same_but_urlencoded(*final(self), *old(self)),
    {
        self.urlencoded_data.push(fresh_entry());
        assert(self.urlencoded_data@.drop_last() =~= old(self).urlencoded_data@);
    }

    /// Sets the kind of a form-data row; its selector follows. An index past the end changes
    /// nothing.
    pub fn set_form_data_param_type(&mut self, index: usize, param_type: FormDataParamType)
        ensures
            same_but_form_data(*final(self), *old(self)),
            index < old(self).form_data@.len() ==> kind_set(old(self).form_data@, final(self).form_data@, index as int, param_type, true),
            index >= old(self).form_data@.len() ==> final(self).form_data == old(self).form_data,
    {
        if index < self.form_data.len() {
            set_row_kind(&mut self.form_data, index, param_type, true);
        }
    }

    /// Sets the kind of a url-encoded row. An index past the end changes nothing.
    pub fn set_urlencoded_param_type(&mut self, index: usize, param_type: FormDataParamType)
        ensures
            same_but_urlencoded(*final(self), *old(self)),
            index < old(self).urlencoded_data@.len() ==> kind_set(old(self).urlencoded_data@, final(self).urlencoded_data@, index as int, param_type, false),
            index >= old(self).urlencoded_data@.len() ==> final(self).urlencoded_data == old(self).urlencoded_data,
    {
        if index < self.urlencoded_data.len() {
            set_row_kind(&mut self.urlencoded_data, index, param_type, false);
        }
    }

    /// Records the file chosen for a form-data file row: both its path and its input show it.
    /// Rows that are not file rows, and indices past the end, are left as they are.
    pub fn update_form_data_file_path(&mut self, index: usize, file_path: &str)
        ensures
            same_but_form_data(*final(self), *old(self)),
            final(self).form_data@.len() == old(self).form_data@.len(),
            forall|j: int| 0 <= j < old(self).form_data@.len() && j != index ==> final(self).form_data@[j] == old(self).form_data@[j],
            index < old(self).form_data@.len() ==> match old(self).form_data@[index as int].value {
                FormDataValue::File(i, _) => {
                    let e = final(self).form_data@[index as int];
                    let o = old(self).form_data@[index as int];
                    &&& e.key == o.key && e.enabled == o.enabled && e.param_type == o.param_type && e.type_index == o.type_index
                    &&& e.value matches FormDataValue::File(ni, np) && ni.text@ == file_path@ && np@ == file_path@ && ni.numbers_only == i.numbers_only
                },
                FormDataValue::Text(_) => final(self).form_data@[index as int] == old(self).form_data@[index as int],
            },
    {
        if index < self.form_data.len() {
            let is_file = match &self.form_data[index].value {
                FormDataValue::File(_, _) => true,
                FormDataValue::Text(_) => false,
            };
            if is_file {
                let old_row = self.form_data.remove(index);
                let numbers_only = old_row.value.get_input().numbers_only;
                let row = FormDataEntry {
                    key: old_row.key,
                    value: FormDataValue::File(
                        TextInput { text: string_from_chars(&chars_of(file_path)), numbers_only },
                        string_from_chars(&chars_of(file_path)),
                    ),
                    enabled: old_row.enabled,
                    param_type: old_row.param_type,
                    type_index: old_row.type_index,
                };
                self.form_data.insert(index, row);
                assert forall|j: int| 0 <= j < old(self).form_data@.len() && j != index implies self.form_data@[j] == old(self).form_data@[j] by {
                    if j < index {
                    } else {
                    }
                }
            }
        }
    }

    /// The path chosen for a form-data file row, when there is one and it is not empty.
    pub fn get_form_data_file_path(&self, index: usize) -> (r: Option<String>)
        ensures
            match r {
                Some(p) => chosen_path(self.form_data@, index as int) == Some(p@),
                None => chosen_path(self.form_data@, index as int) is None,
            },
    {
        if index < self.form_data.len() {
            match &self.form_data[index].value {
                FormDataValue::File(_, stored_path) => {
                    if !stored_path.as_str().is_empty() {
                        return Some(copy_string(stored_path));
                    }
                },
                FormDataValue::Text(_) => {},
            }
        }
        None
    }

    /// Removes a form-data row; an index past the end changes nothing.
    pub fn remove_form_data_entry(&mut self, index: usize)
        ensures
            same_but_form_data(*final(self), *old(self)),
            final(self).form_data@ == if index < old(self).form_data@.len() {
                old(self).form_data@.remove(index as int)
            } else {
                old(self).form_data@
            },
    {
        if index < self.form_data.len() {
            self.form_data.remove(index);
        }
    }

    /// Removes a url-encoded row; an index past the end changes nothing.
    pub fn remove_urlencoded_entry(&mut self, index: usize)
        ensures
            same_but_urlencoded(*final(self), *old(self)),
            final(self).urlencoded_data@ == if index < old(self).urlencoded_data@.len() {
                old(self).urlencoded_data@.remove(index as int)
            } else {
                old(self).urlencoded_data@
            },
    {
        if index < self.urlencoded_data.len() {
            self.urlencoded_data.remove(index);
        }
    }

    /// Switches a form-data row on or off; an index past the end changes nothing.
    pub fn toggle_form_data_entry(&mut self, index: usize)
        ensures
            same_but_form_data(*final(self), *old(self)),
            final(self).form_data@.len() == old(self).form_data@.len(),
            forall|j: int| 0 <= j < old(self).form_data@.len() && j != index ==> final(self).form_data@[j] == old(self).form_data@[j],
            index < old(self).form_data@.len() ==> final(self).form_data@[index as int] == (FormDataEntry {
                enabled: !old(self).form_data@[index as int].enabled,
                ..old(self).form_data@[index as int]
            }),
    {
        if index < self.form_data.len() {
            let mut row = self.form_data.remove(index);
            row.enabled = !row.enabled;
            self.form_data.insert(index, row);
            assert forall|j: int| 0 <= j < old(self).form_data@.len() && j != index implies self.form_data@[j] == old(self).form_data@[j] by {
                if j < index {
                } else {
                }
            }
        }
    }
}

} // verus!
