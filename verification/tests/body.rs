use apipost_ui::body::{
    guess_content_type, BodyState, BodyType, FormDataEntry, FormDataParamType, FormDataValue, RawFormat, TextInput,
};

fn body() -> BodyState {
    BodyState::new("{\"a\":1}".to_string(), "<a/>".to_string(), "plain".to_string(), "<p></p>".to_string())
}

#[test]
fn kinds_and_formats_by_index() {
    assert_eq!(BodyType::from_index(2).to_index(), 2);
    assert_eq!(BodyType::from_index(99), BodyType::NoBody);
    assert_eq!(RawFormat::from_index(3), RawFormat::Html);
    assert_eq!(RawFormat::from_index(9), RawFormat::Json);
    assert_eq!(RawFormat::Xml.label(), "XML");
    assert_eq!(RawFormat::all(), vec!["JSON", "XML", "Text", "HTML", "JavaScript"]);
    assert_eq!(RawFormat::JavaScript.content_type(), "application/javascript");
    assert_eq!(FormDataParamType::from_index(3), FormDataParamType::File);
    assert_eq!(FormDataParamType::from_label("Number"), Some(FormDataParamType::Number));
    assert_eq!(FormDataParamType::from_label("number"), None);
}

#[test]
fn raw_format_detection() {
    assert_eq!(RawFormat::detect(Some("Application/JSON; charset=utf-8"), ""), RawFormat::Json);
    assert_eq!(RawFormat::detect(Some("text/xml"), ""), RawFormat::Xml);
    assert_eq!(RawFormat::detect(Some("text/html"), ""), RawFormat::Html);
    assert_eq!(RawFormat::detect(Some("text/javascript"), ""), RawFormat::JavaScript);
    assert_eq!(RawFormat::detect(Some("text/plain"), "{}"), RawFormat::Text);
    assert_eq!(RawFormat::detect(None, "  [1]"), RawFormat::Json);
    assert_eq!(RawFormat::detect(None, "<!DOCTYPE html><html>"), RawFormat::Html);
    assert_eq!(RawFormat::detect(None, "<root/>"), RawFormat::Xml);
    assert_eq!(RawFormat::detect(None, "hello"), RawFormat::Text);
}

#[test]
fn format_body_pretty_prints_json_only() {
    assert_eq!(RawFormat::Json.format_body("{\"a\":[1,2]}"), "{\n  \"a\": [\n    1,\n    2\n  ]\n}");
    assert_eq!(RawFormat::Json.format_body("not json"), "not json");
    assert_eq!(RawFormat::Xml.format_body("{\"a\":1}"), "{\"a\":1}");
}

#[test]
fn content_type_and_body_text() {
    let mut b = body();
    assert_eq!(b.content_type(), None);
    assert_eq!(b.to_body(), None);
    b.body_type = BodyType::Raw;
    assert_eq!(b.content_type().as_deref(), Some("application/json"));
    assert_eq!(b.to_body().as_deref(), Some("{\"a\":1}"));
    b.raw_format = RawFormat::Html;
    assert_eq!(b.to_body().as_deref(), Some("<p></p>"));
    b.raw_format = RawFormat::JavaScript;
    assert_eq!(b.to_body().as_deref(), Some("{\"a\":1}"));
    b.raw_content = String::new();
    assert_eq!(b.to_body(), None);
    b.body_type = BodyType::FormData;
    assert_eq!(b.content_type(), None);
    b.add_form_data_entry();
    assert_eq!(b.content_type().as_deref(), Some("multipart/form-data"));
    b.body_type = BodyType::UrlEncoded;
    assert_eq!(b.content_type(), None);
    b.add_urlencoded_entry();
    assert_eq!(b.content_type().as_deref(), Some("application/x-www-form-urlencoded"));
}

#[test]
fn form_rows_kinds_and_fields() {
    let mut b = body();
    b.add_form_data_entry();
    b.add_form_data_entry();
    b.add_form_data_entry();
    b.form_data[0].key = "name".to_string();
    b.form_data[0].value = FormDataValue::Text(TextInput { text: "Ann".to_string(), numbers_only: false });
    b.set_form_data_param_type(1, FormDataParamType::Boolean);
    b.form_data[1].key = "flag".to_string();
    b.set_form_data_param_type(2, FormDataParamType::File);
    b.form_data[2].key = "upload".to_string();
    assert_eq!(b.form_data[2].type_index, 3);
    assert_eq!(b.get_form_data_file_path(2), None);
    b.update_form_data_file_path(2, "/x/photo.JPG");
    assert_eq!(b.get_form_data_file_path(2).as_deref(), Some("/x/photo.JPG"));
    assert_eq!(b.get_form_data_file_path(0), None);
    assert_eq!(
        b.get_form_data_text_fields(),
        vec![("name".to_string(), "Ann".to_string()), ("flag".to_string(), "true".to_string())]
    );
    assert_eq!(
        b.get_form_data_file_fields(),
        vec![("upload".to_string(), "/x/photo.JPG".to_string(), "image/jpeg".to_string())]
    );
    b.toggle_form_data_entry(0);
    assert_eq!(b.get_form_data_text_fields().len(), 1);
    b.remove_form_data_entry(0);
    assert_eq!(b.form_data.len(), 2);
    b.remove_form_data_entry(7);
    assert_eq!(b.form_data.len(), 2);
    b.set_form_data_param_type(0, FormDataParamType::Number);
    match &b.form_data[0].value {
        FormDataValue::Text(i) => assert!(i.numbers_only && i.text.is_empty()),
        _ => panic!("a number row holds text"),
    }
}

#[test]
fn urlencoded_rows() {
    let mut b = body();
    b.add_urlencoded_entry();
    b.set_urlencoded_param_type(0, FormDataParamType::File);
    assert_eq!(b.urlencoded_data[0].type_index, 0);
    assert!(matches!(b.urlencoded_data[0].value, FormDataValue::File(_, _)));
    b.remove_urlencoded_entry(0);
    assert!(b.urlencoded_data.is_empty());
}

#[test]
fn format_json_in_place() {
    let mut b = body();
    b.format_json();
    assert_eq!(b.raw_content, "{\"a\":1}");
    b.body_type = BodyType::Raw;
    b.format_json();
    assert_eq!(b.raw_content, "{\n  \"a\": 1\n}");
    assert!(b.json_error.is_none());
    b.raw_content = "{bad".to_string();
    b.format_json();
    assert_eq!(b.raw_content, "{bad");
    assert!(b.json_error.is_some());
    b.toggle_soft_wrap();
    assert!(b.soft_wrap);
}

#[test]
fn guessed_content_types() {
    assert_eq!(guess_content_type("a/b/report.PDF"), "application/pdf");
    assert_eq!(guess_content_type("data.tar.gz"), "application/gzip");
    assert_eq!(guess_content_type("noext"), "application/octet-stream");
    assert_eq!(guess_content_type(".hidden"), "application/octet-stream");
    assert_eq!(guess_content_type("sheet.xlsx"), "application/vnd.openxmlformats-officedocument.spreadsheetml.sheet");
}

#[test]
fn file_entry_holds_input() {
    let e = FormDataEntry {
        key: "f".to_string(),
        value: FormDataValue::File(TextInput { text: "in".to_string(), numbers_only: false }, "p".to_string()),
        enabled: true,
        param_type: FormDataParamType::File,
        type_index: 3,
    };
    assert_eq!(e.value.get_input().text, "in");
}

#[test]
fn defaults() {
    assert_eq!(BodyType::default(), BodyType::NoBody);
    assert_eq!(RawFormat::default(), RawFormat::Json);
    assert_eq!(FormDataParamType::default(), FormDataParamType::Text);
    let o = apipost_ui::json::JsonFormatOptions::default();
    assert!(o.enable_fold && o.max_depth == 3 && o.indent_size == 2);
    assert!(apipost_ui::headers::HeadersState::default().headers.is_empty());
    assert_eq!(apipost_ui::auth::AuthType::default(), apipost_ui::auth::AuthType::NoAuth);
    assert_eq!(apipost_ui::auth::ApiKeyLocation::default(), apipost_ui::auth::ApiKeyLocation::Header);
    assert!(matches!(apipost_ui::auth::AuthState::default(), apipost_ui::auth::AuthState::NoAuth));
}
