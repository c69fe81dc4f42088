use apipost_ui::highlight::JsonColor;
use apipost_ui::response_highlight::{build, HighlightedBody};

/// The visible characters (no newlines) with their colours, walking the runs by byte length.
fn visible_chars_from_styled(hl: &HighlightedBody) -> Vec<(char, JsonColor)> {
    let mut out = Vec::new();
    let mut runs = hl.styled.runs.iter();
    let mut current = runs.next().map(|(len, color)| (*len, *color));
    for ch in hl.styled.text.chars() {
        while matches!(current, Some((0, _))) {
            current = runs.next().map(|(len, color)| (*len, *color));
        }
        let (left, color) = current.expect("the runs are shorter than the text");
        if ch != '\n' {
            out.push((ch, color));
        }
        current = Some((left.saturating_sub(ch.len_utf8()), color));
    }
    assert!(matches!(current, Some((0, _)) | None), "the runs are longer than the text");
    out
}

fn visible_colors(hl: &HighlightedBody) -> Vec<JsonColor> {
    visible_chars_from_styled(hl).into_iter().map(|(_, c)| c).collect()
}

fn visible_offsets(hl: &HighlightedBody, needle: &str) -> Vec<usize> {
    let chars: Vec<char> = hl.styled.text.chars().filter(|c| *c != '\n').collect();
    let needle: Vec<char> = needle.chars().collect();
    chars
        .windows(needle.len())
        .enumerate()
        .filter(|(_, w)| *w == needle.as_slice())
        .map(|(i, _)| i)
        .collect()
}

#[test]
fn styled_body_preserves_text_and_colors() {
    for (body, content_type) in [
        (
            r#"{"name":"apipost","version":2,"nested":{"ok":true,"list":[1,2.5,-3e2],"none":null},"中文":"值"}"#,
            None,
        ),
        (r#"[]"#, None),
        (r#"{}"#, None),
        (r#"[1,2,3]"#, None),
        (r#"{"空":[],"num":1.5e-3,"esc":"a\"b","emoji":"🚀"}"#, None),
        (r#"[{"a":1},{"b":[2,3]}]"#, None),
        ("{\n  \"a\": 1,\n}", Some("application/json")),
        ("{not json}\n", Some("application/json")),
        (r#"{"k":[{"n":1e10},{"n":-0.5}]}"#, Some("text/javascript")),
        ("", Some("application/json")),
        ("hello\nworld\n", Some("application/json")),
    ] {
        let hl = build(body, content_type);

        let expected = match serde_json::from_str::<serde_json::Value>(body) {
            Ok(value) => serde_json::to_string_pretty(&value).expect("printing should not fail"),
            Err(_) => body.to_string(),
        };
        assert_eq!(hl.styled.text.as_str(), expected, "text differs: {body}");

        let sum: usize = hl.styled.runs.iter().map(|(len, _)| *len).sum();
        assert_eq!(sum, hl.styled.text.len(), "run lengths differ from the text length: {body}");

        let colors = visible_colors(&hl);
        assert_eq!(
            colors.len(),
            hl.styled.text.chars().filter(|c| *c != '\n').count(),
            "every visible character has a colour: {body}"
        );
        for (needle, expected, what) in [("\"a\"", JsonColor::Key, "key"), ("1", JsonColor::Number, "number")] {
            if let Some(at) = visible_offsets(&hl, needle).first().copied() {
                let count = needle.chars().count();
                for color in &colors[at..at + count] {
                    assert_eq!(*color, expected, "{what} colour is wrong ({needle}): {body}");
                }
            }
        }
        let mut offset = 0usize;
        for (len, _) in &hl.styled.runs {
            assert!(*len > 0, "a run has length 0: {body}");
            offset += *len;
            assert!(hl.styled.text.is_char_boundary(offset), "run boundary {offset} splits a character: {body}");
        }
        assert_eq!(offset, hl.styled.text.len(), "the runs must cover the text: {body}");
    }
}

#[test]
fn styled_body_is_empty_for_plain_text() {
    let hl = build("hello world", None);
    assert!(hl.plain.is_some(), "a body that is not JSON is plain text");
    assert_eq!(hl.styled.text.len(), 0);
    assert!(hl.styled.runs.is_empty());
}

fn payload() -> serde_json::Value {
    let mut items = Vec::new();
    for i in 0..1000 {
        let mut m = serde_json::Map::new();
        m.insert("id".to_string(), serde_json::Value::from(i));
        m.insert("name".to_string(), serde_json::Value::from(format!("item-{i}")));
        m.insert("active".to_string(), serde_json::Value::from(i % 2 == 0));
        m.insert("score".to_string(), serde_json::Value::from(i as f64 * 1.5));
        m.insert(
            "tags".to_string(),
            serde_json::Value::from(vec!["alpha", "beta", "gamma"]),
        );
        items.push(serde_json::Value::Object(m));
    }
    let mut top = serde_json::Map::new();
    top.insert("items".to_string(), serde_json::Value::Array(items));
    serde_json::Value::Object(top)
}

#[test]
fn styled_body_collapses_per_line_elements() {
    let body = serde_json::to_string(&payload()).unwrap();
    let hl = build(&body, None);

    let mut offset = 0usize;
    let mut lines = 1usize;
    let mut spans = 0usize;
    for (len, _) in &hl.styled.runs {
        let mut rest = &hl.styled.text[offset..offset + *len];
        offset += *len;
        loop {
            match rest.find('\n') {
                Some(pos) => {
                    if pos > 0 {
                        spans += 1;
                    }
                    lines += 1;
                    rest = &rest[pos + 1..];
                }
                None => {
                    if !rest.is_empty() {
                        spans += 1;
                    }
                    break;
                }
            }
        }
    }
    assert_eq!(offset, hl.styled.text.len(), "the runs must cover the text");
    let old_elements = 1 + lines + spans;
    let new_elements = 2;
    assert!(old_elements > 10_000, "one element per line and per piece is over ten thousand ({old_elements})");
    assert!(
        spans > hl.styled.runs.len(),
        "runs joined across lines are fewer than pieces per line ({} vs {})",
        hl.styled.runs.len(),
        spans
    );
    assert!(new_elements * 3 <= old_elements);
    let chars = hl.styled.text.chars().count();
    assert!(hl.styled.runs.len() * 3 < chars, "runs are far fewer than characters ({} vs {chars})", hl.styled.runs.len());
}

#[test]
fn small_json_runs_are_exact() {
    let hl = build("{\"a\":1}", None);
    assert!(hl.plain.is_none());
    assert_eq!(hl.styled.text, "{\n  \"a\": 1\n}");
    assert_eq!(
        hl.styled.runs,
        vec![
            (4, JsonColor::Bracket),
            (3, JsonColor::Key),
            (2, JsonColor::Bracket),
            (2, JsonColor::Number),
            (1, JsonColor::Bracket),
        ]
    );
}

#[test]
fn json_content_type_in_any_case_gives_styled_text() {
    let hl = build("plain words", Some("Application/JSON"));
    assert!(hl.plain.is_none());
    assert_eq!(hl.styled.text, "plain words");
    let hl = build("  [true, null]", None);
    assert!(hl.plain.is_none());
    assert_eq!(hl.styled.text, "[\n  true,\n  null\n]");
    let colors: Vec<JsonColor> = hl.styled.runs.iter().map(|r| r.1).collect();
    assert_eq!(colors, vec![JsonColor::Bracket, JsonColor::Boolean, JsonColor::Bracket, JsonColor::Null, JsonColor::Bracket]);
}

#[test]
fn multibyte_text_runs_count_bytes() {
    let hl = build("\"中\"", Some("application/json"));
    assert_eq!(hl.styled.text, "\"中\"");
    assert_eq!(hl.styled.runs, vec![(5, JsonColor::String)]);
    let hl = build("<p>x</p>", Some("text/html"));
    assert_eq!(hl.plain.as_deref(), Some("<p>x</p>"));
}
