use apipost_ui::highlight::{highlight_json, tokenize_json, JsonColor, JsonTokenType};

#[test]
fn tokens_and_colours() {
    let toks = tokenize_json("{\"a\": [1, -2.5e+3]}");
    let kinds: Vec<&JsonTokenType> = toks.iter().map(|t| &t.token_type).collect();
    assert!(matches!(kinds[0], JsonTokenType::Bracket));
    assert!(matches!(kinds[1], JsonTokenType::String));
    assert_eq!(toks[1].text, "\"a\"");
    let pieces = highlight_json("{\"a\": [1, -2.5e+3], \"b\": \"c\"}");
    let joined: String = pieces.iter().map(|p| p.0.as_str()).collect();
    assert_eq!(joined, "{\"a\": [1, -2.5e+3], \"b\": \"c\"}");
    assert_eq!(pieces[1], ("\"a\"".to_string(), JsonColor::Key));
    // white space between a comma and a string leaves the string a key
    let strings: Vec<&(String, JsonColor)> = pieces.iter().filter(|p| p.0.starts_with('"')).collect();
    assert_eq!(strings[1].1, JsonColor::Key);
    assert_eq!(strings[2].1, JsonColor::String);
    let tight = highlight_json("{\"a\":1,\"b\":\"c\"}");
    let strings: Vec<&(String, JsonColor)> = tight.iter().filter(|p| p.0.starts_with('"')).collect();
    assert_eq!(strings[1], &("\"b\"".to_string(), JsonColor::Key));
    assert_eq!(strings[2], &("\"c\"".to_string(), JsonColor::String));
    let numbers: Vec<&str> = pieces.iter().filter(|p| p.1 == JsonColor::Number).map(|p| p.0.as_str()).collect();
    assert_eq!(numbers, vec!["1", "-2.5e+3"]);
}

#[test]
fn law_highlight_keeps_text_on_values() {
    for s in ["[1,2,{\"x\":\"y\\\"z\"}]", "  {\n}", "\"unterminated", "-", ""] {
        let pieces = highlight_json(s);
        assert!(pieces.iter().all(|p| !p.0.is_empty()));
        let joined: String = pieces.iter().map(|p| p.0.as_str()).collect();
        assert_eq!(joined, s);
    }
}

#[test]
fn keywords_are_coloured() {
    assert_eq!(highlight_json("null"), vec![("null".to_string(), JsonColor::Null)]);
    assert_eq!(highlight_json("true"), vec![("true".to_string(), JsonColor::Boolean)]);
    let pieces = highlight_json("[true,false,null]");
    let texts: Vec<&str> = pieces.iter().map(|p| p.0.as_str()).collect();
    assert_eq!(texts, vec!["[", "true", ",", "false", ",", "null", "]"]);
    assert_eq!(pieces[1].1, JsonColor::Boolean);
    assert_eq!(pieces[3].1, JsonColor::Boolean);
    assert_eq!(pieces[5].1, JsonColor::Null);
}

fn piece(t: &str, c: JsonColor) -> (String, JsonColor) {
    (t.to_string(), c)
}

#[test]
fn keyword_keeps_the_character_after_it() {
    assert_eq!(
        highlight_json("[true,1]"),
        vec![
            piece("[", JsonColor::Bracket),
            piece("true", JsonColor::Boolean),
            piece(",", JsonColor::Bracket),
            piece("1", JsonColor::Number),
            piece("]", JsonColor::Bracket),
        ]
    );
}

#[test]
fn null_after_a_key_is_one_piece() {
    assert_eq!(
        highlight_json("{\"a\":null}"),
        vec![
            piece("{", JsonColor::Bracket),
            piece("\"a\"", JsonColor::Key),
            piece(":", JsonColor::Bracket),
            piece("null", JsonColor::Null),
            piece("}", JsonColor::Bracket),
        ]
    );
}

#[test]
fn white_space_between_tokens_changes_no_colour() {
    let spaced = highlight_json("{ \"a\": 1, \"b\" : [ \"c\" ] }");
    let solid: Vec<(String, JsonColor)> =
        spaced.into_iter().filter(|p| !p.0.trim().is_empty()).collect();
    assert_eq!(solid, highlight_json("{\"a\":1,\"b\":[\"c\"]}"));
    assert_eq!(solid[1], piece("\"a\"", JsonColor::Key));
    assert_eq!(solid[5], piece("\"b\"", JsonColor::Key));
}
