use apipost_ui::query::{params_in_url, parse_url_to_params, request_url, split_curl_url, sync_params_to_url, ParamEntry, QueryStyle};

fn p(k: &str, v: &str, enabled: bool) -> ParamEntry {
    ParamEntry { key: k.to_string(), value: v.to_string(), enabled }
}

fn pairs(ps: &[ParamEntry]) -> Vec<(String, String, bool)> {
    ps.iter().map(|x| (x.key.clone(), x.value.clone(), x.enabled)).collect()
}

#[test]
fn url_bar_query_to_rows() {
    let ps = parse_url_to_params("http://h/p?a=1&&b%20c&d=x%3Dy&e=%ZZ");
    assert_eq!(
        pairs(&ps),
        vec![
            ("a".to_string(), "1".to_string(), true),
            ("b c".to_string(), String::new(), true),
            ("d".to_string(), "x=y".to_string(), true),
            ("e".to_string(), "%ZZ".to_string(), true),
        ]
    );
    assert!(parse_url_to_params("http://h/p").is_empty());
    assert_eq!(parse_url_to_params("http://h/p?").len(), 0);
    let saved = params_in_url("u?a&b=2", QueryStyle::Saved);
    assert_eq!(pairs(&saved), vec![("b".to_string(), "2".to_string(), true)]);
}

#[test]
fn curl_url_split() {
    let (base, ps) = split_curl_url("https://h/p?x=%41&y%20z");
    assert_eq!(base, "https://h/p");
    assert_eq!(pairs(&ps), vec![("x".to_string(), "A".to_string(), true), ("y%20z".to_string(), String::new(), true)]);
}

#[test]
fn rows_to_url() {
    let ps = vec![p("a b", "1&2", true), p("", "skip", true), p("off", "x", false), p("c", "", true)];
    assert_eq!(sync_params_to_url("http://h/p?old=1", &ps), "http://h/p?a%20b=1%262&c=");
    assert_eq!(sync_params_to_url("http://h/p?old=1", &Vec::new()), "http://h/p");
}

#[test]
fn law_url_params_roundtrip_on_values() {
    let ps = vec![p("ключ", "v=1&2", true), p("k", "", true), p("off", "z", false)];
    let url = sync_params_to_url("https://h/x?junk", &ps);
    let back = parse_url_to_params(&url);
    assert_eq!(pairs(&back), vec![("ключ".to_string(), "v=1&2".to_string(), true), ("k".to_string(), String::new(), true)]);
}

#[test]
fn request_urls() {
    let ps = vec![p("q", "1", true)];
    assert_eq!(request_url("example.com/s", &ps, &None), "http://example.com/s?q=1");
    assert_eq!(request_url("https://e/s?x=9", &Vec::new(), &Some(("k".to_string(), "v v".to_string()))), "https://e/s?k=v%20v");
    assert_eq!(request_url("https://e/s", &ps, &Some(("k".to_string(), "v".to_string()))), "https://e/s?q=1&k=v");
    assert_eq!(request_url("HTTP://e", &Vec::new(), &None), "http://HTTP://e");
}
