use apipost_ui::headers::{enabled_headers, HeaderEntry, HeadersState};

#[test]
fn header_table() {
    let mut s = HeadersState::default();
    assert!(s.headers.is_empty());
    s.add_header();
    s.add_header();
    s.headers[0].key = "A".to_string();
    s.headers[0].value = "1".to_string();
    s.headers[1].value = "no key".to_string();
    assert_eq!(s.get_enabled_headers(), vec![("A".to_string(), "1".to_string())]);
    s.toggle_header(0);
    assert!(s.get_enabled_headers().is_empty());
    s.toggle_header(0);
    s.remove_header(1);
    s.remove_header(5);
    assert_eq!(s.headers.len(), 1);
    assert_eq!(s.headers[0].get_key_value(), ("A".to_string(), "1".to_string()));
    let rows = vec![HeaderEntry::new()];
    assert!(enabled_headers(&rows).is_empty());
}
