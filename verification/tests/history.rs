use apipost_ui::history::{format_response_time, HistoryEntry, HistoryList};

fn history_entries(n: usize) -> Vec<HistoryEntry> {
    (0..n)
        .map(|i| HistoryEntry {
            id: format!("id-{i}"),
            method: "GET".to_string(),
            url: format!("https://api.example.com/v1/resource/{i}"),
            headers: None,
            body: None,
            response_status: Some(200),
            response_headers: None,
            response_body: None,
            response_time_ms: Some(12),
            response_size: Some(128),
        })
        .collect()
}

fn copy(e: &HistoryEntry) -> HistoryEntry {
    HistoryEntry {
        id: e.id.clone(),
        method: e.method.clone(),
        url: e.url.clone(),
        headers: e.headers.clone(),
        body: e.body.clone(),
        response_status: e.response_status,
        response_headers: e.response_headers.clone(),
        response_body: e.response_body.clone(),
        response_time_ms: e.response_time_ms,
        response_size: e.response_size,
    }
}

#[test]
fn history_row_labels_match_derived_text() {
    let mut entries = history_entries(3);
    entries[0].response_time_ms = None;
    entries[1].response_status = None;
    entries[2].response_time_ms = Some(1500);
    entries[2].response_status = Some(404);
    let list = HistoryList::new(entries.iter().map(copy).collect());

    for (entry, row) in entries.iter().zip(list.rows.iter()) {
        assert_eq!(row.element_id, format!("history-row-{}", entry.id));
        assert_eq!(row.method, entry.method);
        assert_eq!(row.url, entry.url);
        let expected = match entry.response_status {
            Some(status) => format!(
                "{} ({})",
                status,
                entry.response_time_ms.map(format_response_time).unwrap_or_default()
            ),
            None => String::new(),
        };
        assert_eq!(row.status_line, expected);
    }
}

#[test]
fn history_status_line_exact_values() {
    let mut entries = history_entries(2);
    entries[0].response_status = Some(404);
    entries[0].response_time_ms = Some(1500);
    entries[1].response_time_ms = None;
    let list = HistoryList::new(entries);
    assert_eq!(list.rows[0].status_line, "404 (1500ms)");
    assert_eq!(list.rows[1].status_line, "200 ()");
    assert_eq!(list.rows[1].element_id, "history-row-id-1");
    assert_eq!(list.entries.len(), 2);
    assert_eq!(format_response_time(-3), "-3ms");
    assert_eq!(format_response_time(0), "0ms");
}
