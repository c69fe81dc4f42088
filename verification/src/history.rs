//! The request history shown in the sidebar: its entries and the labels each row shows.
use vstd::prelude::*;
use crate::text::{append_str, chars_of, push_signed_decimal, signed_decimal, string_from_chars};

verus! {

/// A request sent earlier, as the history keeps it.
pub struct HistoryEntry {
    pub id: String,
    pub method: String,
    pub url: String,
    pub headers: Option<String>,
    pub body: Option<String>,
    pub response_status: Option<i32>,
    pub response_headers: Option<String>,
    pub response_body: Option<String>,
    pub response_time_ms: Option<i64>,
    pub response_size: Option<i64>,
}

/// The labels a history row shows.
pub struct HistoryRow {
    /// `history-row-<id>`
    pub element_id: String,
    pub method: String,
    pub url: String,
    /// `<status> (<time>)`, or empty without a status.
    pub status_line: String,
}

/// The history entries with the labels of their rows.
pub struct HistoryList {
    pub entries: Vec<HistoryEntry>,
    pub rows: Vec<HistoryRow>,
}

/// A response time as shown: the milliseconds followed by `ms`.
pub open spec fn response_time_text(t: i64) -> Seq<char> {
    signed_decimal(t as int) + "ms"@
}

/// The status line of an entry: the status, a space, and the response time in brackets (empty
/// brackets without a time); nothing without a status.
pub open spec fn status_line_of(e: HistoryEntry) -> Seq<char> {
    match e.response_status {
        Some(s) => signed_decimal(s as int) + " ("@ + match e.response_time_ms {
            Some(t) => response_time_text(t),
            None => Seq::empty(),
        } + ")"@,
        None => Seq::empty(),
    }
}

/// The row of an entry: `history-row-` and the id, the method, the URL and the status line.
pub open spec fn is_row_of(r: HistoryRow, e: HistoryEntry) -> bool {
    &&& r.element_id@ == "history-row-"@ + e.id@
    &&& r.method@ == e.method@
    &&& r.url@ == e.url@
    &&& r.status_line@ == status_line_of(e)
}

/// A response time as shown (see `response_time_text`).
pub fn format_response_time(t: i64) -> (r: String)
    ensures
        r@ == response_time_text(t),
{
    let mut v: Vec<char> = Vec::new();
    push_signed_decimal(&mut v, t);
    append_str(&mut v, "ms");
    string_from_chars(&v)
}

fn row_of(e: &HistoryEntry) -> (r: HistoryRow)
    ensures
        is_row_of(r, *e),
{
    let mut id = chars_of("history-row-");
    append_str(&mut id, e.id.as_str());
    let status_line = match e.response_status {
        Some(s) => {
            let mut v: Vec<char> = Vec::new();
            push_signed_decimal(&mut v, s as i64);
            append_str(&mut v, " (");
            match e.response_time_ms {
                Some(t) => {
                    let tt = format_response_time(t);
                    append_str(&mut v, tt.as_str());
                },
                None => {},
            }
            append_str(&mut v, ")");
            string_from_chars(&v)
        },
        None => String::new(),
    };
    HistoryRow {
        element_id: string_from_chars(&id),
        method: e.method.clone(),
        url: e.url.clone(),
        status_line,
    }
}

impl HistoryList {
    /// The entries with one row of labels each, in the same order.
    pub fn new(entries: Vec<HistoryEntry>) -> (l: HistoryList)
        ensures
            l.entries@ == entries@,
            l.rows@.len() == entries@.len(),
            forall|i: int| 0 <= i < entries@.len() ==> is_row_of(#[trigger] l.rows@[i], entries@[i]),
    {
        let mut rows: Vec<HistoryRow> = Vec::new();
        let mut i: usize = 0;
        while i < entries.len()
            invariant
                i <= entries@.len(),
                rows@.len() == i,
                forall|k: int| 0 <= k < i ==> is_row_of(#[trigger] rows@[k], entries@[k]),
            decreases entries@.len() - i,
        {
            let r = row_of(&entries[i]);
            rows.push(r);
            i += 1;
        }
        HistoryList { entries, rows }
    }
}

} // verus!
