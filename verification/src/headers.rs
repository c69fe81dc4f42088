//! The request-header table.
use vstd::prelude::*;

verus! {

/// One row of the header table.
pub struct HeaderEntry {
    pub key: String,
    pub value: String,
    pub enabled: bool,
}

impl HeaderEntry {
    /// An empty, enabled row.
    pub fn new() -> (h: HeaderEntry)
        ensures
            h.key@.len() == 0,
            h.value@.len() == 0,
            h.enabled,
    {
        HeaderEntry { key: String::new(), value: String::new(), enabled: true }
    }

    /// The row's key and value.
    pub fn get_key_value(&self) -> (r: (String, String))
        ensures
            r.0 == self.key,
            r.1 == self.value,
    {
        (self.key.clone(), self.value.clone())
    }
}

/// The header table.
pub struct HeadersState {
    pub headers: Vec<HeaderEntry>,
}

/// A row is sent when it is enabled and its key is not empty.
pub open spec fn is_sent_header(h: HeaderEntry) -> bool {
    h.enabled && h.key@.len() > 0
}

/// The `(key, value)` pairs of the rows that are sent, in table order.
pub open spec fn sent_headers(hs: Seq<HeaderEntry>) -> Seq<(Seq<char>, Seq<char>)>
    decreases hs.len(),
{
    if hs.len() == 0 {
        Seq::empty()
    } else {
        let prev = sent_headers(hs.drop_last());
        if is_sent_header(hs.last()) {
            prev.push((hs.last().key@, hs.last().value@))
        } else {
            prev
        }
    }
}

/// The `(key, value)` pairs of the rows that are sent, in table order.
pub fn enabled_headers(hs: &Vec<HeaderEntry>) -> (r: Vec<(String, String)>)
    ensures
        r@.map_values(|p: (String, String)| (p.0@, p.1@)) == sent_headers(hs@),
{
    let mut out: Vec<(String, String)> = Vec::new();
    let mut i: usize = 0;
    while i < hs.len()
        invariant
            i <= hs@.len(),
            out@.map_values(|p: (String, String)| (p.0@, p.1@)) == sent_headers(hs@.take(i as int)),
        decreases hs@.len() - i,
    {
        assert(hs@.take(i + 1).drop_last() =~= hs@.take(i as int));
        let h = &hs[i];
        if h.enabled && !h.key.as_str().is_empty() {
            let ghost before = out@;
            out.push(h.get_key_value());
            assert(out@.map_values(|p: (String, String)| (p.0@, p.1@)) =~= before.map_values(
                |p: (String, String)| (p.0@, p.1@),
            ).push((h.key@, h.value@)));
        }
        i += 1;
    }
    assert(hs@.take(hs@.len() as int) =~= hs@);
    out
}

impl Default for HeadersState {
    /// An empty table.
    fn default() -> (s: HeadersState)
        ensures
            s.headers@.len() == 0,
    {
        HeadersState { headers: Vec::new() }
    }
}

impl HeadersState {
    /// Adds an empty, enabled row at the end.
    pub fn add_header(&mut self)
        ensures
            final(self).headers@.len() == old(self).headers@.len() + 1,
            final(self).headers@.drop_last() == old(self).headers@,
            final(self).headers@.last().key@.len() == 0,
            final(self).headers@.last().value@.len() == 0,
            final(self).headers@.last().enabled,
    {
        self.headers.push(HeaderEntry::new());
        assert(self.headers@.drop_last() =~= old(self).headers@);
    }

    /// Removes a row; an index past the end changes nothing.
    pub fn remove_header(&mut self, index: usize)
        ensures
            final(self).headers@ == if index < old(self).headers@.len() {
                old(self).headers@.remove(index as int)
            } else {
                old(self).headers@
            },
    {
        if index < self.headers.len() {
            self.headers.remove(index);
        }
    }

    /// Switches a row on or off; an index past the end changes nothing.
    pub fn toggle_header(&mut self, index: usize)
        ensures
            final(self).headers@.len() == old(self).headers@.len(),
            forall|j: int| 0 <= j < old(self).headers@.len() && j != index ==> final(self).headers@[j] == old(self).headers@[j],
            index < old(self).headers@.len() ==> final(self).headers@[index as int] == (HeaderEntry {
                enabled: !old(self).headers@[index as int].enabled,
                ..old(self).headers@[index as int]
            }),
    {
        if index < self.headers.len() {
            let mut h = self.headers.remove(index);
            h.enabled = !h.enabled;
            self.headers.insert(index, h);
            assert forall|j: int| 0 <= j < old(self).headers@.len() && j != index implies self.headers@[j] == old(self).headers@[j] by {
                if j < index {
                } else {
                }
            }
        }
    }

    /// The `(key, value)` pairs of the rows that are sent (see `sent_headers`).
    pub fn get_enabled_headers(&self) -> (r: Vec<(String, String)>)
        ensures
            r@.map_values(|p: (String, String)| (p.0@, p.1@)) == sent_headers(self.headers@),
    {
        enabled_headers(&self.headers)
    }
}

} // verus!
