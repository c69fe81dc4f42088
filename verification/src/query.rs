//! Keeping the URL bar and the query-parameter table of a request in step:
//! reading `?k=v&...` into parameters, writing enabled parameters back into the
//! URL, and the URL a request is finally sent to.
use vstd::prelude::*;
use crate::outside::{url_decode, url_encode};
use crate::percent::{decoded_or_raw, lemma_url_roundtrip, url_encoded};
use crate::text::{
    append_chars, append_str, chars_of, find_char, index_of, lemma_index_of, lemma_index_of_is,
    lemma_index_of_none, lemma_split_by_append, lemma_split_by_none, slice_chars, split_by,
    split_chars, string_from_chars,
};

verus! {

/// One row of the query-parameter table.
pub struct ParamEntry {
    pub key: String,
    pub value: String,
    pub enabled: bool,
}

/// The URL without its query: everything before the first `?`.
pub open spec fn base_of(url: Seq<char>) -> Seq<char> {
    match index_of(url, '?') {
        Some(i) => url.take(i),
        None => url,
    }
}

/// The query of a URL: everything after the first `?`, if there is one.
pub open spec fn query_of(url: Seq<char>) -> Option<Seq<char>> {
    match index_of(url, '?') {
        Some(i) => Some(url.skip(i + 1)),
        None => None,
    }
}

/// How a query is read into parameters; the three places that read one differ in how
/// they treat a piece without `=`.
pub enum QueryStyle {
    /// The URL bar: empty pieces skipped; a piece with no `=` is a decoded key with an empty value.
    UrlBar,
    /// An imported cURL command: empty pieces skipped; a piece with no `=` is a key, not decoded,
    /// with an empty value.
    Curl,
    /// A saved request: only pieces holding `=` are read.
    Saved,
}

/// A `key=value` piece read as a parameter: both sides decoded, each kept as written
/// where decoding fails.
pub open spec fn param_of_piece(piece: Seq<char>) -> (Seq<char>, Seq<char>)
    recommends
        index_of(piece, '=') is Some,
{
    let i = index_of(piece, '=').unwrap();
    (decoded_or_raw(piece.take(i)), decoded_or_raw(piece.skip(i + 1)))
}

/// The parameter a piece gives in the given style, if any.
pub open spec fn piece_param(piece: Seq<char>, style: QueryStyle) -> Option<(Seq<char>, Seq<char>)> {
    if index_of(piece, '=') is Some {
        Some(param_of_piece(piece))
    } else {
        match style {
            QueryStyle::UrlBar => if piece.len() == 0 {
                None
            } else {
                Some((decoded_or_raw(piece), Seq::<char>::empty()))
            },
            QueryStyle::Curl => if piece.len() == 0 {
                None
            } else {
                Some((piece, Seq::<char>::empty()))
            },
            QueryStyle::Saved => None,
        }
    }
}

/// The parameters that the pieces of a query give.
pub open spec fn params_of_pieces(pieces: Seq<Seq<char>>, style: QueryStyle) -> Seq<
    (Seq<char>, Seq<char>),
>
    decreases pieces.len(),
{
    if pieces.len() == 0 {
        Seq::empty()
    } else {
        let prev = params_of_pieces(pieces.drop_last(), style);
        match piece_param(pieces.last(), style) {
            Some(p) => prev.push(p),
            None => prev,
        }
    }
}

/// The parameters written in a URL's query.
pub open spec fn url_params(url: Seq<char>, style: QueryStyle) -> Seq<(Seq<char>, Seq<char>)> {
    match query_of(url) {
        Some(q) => params_of_pieces(split_by(q, '&'), style),
        None => Seq::empty(),
    }
}

/// A row goes into the URL when it is enabled and its key is not empty.
pub open spec fn is_sent(p: ParamEntry) -> bool {
    p.enabled && p.key@.len() > 0
}

/// The `(key, value)` pairs of the rows that go into the URL, in table order.
pub open spec fn sent_pairs(ps: Seq<ParamEntry>) -> Seq<(Seq<char>, Seq<char>)>
    decreases ps.len(),
{
    if ps.len() == 0 {
        Seq::empty()
    } else {
        let prev = sent_pairs(ps.drop_last());
        if is_sent(ps.last()) {
            prev.push((ps.last().key@, ps.last().value@))
        } else {
            prev
        }
    }
}

/// `key=value`, both sides percent-encoded.
pub open spec fn pair_text(p: (Seq<char>, Seq<char>)) -> Seq<char> {
    url_encoded(p.0) + seq!['='] + url_encoded(p.1)
}

/// The pairs written as a query: `k1=v1&k2=v2...`.
pub open spec fn query_text(pairs: Seq<(Seq<char>, Seq<char>)>) -> Seq<char>
    decreases pairs.len(),
{
    if pairs.len() == 0 {
        Seq::empty()
    } else if pairs.len() == 1 {
        pair_text(pairs[0])
    } else {
        query_text(pairs.drop_last()) + seq!['&'] + pair_text(pairs.last())
    }
}

/// `base` followed by `?` and the query of `pairs`, or `base` alone when there are none.
pub open spec fn with_query(base: Seq<char>, pairs: Seq<(Seq<char>, Seq<char>)>) -> Seq<char> {
    if pairs.len() == 0 {
        base
    } else {
        base + seq!['?'] + query_text(pairs)
    }
}

/// The URL the table writes into the URL bar: the bar's URL without its query, then the
/// query of the rows that are sent.
pub open spec fn synced_url(current: Seq<char>, ps: Seq<ParamEntry>) -> Seq<char> {
    with_query(base_of(current), sent_pairs(ps))
}

/// Whether `s` starts with `prefix`.
pub open spec fn starts_with(s: Seq<char>, prefix: Seq<char>) -> bool {
    prefix.len() <= s.len() && s.take(prefix.len() as int) == prefix
}

/// `http://`
pub open spec fn http_prefix() -> Seq<char> {
    seq!['h', 't', 't', 'p', ':', '/', '/']
}

/// `https://`
pub open spec fn https_prefix() -> Seq<char> {
    seq!['h', 't', 't', 'p', 's', ':', '/', '/']
}

/// A URL given a scheme: `http://` is put in front of one that has neither `http://` nor `https://`.
pub open spec fn with_scheme(url: Seq<char>) -> Seq<char> {
    if starts_with(url, http_prefix()) || starts_with(url, https_prefix()) {
        url
    } else {
        http_prefix() + url
    }
}

/// The URL a request goes to: scheme added, query of the table, then the API key pair
/// (when it is sent in the query) after `&` or `?`.
pub open spec fn request_url_spec(
    resolved: Seq<char>,
    ps: Seq<ParamEntry>,
    auth_query: Option<(Seq<char>, Seq<char>)>,
) -> Seq<char> {
    let url = synced_url(with_scheme(resolved), ps);
    match auth_query {
        None => url,
        Some(p) => url + (if index_of(url, '?') is Some {
            seq!['&']
        } else {
            seq!['?']
        }) + pair_text(p),
    }
}

/// Reads the parameters written in the query of `url` (after its first `?`) in the given
/// style. Every row comes back enabled.
pub fn params_in_url(url: &str, style: QueryStyle) -> (params: Vec<ParamEntry>)
    ensures
        params@.len() == url_params(url@, style).len(),
        forall|i: int|
            0 <= i < params@.len() ==> {
                &&& (#[trigger] params@[i]).key@ == url_params(url@, style)[i].0
                &&& params@[i].value@ == url_params(url@, style)[i].1
                &&& params@[i].enabled
            },
{
    let mut params: Vec<ParamEntry> = Vec::new();
    let cs = chars_of(url);
    let q = match find_char(&cs, '?') {
        Some(i) => slice_chars(&cs, i + 1, cs.len()),
        None => {
            return params;
        },
    };
    assert(q@ =~= url@.skip(index_of(url@, '?').unwrap() + 1));
    let pieces = split_chars(&q, '&');
    let ghost ps = split_by(q@, '&');
    let mut k: usize = 0;
    while k < pieces.len()
        invariant
            k <= pieces@.len() == ps.len(),
            forall|j: int| 0 <= j < pieces@.len() ==> #[trigger] pieces@[j]@ == ps[j],
            params@.len() == params_of_pieces(ps.take(k as int), style).len(),
            forall|i: int|
                0 <= i < params@.len() ==> {
                    &&& (#[trigger] params@[i]).key@ == params_of_pieces(ps.take(k as int), style)[i].0
                    &&& params@[i].value@ == params_of_pieces(ps.take(k as int), style)[i].1
                    &&& params@[i].enabled
                },
        decreases pieces@.len() - k,
    {
        assert(ps.take(k + 1).drop_last() =~= ps.take(k as int));
        let piece = &pieces[k];
        match param_of(piece, &style) {
            Some((key, value)) => {
                params.push(ParamEntry { key, value, enabled: true });
            },
            None => {},
        }
        k += 1;
    }
    assert(ps.take(pieces@.len() as int) =~= ps);
    params
}

/// The URL bar's query read into parameter rows (typing in the URL bar replaces the table
/// with these rows).
pub fn parse_url_to_params(url: &str) -> (params: Vec<ParamEntry>)
    ensures
        params@.len() == url_params(url@, QueryStyle::UrlBar).len(),
        forall|i: int|
            0 <= i < params@.len() ==> {
                &&& (#[trigger] params@[i]).key@ == url_params(url@, QueryStyle::UrlBar)[i].0
                &&& params@[i].value@ == url_params(url@, QueryStyle::UrlBar)[i].1
                &&& params@[i].enabled
            },
{
    params_in_url(url, QueryStyle::UrlBar)
}

/// The URL of an imported cURL command split into the URL without its query and the rows
/// its query gives.
pub fn split_curl_url(url: &str) -> (r: (String, Vec<ParamEntry>))
    ensures
        r.0@ == base_of(url@),
        r.1@.len() == url_params(url@, QueryStyle::Curl).len(),
        forall|i: int|
            0 <= i < r.1@.len() ==> {
                &&& (#[trigger] r.1@[i]).key@ == url_params(url@, QueryStyle::Curl)[i].0
                &&& r.1@[i].value@ == url_params(url@, QueryStyle::Curl)[i].1
                &&& r.1@[i].enabled
            },
{
    let cs = chars_of(url);
    let base = base_chars(&cs);
    (string_from_chars(&base), params_in_url(url, QueryStyle::Curl))
}

/// `decoded_or_raw` of the text `v`.
fn decode_or_keep(v: &Vec<char>) -> (r: String)
    ensures
        r@ == decoded_or_raw(v@),
{
    let raw = string_from_chars(v);
    match url_decode(raw.as_str()) {
        Some(t) => t,
        None => raw,
    }
}

/// The parameter one piece gives in the given style.
fn param_of(piece: &Vec<char>, style: &QueryStyle) -> (r: Option<(String, String)>)
    ensures
        match r {
            Some(p) => piece_param(piece@, *style) == Some((p.0@, p.1@)),
            None => piece_param(piece@, *style) is None,
        },
{
    let found = find_char(piece, '=');
    match found {
        Some(i) => {
            assert(i < piece.len());
            let k = slice_chars(piece, 0, i);
            let v = slice_chars(piece, i + 1, piece.len());
            assert(k@ =~= piece@.take(i as int));
            assert(v@ =~= piece@.skip(i + 1));
            Some((decode_or_keep(&k), decode_or_keep(&v)))
        },
        None => {
            if piece.len() == 0 {
                return None;
            }
            match style {
                QueryStyle::UrlBar => Some((decode_or_keep(piece), String::new())),
                QueryStyle::Curl => Some((string_from_chars(piece), String::new())),
                QueryStyle::Saved => None,
            }
        },
    }
}

/// Appends the query of the rows that are sent (without the leading `?`).
fn push_query(out: &mut Vec<char>, params: &Vec<ParamEntry>) -> (any: bool)
    ensures
        any == (sent_pairs(params@).len() > 0),
        final(out)@ == old(out)@ + query_text(sent_pairs(params@)),
{
    let mut any = false;
    let mut i: usize = 0;
    while i < params.len()
        invariant
            i <= params@.len(),
            any == (sent_pairs(params@.take(i as int)).len() > 0),
            out@ == old(out)@ + query_text(sent_pairs(params@.take(i as int))),
        decreases params@.len() - i,
    {
        assert(params@.take(i + 1).drop_last() =~= params@.take(i as int));
        let p = &params[i];
        if p.enabled && !p.key.as_str().is_empty() {
            if any {
                out.push('&');
            }
            let ek = chars_of(url_encode(p.key.as_str()).as_str());
            let ev = chars_of(url_encode(p.value.as_str()).as_str());
            append_chars(out, &ek);
            out.push('=');
            append_chars(out, &ev);
            any = true;
            proof {
                let prev = sent_pairs(params@.take(i as int));
                let now = sent_pairs(params@.take(i + 1));
                assert(now == prev.push((p.key@, p.value@)));
                if prev.len() > 0 {
                    assert(now.drop_last() =~= prev);
                    assert(query_text(now) == query_text(prev) + seq!['&'] + pair_text(now.last()));
                } else {
                    assert(now.len() == 1);
                    assert(query_text(now) == pair_text(now[0]));
                }
            }
            assert(out@ =~= old(out)@ + query_text(sent_pairs(params@.take(i + 1))));
        }
        i += 1;
    }
    assert(params@.take(params@.len() as int) =~= params@);
    any
}

/// `base` followed by the query of the rows that are sent.
fn with_params(base: Vec<char>, params: &Vec<ParamEntry>) -> (r: Vec<char>)
    ensures
        r@ == with_query(base@, sent_pairs(params@)),
{
    let mut out = base;
    let ghost b = out@;
    out.push('?');
    let any = push_query(&mut out, params);
    if any {
        assert(out@ =~= b + seq!['?'] + query_text(sent_pairs(params@)));
        out
    } else {
        let mut r = out;
        r.pop();
        assert(query_text(sent_pairs(params@)) =~= Seq::<char>::empty());
        assert(r@ =~= b);
        r
    }
}

/// The characters before the first `?`.
fn base_chars(cs: &Vec<char>) -> (r: Vec<char>)
    ensures
        r@ == base_of(cs@),
{
    match find_char(cs, '?') {
        Some(i) => {
            let r = slice_chars(cs, 0, i);
            assert(r@ =~= cs@.take(i as int));
            r
        },
        None => slice_chars(cs, 0, cs.len()),
    }
}

/// The URL that the parameter table writes back into the URL bar: `current_url` without its
/// query, then `?` and `key=value` of each enabled row with a key, percent-encoded and
/// joined by `&`.
pub fn sync_params_to_url(current_url: &str, params: &Vec<ParamEntry>) -> (url: String)
    ensures
        url@ == synced_url(current_url@, params@),
{
    let cs = chars_of(current_url);
    let base = base_chars(&cs);
    let out = with_params(base, params);
    string_from_chars(&out)
}

pub(crate) fn starts_with_chars(v: &Vec<char>, prefix: &str) -> (r: bool)
    ensures
        r == starts_with(v@, prefix@),
{
    let p = chars_of(prefix);
    if p.len() > v.len() {
        assert(!(prefix@.len() <= v@.len()));
        return false;
    }
    let mut i: usize = 0;
    while i < p.len()
        invariant
            i <= p.len() <= v.len(),
            p@ == prefix@,
            forall|j: int| 0 <= j < i ==> v@[j] == p@[j],
        decreases p.len() - i,
    {
        if v[i] != p[i] {
            assert(v@.take(p@.len() as int)[i as int] == v@[i as int]);
            assert(v@.take(p@.len() as int) != prefix@);
            return false;
        }
        i += 1;
    }
    assert(v@.take(p@.len() as int) =~= p@);
    true
}

/// The URL a request is sent to: `http://` put in front when the URL has no `http://` or
/// `https://`, the query replaced by that of the enabled rows, and the API key pair (when
/// the key is sent in the query) appended after `&`, or after `?` when there is no query.
pub fn request_url(
    resolved_url: &str,
    params: &Vec<ParamEntry>,
    auth_query: &Option<(String, String)>,
) -> (url: String)
    ensures
        url@ == request_url_spec(
            resolved_url@,
            params@,
            match auth_query {
                Some(p) => Some((p.0@, p.1@)),
                None => None,
            },
        ),
{
    let cs = chars_of(resolved_url);
    proof {
        reveal_strlit("http://");
        reveal_strlit("https://");
        assert("http://"@ =~= http_prefix());
        assert("https://"@ =~= https_prefix());
    }
    let with_http = if starts_with_chars(&cs, "http://") || starts_with_chars(&cs, "https://") {
        cs
    } else {
        let mut w = chars_of("http://");
        append_chars(&mut w, &cs);
        w
    };
    assert(with_http@ == with_scheme(resolved_url@));
    let base = base_chars(&with_http);
    let mut out = with_params(base, params);
    match auth_query {
        Some((k, v)) => {
            let has_query = find_char(&out, '?').is_some();
            if has_query {
                out.push('&');
            } else {
                out.push('?');
            }
            let ek = chars_of(url_encode(k.as_str()).as_str());
            let ev = chars_of(url_encode(v.as_str()).as_str());
            append_chars(&mut out, &ek);
            out.push('=');
            append_chars(&mut out, &ev);
        },
        None => {},
    }
    string_from_chars(&out)
}

/// `index_of` in `a + b` where `a` does not hold `c`.
proof fn lemma_index_of_after(a: Seq<char>, b: Seq<char>, c: char)
    requires
        forall|j: int| 0 <= j < a.len() ==> a[j] != c,
        b.len() > 0,
        b[0] == c,
    ensures
        index_of(a + b, c) == Some(a.len() as int),
{
    let s = a + b;
    assert(s[a.len() as int] == c);
    assert forall|j: int| 0 <= j < a.len() implies s[j] != c by {
        assert(s[j] == a[j]);
    }
    lemma_index_of_is(s, c, a.len() as int);
}

/// A pair written as `key=value` reads back as the same pair.
proof fn lemma_pair_roundtrip(p: (Seq<char>, Seq<char>))
    ensures
        index_of(pair_text(p), '=') is Some,
        param_of_piece(pair_text(p)) == p,
        pair_text(p).len() > 0,
        forall|j: int| 0 <= j < pair_text(p).len() ==> #[trigger] pair_text(p)[j] != '&',
{
    lemma_url_roundtrip(p.0);
    lemma_url_roundtrip(p.1);
    let ek = url_encoded(p.0);
    let ev = url_encoded(p.1);
    let t = pair_text(p);
    assert(t == ek + (seq!['='] + ev));
    lemma_index_of_after(ek, seq!['='] + ev, '=');
    assert(t.take(ek.len() as int) =~= ek);
    assert(t.skip(ek.len() as int + 1) =~= ev);
    assert forall|j: int| 0 <= j < t.len() implies #[trigger] t[j] != '&' by {
        if j < ek.len() {
            assert(t[j] == ek[j]);
        } else if j > ek.len() {
            assert(t[j] == ev[j - ek.len() - 1]);
        }
    }
}

/// Splitting a written query at `&` gives back the written pairs.
proof fn lemma_split_query(pairs: Seq<(Seq<char>, Seq<char>)>)
    requires
        pairs.len() > 0,
    ensures
        split_by(query_text(pairs), '&') == pairs.map_values(|p: (Seq<char>, Seq<char>)| pair_text(p)),
    decreases pairs.len(),
{
    lemma_pair_roundtrip(pairs.last());
    if pairs.len() == 1 {
        lemma_split_by_none(pair_text(pairs[0]), '&');
        assert(pairs.map_values(|p: (Seq<char>, Seq<char>)| pair_text(p)) =~= seq![pair_text(pairs[0])]);
    } else {
        lemma_split_query(pairs.drop_last());
        lemma_split_by_append(query_text(pairs.drop_last()), pair_text(pairs.last()), '&');
        assert(pairs.map_values(|p: (Seq<char>, Seq<char>)| pair_text(p)) =~= pairs.drop_last().map_values(
            |p: (Seq<char>, Seq<char>)| pair_text(p),
        ).push(pair_text(pairs.last())));
    }
}

/// Reading the written pieces gives back the pairs.
proof fn lemma_params_of_written(pairs: Seq<(Seq<char>, Seq<char>)>, style: QueryStyle)
    ensures
        params_of_pieces(pairs.map_values(|p: (Seq<char>, Seq<char>)| pair_text(p)), style) == pairs,
    decreases pairs.len(),
{
    let pieces = pairs.map_values(|p: (Seq<char>, Seq<char>)| pair_text(p));
    if pairs.len() > 0 {
        lemma_params_of_written(pairs.drop_last(), style);
        lemma_pair_roundtrip(pairs.last());
        assert(pieces.drop_last() =~= pairs.drop_last().map_values(
            |p: (Seq<char>, Seq<char>)| pair_text(p),
        ));
        assert(pieces.last() == pair_text(pairs.last()));
        assert(pairs.drop_last().push(pairs.last()) =~= pairs);
    } else {
        assert(pairs =~= Seq::<(Seq<char>, Seq<char>)>::empty());
    }
}

/// Law: reading back the URL that the parameter table wrote gives exactly the rows that are
/// sent (enabled, with a key), with their keys and values, in table order — whatever
/// characters they hold, since keys and values are percent-encoded on the way out. This
/// holds for each of the three ways a query is read.
pub proof fn law_url_params_roundtrip(
    current_url: Seq<char>,
    params: Seq<ParamEntry>,
    style: QueryStyle,
)
    ensures
        url_params(synced_url(current_url, params), style) == sent_pairs(params),
{
    let base = base_of(current_url);
    lemma_index_of(current_url, '?');
    assert forall|j: int| 0 <= j < base.len() implies base[j] != '?' by {
        if let Some(i) = index_of(current_url, '?') {
            assert(base[j] == current_url[j]);
        }
    }
    let pairs = sent_pairs(params);
    let url = synced_url(current_url, params);
    if pairs.len() == 0 {
        lemma_index_of_none(base, '?');
    } else {
        let rest = seq!['?'] + query_text(pairs);
        assert(url == base + rest);
        lemma_index_of_after(base, rest, '?');
        assert(url.skip(base.len() as int + 1) =~= query_text(pairs));
        lemma_split_query(pairs);
        lemma_params_of_written(pairs, style);
    }
}

} // verus!
