//! The response body prepared for display: JSON (by content type or first character) as one
//! block of text with coloured runs, anything else as plain text.
use vstd::prelude::*;
use vstd::utf8::{encode_scalar, encode_utf8};
use crate::highlight::{
    false_word, is_digit, is_digit_exec, is_json_ws, keyword_at, keyword_at_exec, lemma_number_end,
    lemma_string_end, null_word, number_end, scan_number_end, scan_string_end, string_end,
    true_word, JsonColor,
};
use crate::json::{pretty_json_or_same, pretty_or_same};
use crate::text::{
    ascii_lower, ascii_lower_chars, chars_of, contains, contains_str, string_from_chars, trim_start,
    trim_start_chars,
};

verus! {

/// Text drawn in coloured runs: each run is a number of UTF-8 bytes of the text and its colour.
pub struct StyledBody {
    pub text: String,
    pub runs: Vec<(usize, JsonColor)>,
}

/// A response body ready to draw: plain text (`plain`), or JSON text with colours (`styled`,
/// then `plain` is `None`; otherwise `styled` is empty).
pub struct HighlightedBody {
    pub plain: Option<String>,
    pub styled: StyledBody,
}

/// The first position from `j` on that holds no white space (the length when none does).
pub open spec fn next_solid(s: Seq<char>, j: int) -> int
    decreases s.len() - j,
{
    if j < 0 || j >= s.len() {
        s.len() as int
    } else if is_json_ws(s[j]) {
        next_solid(s, j + 1)
    } else {
        j
    }
}

/// The token that starts at `i`: where it ends, and its colour (`None` for white space, which
/// takes the colour before it). A string is a key when the next thing after it is `:`; a
/// number starts with a digit or `-`; `true`, `false` and `null` are words of their own; any
/// other character is punctuation.
pub open spec fn token_at(s: Seq<char>, i: int) -> (int, Option<JsonColor>) {
    let c = s[i];
    if is_json_ws(c) {
        (i + 1, None)
    } else if c == '"' {
        let j = string_end(s, i + 1);
        let n = next_solid(s, j);
        (j, Some(if n < s.len() && s[n] == ':' { JsonColor::Key } else { JsonColor::String }))
    } else if is_digit(c) || c == '-' {
        (number_end(s, i + 1), Some(JsonColor::Number))
    } else if keyword_at(s, i, true_word()) {
        (i + 4, Some(JsonColor::Boolean))
    } else if keyword_at(s, i, false_word()) {
        (i + 5, Some(JsonColor::Boolean))
    } else if keyword_at(s, i, null_word()) {
        (i + 4, Some(JsonColor::Null))
    } else {
        (i + 1, Some(JsonColor::Bracket))
    }
}

/// The colour of each character from position `i` on, white space taking `prev` (the colour
/// before it).
pub open spec fn colors_from(s: Seq<char>, i: int, prev: JsonColor) -> Seq<JsonColor>
    decreases s.len() - i,
{
    if i < 0 || i >= s.len() {
        Seq::empty()
    } else {
        let (j, c) = token_at(s, i);
        let col = match c {
            Some(x) => x,
            None => prev,
        };
        if j <= i || j > s.len() {
            Seq::empty()
        } else {
            Seq::new((j - i) as nat, |k: int| col) + colors_from(s, j, col)
        }
    }
}

/// The colour of each character of JSON text (white space at the start is punctuation).
pub open spec fn char_colors(s: Seq<char>) -> Seq<JsonColor> {
    colors_from(s, 0, JsonColor::Bracket)
}

/// The number of UTF-8 bytes of a character.
pub open spec fn utf8_width(c: char) -> nat {
    encode_scalar(c as u32).len()
}

/// Consecutive characters of one colour grouped into runs of (UTF-8 bytes, colour).
pub open spec fn group_runs(cs: Seq<char>, colors: Seq<JsonColor>) -> Seq<(nat, JsonColor)>
    decreases cs.len(),
{
    if cs.len() == 0 || colors.len() != cs.len() {
        Seq::empty()
    } else {
        let g = group_runs(cs.drop_last(), colors.drop_last());
        let w = utf8_width(cs.last());
        let k = colors.last();
        if g.len() > 0 && g.last().1 == k {
            g.update(g.len() - 1, (g.last().0 + w, k))
        } else {
            g.push((w, k))
        }
    }
}

/// A body is shown as JSON when its content type mentions `json` (in any case) or its text
/// starts, after white space, with `{` or `[`.
pub open spec fn looks_like_json(body: Seq<char>, content_type: Option<Seq<char>>) -> bool {
    (content_type matches Some(ct) && contains(ascii_lower(ct), "json"@)) || (trim_start(body).len() > 0
        && (trim_start(body)[0] == '{' || trim_start(body)[0] == '['))
}

proof fn lemma_token_at(s: Seq<char>, i: int)
    requires
        0 <= i < s.len(),
    ensures
        i < token_at(s, i).0 <= s.len(),
{
    let c = s[i];
    if c == '"' {
        lemma_string_end(s, i + 1);
    } else if is_digit(c) || c == '-' {
        lemma_number_end(s, i + 1);
    }
}

fn next_solid_exec(s: &Vec<char>, j0: usize) -> (n: usize)
    requires
        j0 <= s.len(),
    ensures
        n == next_solid(s@, j0 as int),
{
    let mut j = j0;
    while j < s.len() && (s[j] == ' ' || s[j] == '\t' || s[j] == '\n' || s[j] == '\r')
        invariant
            j0 <= j <= s.len(),
            next_solid(s@, j as int) == next_solid(s@, j0 as int),
        decreases s.len() - j,
    {
        j += 1;
    }
    j
}

fn token_at_exec(s: &Vec<char>, i: usize) -> (r: (usize, Option<JsonColor>))
    requires
        i < s.len(),
    ensures
        r.0 == token_at(s@, i as int).0,
        r.1 == token_at(s@, i as int).1,
{
    proof {
        lemma_token_at(s@, i as int);
        reveal_strlit("true");
        reveal_strlit("false");
        reveal_strlit("null");
        assert("true"@ =~= true_word());
        assert("false"@ =~= false_word());
        assert("null"@ =~= null_word());
    }
    let c = s[i];
    if c == ' ' || c == '\t' || c == '\n' || c == '\r' {
        (i + 1, None)
    } else if c == '"' {
        proof {
            lemma_string_end(s@, i + 1);
        }
        let j = scan_string_end(s, i + 1);
        let n = next_solid_exec(s, j);
        let color = if n < s.len() && s[n] == ':' { JsonColor::Key } else { JsonColor::String };
        (j, Some(color))
    } else if is_digit_exec(c) || c == '-' {
        (scan_number_end(s, i + 1), Some(JsonColor::Number))
    } else if keyword_at_exec(s, i, "true") {
        (i + 4, Some(JsonColor::Boolean))
    } else if keyword_at_exec(s, i, "false") {
        (i + 5, Some(JsonColor::Boolean))
    } else if keyword_at_exec(s, i, "null") {
        (i + 4, Some(JsonColor::Null))
    } else {
        (i + 1, Some(JsonColor::Bracket))
    }
}

proof fn lemma_colors_len(s: Seq<char>, i: int, prev: JsonColor)
    requires
        0 <= i <= s.len(),
    ensures
        colors_from(s, i, prev).len() == s.len() - i,
    decreases s.len() - i,
{
    if i < s.len() {
        lemma_token_at(s, i);
        let (j, c) = token_at(s, i);
        let col = match c {
            Some(x) => x,
            None => prev,
        };
        lemma_colors_len(s, j, col);
    }
}

/// The colour of each character of JSON text (see `char_colors`).
fn colors_of(s: &Vec<char>) -> (colors: Vec<JsonColor>)
    ensures
        colors@ == char_colors(s@),
        colors@.len() == s@.len(),
{
    proof {
        lemma_colors_len(s@, 0, JsonColor::Bracket);
    }
    let mut colors: Vec<JsonColor> = Vec::new();
    let mut prev = JsonColor::Bracket;
    let mut i: usize = 0;
    while i < s.len()
        invariant
            i <= s@.len(),
            colors@ + colors_from(s@, i as int, prev) == char_colors(s@),
        decreases s@.len() - i,
    {
        proof {
            lemma_token_at(s@, i as int);
        }
        let (j, c) = token_at_exec(s, i);
        let col = match c {
            Some(x) => x,
            None => prev,
        };
        let ghost before = colors@;
        let mut k = i;
        while k < j
            invariant
                i <= k <= j <= s@.len(),
                colors@ == before + Seq::new((k - i) as nat, |m: int| col),
            decreases j - k,
        {
            colors.push(col);
            k += 1;
            assert(colors@ =~= before + Seq::new((k - i) as nat, |m: int| col));
        }
        assert(colors_from(s@, i as int, prev) == Seq::new((j - i) as nat, |m: int| col) + colors_from(s@, j as int, col));
        assert(colors@ + colors_from(s@, j as int, col) =~= before + colors_from(s@, i as int, prev));
        prev = col;
        i = j;
    }
    assert(colors@ + colors_from(s@, i as int, prev) =~= colors@);
    colors
}

fn utf8_width_exec(c: char) -> (w: usize)
    ensures
        w == utf8_width(c),
        1 <= w <= 4,
{
    proof {
        vstd::utf8::char_is_scalar(c);
    }
    let v = c as u32;
    if v < 0x80 {
        1
    } else if v < 0x800 {
        2
    } else if v < 0x10000 {
        3
    } else {
        4
    }
}

proof fn lemma_utf8_push(s: Seq<char>, c: char)
    ensures
        encode_utf8(s.push(c)).len() == encode_utf8(s).len() + utf8_width(c),
    decreases s.len(),
{
    if s.len() > 0 {
        lemma_utf8_push(s.drop_first(), c);
        assert(s.push(c).drop_first() =~= s.drop_first().push(c));
        assert(s.push(c)[0] == s[0]);
        assert(encode_utf8(s.push(c)) == encode_scalar(s[0] as u32) + encode_utf8(s.drop_first().push(c)));
        assert(encode_utf8(s) == encode_scalar(s[0] as u32) + encode_utf8(s.drop_first()));
    } else {
        assert(s.push(c).drop_first() =~= Seq::<char>::empty());
        assert(s.push(c)[0] == c);
        assert(encode_utf8(s.push(c)) == encode_scalar(c as u32) + encode_utf8(Seq::<char>::empty()));
        assert(encode_utf8(s) =~= Seq::<u8>::empty());
    }
}

/// The total of the run lengths.
pub open spec fn runs_total(rs: Seq<(nat, JsonColor)>) -> nat
    decreases rs.len(),
{
    if rs.len() == 0 {
        0
    } else {
        runs_total(rs.drop_last()) + rs.last().0
    }
}

proof fn lemma_runs_total_update(rs: Seq<(nat, JsonColor)>, w: nat, k: JsonColor)
    requires
        rs.len() > 0,
    ensures
        runs_total(rs.update(rs.len() - 1, (rs.last().0 + w, k))) == runs_total(rs) + w,
{
    assert(rs.update(rs.len() - 1, (rs.last().0 + w, k)).drop_last() =~= rs.drop_last());
}

/// Groups characters of one colour into runs (see `group_runs`); the total of the runs is the
/// text's UTF-8 length.
fn group_into_runs(cs: &Vec<char>, colors: &Vec<JsonColor>) -> (runs: Vec<(usize, JsonColor)>)
    requires
        cs@.len() == colors@.len(),
        encode_utf8(cs@).len() <= usize::MAX,
    ensures
        runs@.map_values(|r: (usize, JsonColor)| (r.0 as nat, r.1)) == group_runs(cs@, colors@),
        runs_total(group_runs(cs@, colors@)) == encode_utf8(cs@).len(),
{
    let mut runs: Vec<(usize, JsonColor)> = Vec::new();
    let mut i: usize = 0;
    while i < cs.len()
        invariant
            i <= cs@.len() == colors@.len(),
            encode_utf8(cs@).len() <= usize::MAX,
            runs@.map_values(|r: (usize, JsonColor)| (r.0 as nat, r.1)) == group_runs(cs@.take(i as int), colors@.take(i as int)),
            runs_total(group_runs(cs@.take(i as int), colors@.take(i as int))) == encode_utf8(cs@.take(i as int)).len(),
        decreases cs@.len() - i,
    {
        let ghost g = group_runs(cs@.take(i as int), colors@.take(i as int));
        assert(cs@.take(i + 1).drop_last() =~= cs@.take(i as int));
        assert(colors@.take(i + 1).drop_last() =~= colors@.take(i as int));
        let w = utf8_width_exec(cs[i]);
        proof {
            lemma_utf8_push(cs@.take(i as int), cs@[i as int]);
            assert(cs@.take(i as int).push(cs@[i as int]) =~= cs@.take(i + 1));
            lemma_utf8_prefix(cs@, i + 1);
        }
        let k = colors[i];
        let n = runs.len();
        proof {
            let g1 = group_runs(cs@.take(i + 1), colors@.take(i + 1));
            assert(cs@.take(i + 1).last() == cs@[i as int]);
            assert(colors@.take(i + 1).last() == colors@[i as int]);
            if g.len() > 0 && g.last().1 == colors@[i as int] {
                assert(g1 == g.update(g.len() - 1, (g.last().0 + w as nat, colors@[i as int])));
            } else {
                assert(g1 == g.push((w as nat, colors@[i as int])));
                assert(g.push((w as nat, colors@[i as int])).drop_last() =~= g);
            }
        }
        if n > 0 && runs[n - 1].1 == k {
            proof {
                lemma_runs_total_update(g, w as nat, k);
                lemma_run_le_total(g);
            }
            let last = runs[n - 1].0;
            let ghost before = runs@;
            runs.set(n - 1, (last + w, k));
            assert(runs@.map_values(|r: (usize, JsonColor)| (r.0 as nat, r.1)) =~= g.update(g.len() - 1, (g.last().0 + w as nat, k)));
        } else {
            let ghost before = runs@;
            runs.push((w, k));
            assert(runs@.map_values(|r: (usize, JsonColor)| (r.0 as nat, r.1)) =~= g.push((w as nat, k)));
        }
        i += 1;
    }
    assert(cs@.take(cs@.len() as int) =~= cs@);
    assert(colors@.take(colors@.len() as int) =~= colors@);
    runs
}

proof fn lemma_utf8_prefix(s: Seq<char>, n: int)
    requires
        0 <= n <= s.len(),
    ensures
        encode_utf8(s.take(n)).len() <= encode_utf8(s).len(),
    decreases s.len() - n,
{
    if n < s.len() {
        lemma_utf8_prefix(s, n + 1);
        lemma_utf8_push(s.take(n), s[n]);
        assert(s.take(n).push(s[n]) =~= s.take(n + 1));
    } else {
        assert(s.take(n) =~= s);
    }
}

proof fn lemma_run_le_total(rs: Seq<(nat, JsonColor)>)
    requires
        rs.len() > 0,
    ensures
        rs.last().0 <= runs_total(rs),
{
}

/// Prepares a response body for display. A body that looks like JSON (see
/// `looks_like_json`) becomes styled text: the body pretty-printed when it parses, else as it
/// is, with each character coloured (see `char_colors`) and characters of one colour grouped
/// into runs of UTF-8 bytes (see `group_runs`); there is then no plain text. Any other body
/// is plain text and the styled text is empty.
pub fn build(body: &str, content_type: Option<&str>) -> (h: HighlightedBody)
    ensures
        ({
            let ct = match content_type {
                Some(c) => Some(c@),
                None => None,
            };
            if looks_like_json(body@, ct) {
                &&& h.plain is None
                &&& h.styled.text@ == pretty_or_same(body@)
                &&& h.styled.runs@.map_values(|r: (usize, JsonColor)| (r.0 as nat, r.1)) == group_runs(
                    h.styled.text@,
                    char_colors(h.styled.text@),
                )
                &&& runs_total(group_runs(h.styled.text@, char_colors(h.styled.text@))) == encode_utf8(h.styled.text@).len()
            } else {
                &&& h.plain is Some && h.plain->0@ == body@
                &&& h.styled.text@.len() == 0
                &&& h.styled.runs@.len() == 0
            }
        }),
{
    let json_ct = match content_type {
        Some(ct) => contains_str(&ascii_lower_chars(&chars_of(ct)), "json"),
        None => false,
    };
    let start = trim_start_chars(&chars_of(body));
    let json_start = start.len() > 0 && (start[0] == '{' || start[0] == '[');
    if json_ct || json_start {
        let text = pretty_json_or_same(body);
        let cs = chars_of(text.as_str());
        let _bytes = text.as_str().as_bytes().len();
        let colors = colors_of(&cs);
        let runs = group_into_runs(&cs, &colors);
        HighlightedBody { plain: None, styled: StyledBody { text, runs } }
    } else {
        HighlightedBody {
            plain: Some(string_from_chars(&chars_of(body))),
            styled: StyledBody { text: String::new(), runs: Vec::new() },
        }
    }
}

/// Law: the runs of a coloured text are never empty, and two runs in a row differ in colour
/// (each run is as long as its colour lasts).
pub proof fn law_runs_well_formed(cs: Seq<char>, colors: Seq<JsonColor>)
    requires
        cs.len() == colors.len(),
    ensures
        forall|k: int| 0 <= k < group_runs(cs, colors).len() ==> #[trigger] group_runs(cs, colors)[k].0 > 0,
        forall|k: int| 0 < k < group_runs(cs, colors).len() ==> #[trigger] group_runs(cs, colors)[k].1 != group_runs(cs, colors)[k - 1].1,
    decreases cs.len(),
{
    if cs.len() > 0 {
        let g = group_runs(cs.drop_last(), colors.drop_last());
        law_runs_well_formed(cs.drop_last(), colors.drop_last());
        let w = utf8_width(cs.last());
        assert(w > 0) by {
            vstd::utf8::char_is_scalar(cs.last());
        }
        let r = group_runs(cs, colors);
        if g.len() > 0 && g.last().1 == colors.last() {
            assert(r == g.update(g.len() - 1, (g.last().0 + w, colors.last())));
            assert forall|k: int| 0 <= k < r.len() implies #[trigger] r[k].0 > 0 by {
                if k < g.len() - 1 {
                    assert(r[k] == g[k]);
                }
            }
            assert forall|k: int| 0 < k < r.len() implies #[trigger] r[k].1 != r[k - 1].1 by {
                if k < g.len() - 1 {
                    assert(r[k] == g[k]);
                }
                assert(r[k - 1] == g[k - 1]);
            }
        } else {
            assert(r == g.push((w, colors.last())));
            assert forall|k: int| 0 <= k < r.len() implies #[trigger] r[k].0 > 0 by {
                if k < g.len() {
                    assert(r[k] == g[k]);
                }
            }
            assert forall|k: int| 0 < k < r.len() implies #[trigger] r[k].1 != r[k - 1].1 by {
                if k < g.len() {
                    assert(r[k] == g[k]);
                }
                assert(r[k - 1] == g[k - 1]);
            }
        }
    }
}

} // verus!
