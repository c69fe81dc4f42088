//! Splitting JSON text into coloured pieces for display, as the request-body view does it.
use vstd::prelude::*;
use crate::text::{chars_of, string_from_chars, slice_chars};

verus! {

/// What a piece of JSON text is.
#[derive(PartialEq, Eq, Structural)]
pub enum JsonTokenType {
    Key,
    String,
    Number,
    Boolean,
    Null,
    Bracket,
    Comma,
    Colon,
    Plain,
}

/// One piece of JSON text and what it is.
pub struct JsonHighlightToken {
    pub token_type: JsonTokenType,
    pub text: String,
}

/// The colour a piece is drawn in; the theme gives each its value.
#[derive(PartialEq, Eq, Structural, Clone, Copy, Debug)]
pub enum JsonColor {
    Key,
    String,
    Number,
    Boolean,
    Null,
    Bracket,
}

pub open spec fn is_digit(c: char) -> bool {
    '0' <= c <= '9'
}

/// Characters that may continue a number.
pub open spec fn is_number_char(c: char) -> bool {
    is_digit(c) || c == '.' || c == 'e' || c == 'E' || c == '+' || c == '-'
}

/// Where a string that starts before `k` ends: just after the next unescaped `"`, or at the
/// end of the text. A backslash takes the character after it along.
pub open spec fn string_end(s: Seq<char>, k: int) -> int
    recommends
        0 <= k <= s.len(),
    decreases s.len() - k,
{
    if k >= s.len() || k < 0 {
        s.len() as int
    } else if s[k] == '"' {
        k + 1
    } else if s[k] == '\\' {
        if k + 1 < s.len() {
            string_end(s, k + 2)
        } else {
            s.len() as int
        }
    } else {
        string_end(s, k + 1)
    }
}

/// Where a number whose characters run up to before `k` ends: it goes on over digits, `.`, `e`,
/// `E`, and over `+` / `-` only right after `e` or `E`.
pub open spec fn number_end(s: Seq<char>, k: int) -> int
    decreases s.len() - k,
{
    if 0 < k < s.len() && is_number_char(s[k]) && !((s[k] == '+' || s[k] == '-') && !(s[k - 1]
        == 'e' || s[k - 1] == 'E')) {
        number_end(s, k + 1)
    } else {
        k
    }
}

pub proof fn lemma_string_end(s: Seq<char>, k: int)
    requires
        0 <= k <= s.len(),
    ensures
        k <= string_end(s, k) <= s.len(),
    decreases s.len() - k,
{
    if k < s.len() && s[k] != '"' {
        if s[k] == '\\' {
            if k + 1 < s.len() {
                lemma_string_end(s, k + 2);
            }
        } else {
            lemma_string_end(s, k + 1);
        }
    }
}

pub proof fn lemma_number_end(s: Seq<char>, k: int)
    requires
        0 <= k <= s.len(),
    ensures
        k <= number_end(s, k) <= s.len(),
    decreases s.len() - k,
{
    if 0 < k < s.len() && is_number_char(s[k]) && !((s[k] == '+' || s[k] == '-') && !(s[k - 1]
        == 'e' || s[k - 1] == 'E')) {
        lemma_number_end(s, k + 1);
    }
}

/// Whether the characters from position `pos` on start with `kw`.
pub open spec fn keyword_at(s: Seq<char>, pos: int, kw: Seq<char>) -> bool {
    0 <= pos && pos + kw.len() <= s.len() && s.subrange(pos, pos + kw.len()) == kw
}

pub open spec fn null_word() -> Seq<char> {
    seq!['n', 'u', 'l', 'l']
}

pub open spec fn true_word() -> Seq<char> {
    seq!['t', 'r', 'u', 'e']
}

pub open spec fn false_word() -> Seq<char> {
    seq!['f', 'a', 'l', 's', 'e']
}

pub open spec fn min_int(a: int, b: int) -> int {
    if a <= b {
        a
    } else {
        b
    }
}

/// Where a number that starts at `i` first stops taking characters: after a leading `-`
/// and the digit right after it, or after its first digit.
pub open spec fn number_start(s: Seq<char>, i: int) -> int {
    if s[i] == '-' && i + 1 < s.len() && is_digit(s[i + 1]) {
        i + 2
    } else {
        i + 1
    }
}

/// The white space that may stand between JSON tokens.
pub open spec fn is_json_ws(c: char) -> bool {
    c == ' ' || c == '\t' || c == '\n' || c == '\r'
}

/// A piece that is one white-space character.
pub open spec fn is_ws_text(t: Seq<char>) -> bool {
    t.len() == 1 && is_json_ws(t[0])
}

/// One step of the scan: the piece that starts at `i`, what it is, and where the next piece
/// starts. A string runs to its closing quote; `null`, `true` and `false` are one piece each;
/// a number runs over its characters; brackets, `:` and `,` are one character each; anything
/// else is a plain character.
pub open spec fn scan_step(s: Seq<char>, i: int) -> (Seq<char>, JsonTokenType, int)
    recommends
        0 <= i < s.len(),
{
    let c = s[i];
    if c == '"' {
        let j = string_end(s, i + 1);
        (s.subrange(i, j), JsonTokenType::String, j)
    } else if c == '{' || c == '}' || c == '[' || c == ']' {
        (seq![c], JsonTokenType::Bracket, i + 1)
    } else if c == ':' {
        (seq![c], JsonTokenType::Colon, i + 1)
    } else if c == ',' {
        (seq![c], JsonTokenType::Comma, i + 1)
    } else if c == 'n' && keyword_at(s, i, null_word()) {
        (null_word(), JsonTokenType::Null, i + 4)
    } else if c == 't' && keyword_at(s, i, true_word()) {
        (true_word(), JsonTokenType::Boolean, i + 4)
    } else if c == 'f' && keyword_at(s, i, false_word()) {
        (false_word(), JsonTokenType::Boolean, i + 5)
    } else if is_digit(c) || c == '-' {
        let j = number_end(s, number_start(s, i));
        (s.subrange(i, j), JsonTokenType::Number, j)
    } else {
        (seq![c], JsonTokenType::Plain, i + 1)
    }
}

/// The pieces of `s` from position `i` on.
pub open spec fn scan_tokens(s: Seq<char>, i: int) -> Seq<(Seq<char>, JsonTokenType)>
    decreases s.len() - i,
{
    if i < 0 || i >= s.len() {
        Seq::empty()
    } else {
        let st = scan_step(s, i);
        if st.2 <= i || st.2 > s.len() {
            Seq::empty()
        } else {
            seq![(st.0, st.1)] + scan_tokens(s, st.2)
        }
    }
}

/// The colour of a piece, and whether the next string is a key. A string is a key when it
/// comes first or right after a bracket or a comma.
pub open spec fn color_of(ty: JsonTokenType, key_next: bool) -> (JsonColor, bool) {
    match ty {
        JsonTokenType::String => (if key_next {
            JsonColor::Key
        } else {
            JsonColor::String
        }, false),
        JsonTokenType::Number => (JsonColor::Number, false),
        JsonTokenType::Boolean => (JsonColor::Boolean, false),
        JsonTokenType::Null => (JsonColor::Null, false),
        JsonTokenType::Bracket => (JsonColor::Bracket, true),
        JsonTokenType::Comma => (JsonColor::Bracket, true),
        JsonTokenType::Colon => (JsonColor::Bracket, false),
        JsonTokenType::Plain => (JsonColor::Bracket, false),
        JsonTokenType::Key => (JsonColor::Key, false),
    }
}

/// The pieces with their colours. White space between pieces leaves the key flag as it is.
pub open spec fn colorize(tokens: Seq<(Seq<char>, JsonTokenType)>, key_next: bool) -> Seq<
    (Seq<char>, JsonColor),
>
    decreases tokens.len(),
{
    if tokens.len() == 0 {
        Seq::empty()
    } else {
        let c = color_of(tokens[0].1, key_next);
        let next = if is_ws_text(tokens[0].0) {
            key_next
        } else {
            c.1
        };
        seq![(tokens[0].0, c.0)] + colorize(tokens.drop_first(), next)
    }
}

/// The coloured pieces that `highlight_json` gives for `s`.
pub open spec fn highlighted(s: Seq<char>) -> Seq<(Seq<char>, JsonColor)> {
    colorize(scan_tokens(s, 0), true)
}

/// The scan always moves forward, and each piece is the text it was taken from.
pub proof fn lemma_scan_step(s: Seq<char>, i: int)
    requires
        0 <= i < s.len(),
    ensures
        i < scan_step(s, i).2 <= s.len(),
        scan_step(s, i).0 == s.subrange(i, scan_step(s, i).2),
        scan_step(s, i).0.len() > 0,
{
    lemma_string_end(s, i + 1);
    let c = s[i];
    if is_digit(c) || c == '-' {
        lemma_number_end(s, number_start(s, i));
    }
    let st = scan_step(s, i);
    if st.2 == i + 1 {
        assert(st.0 =~= s.subrange(i, i + 1));
    }
}

pub(crate) fn is_digit_exec(c: char) -> (r: bool)
    ensures
        r == is_digit(c),
{
    '0' <= c && c <= '9'
}

pub(crate) fn scan_string_end(s: &Vec<char>, k0: usize) -> (j: usize)
    requires
        k0 <= s.len(),
    ensures
        j == string_end(s@, k0 as int),
{
    let mut k = k0;
    while k < s.len()
        invariant
            k0 <= k <= s.len(),
            string_end(s@, k as int) == string_end(s@, k0 as int),
        decreases s.len() - k,
    {
        if s[k] == '"' {
            return k + 1;
        } else if s[k] == '\\' {
            if k + 1 < s.len() {
                k = k + 2;
            } else {
                return s.len();
            }
        } else {
            k = k + 1;
        }
    }
    k
}

pub(crate) fn scan_number_end(s: &Vec<char>, k0: usize) -> (j: usize)
    requires
        0 < k0 <= s.len(),
    ensures
        j == number_end(s@, k0 as int),
{
    let mut k = k0;
    while k < s.len()
        invariant
            0 < k0 <= k <= s.len(),
            number_end(s@, k as int) == number_end(s@, k0 as int),
        decreases s.len() - k,
    {
        let c = s[k];
        let num = is_digit_exec(c) || c == '.' || c == 'e' || c == 'E' || c == '+' || c == '-';
        let sign_blocked = (c == '+' || c == '-') && !(s[k - 1] == 'e' || s[k - 1] == 'E');
        if num && !sign_blocked {
            k = k + 1;
        } else {
            return k;
        }
    }
    k
}

pub(crate) fn keyword_at_exec(s: &Vec<char>, pos: usize, kw: &str) -> (r: bool)
    ensures
        r == keyword_at(s@, pos as int, kw@),
{
    let w = chars_of(kw);
    if pos > s.len() || w.len() > s.len() - pos {
        return false;
    }
    let mut k: usize = 0;
    while k < w.len()
        invariant
            k <= w.len(),
            pos + w.len() <= s.len(),
            w@ == kw@,
            forall|j: int| 0 <= j < k ==> s@[pos + j] == w@[j],
        decreases w.len() - k,
    {
        if s[pos + k] != w[k] {
            assert(s@.subrange(pos as int, pos + w.len())[k as int] == s@[pos + k]);
            return false;
        }
        k += 1;
    }
    assert(s@.subrange(pos as int, pos + w.len()) =~= w@);
    true
}

fn token(text: Vec<char>, token_type: JsonTokenType) -> (t: JsonHighlightToken)
    ensures
        t.text@ == text@,
        t.token_type == token_type,
{
    JsonHighlightToken { token_type, text: string_from_chars(&text) }
}

/// The text and kind of a token.
pub open spec fn token_view(t: JsonHighlightToken) -> (Seq<char>, JsonTokenType) {
    (t.text@, t.token_type)
}

/// Splits JSON text into pieces (see `scan_tokens`).
pub fn tokenize_json(json_str: &str) -> (tokens: Vec<JsonHighlightToken>)
    ensures
        tokens@.map_values(|t: JsonHighlightToken| token_view(t)) == scan_tokens(json_str@, 0),
{
    let s = chars_of(json_str);
    proof {
        reveal_strlit("null");
        reveal_strlit("true");
        reveal_strlit("false");
        assert("null"@ =~= null_word());
        assert("true"@ =~= true_word());
        assert("false"@ =~= false_word());
    }
    let mut tokens: Vec<JsonHighlightToken> = Vec::new();
    let mut i: usize = 0;
    while i < s.len()
        invariant
            s@ == json_str@,
            i <= s.len(),
            "null"@ == null_word(),
            "true"@ == true_word(),
            "false"@ == false_word(),
            tokens@.map_values(|t: JsonHighlightToken| token_view(t)) + scan_tokens(s@, i as int)
                == scan_tokens(s@, 0),
        decreases s.len() - i,
    {
        let ghost st = scan_step(s@, i as int);
        proof {
            lemma_scan_step(s@, i as int);
        }
        let c = s[i];
        let t: JsonHighlightToken;
        let ni: usize;
        if c == '"' {
            let j = scan_string_end(&s, i + 1);
            proof {
                lemma_string_end(s@, i + 1);
            }
            t = token(slice_chars(&s, i, j), JsonTokenType::String);
            ni = j;
        } else if c == '{' || c == '}' || c == '[' || c == ']' {
            t = token(vec![c], JsonTokenType::Bracket);
            ni = i + 1;
        } else if c == ':' {
            t = token(vec![c], JsonTokenType::Colon);
            ni = i + 1;
        } else if c == ',' {
            t = token(vec![c], JsonTokenType::Comma);
            ni = i + 1;
        } else if c == 'n' && keyword_at_exec(&s, i, "null") {
            t = token(chars_of("null"), JsonTokenType::Null);
            ni = i + 4;
        } else if c == 't' && keyword_at_exec(&s, i, "true") {
            t = token(chars_of("true"), JsonTokenType::Boolean);
            ni = i + 4;
        } else if c == 'f' && keyword_at_exec(&s, i, "false") {
            t = token(chars_of("false"), JsonTokenType::Boolean);
            ni = i + 5;
        } else if is_digit_exec(c) || c == '-' {
            let start = if c == '-' && i + 1 < s.len() && is_digit_exec(s[i + 1]) {
                i + 2
            } else {
                i + 1
            };
            let j = scan_number_end(&s, start);
            proof {
                lemma_number_end(s@, start as int);
            }
            t = token(slice_chars(&s, i, j), JsonTokenType::Number);
            ni = j;
        } else {
            t = token(vec![c], JsonTokenType::Plain);
            ni = i + 1;
        }
        assert(token_view(t) == (st.0, st.1));
        assert(ni == st.2);
        let ghost before = tokens@;
        tokens.push(t);
        assert(tokens@.map_values(|t: JsonHighlightToken| token_view(t)) =~= before.map_values(
            |t: JsonHighlightToken| token_view(t),
        ).push(token_view(t)));
        assert(scan_tokens(s@, i as int) == seq![(st.0, st.1)] + scan_tokens(s@, ni as int));
        i = ni;
    }
    tokens
}

/// The text of all pieces, one after another.
pub open spec fn joined<C>(ps: Seq<(Seq<char>, C)>) -> Seq<char>
    decreases ps.len(),
{
    if ps.len() == 0 {
        Seq::empty()
    } else {
        ps[0].0 + joined(ps.drop_first())
    }
}

fn is_ws_char_exec(c: char) -> (r: bool)
    ensures
        r == is_json_ws(c),
{
    c == ' ' || c == '\t' || c == '\n' || c == '\r'
}

/// Colours JSON text for display: the text is split into pieces (see `scan_tokens`), each
/// drawn in the colour of its kind, with a string that comes first or right after a bracket or
/// comma (white space between them aside) drawn as a key.
pub fn highlight_json(json_str: &str) -> (r: Vec<(String, JsonColor)>)
    ensures
        r@.map_values(|p: (String, JsonColor)| (p.0@, p.1)) == highlighted(json_str@),
        joined(r@.map_values(|p: (String, JsonColor)| (p.0@, p.1))) == json_str@,
        forall|k: int| 0 <= k < r@.len() ==> (#[trigger] r@[k]).0@.len() > 0,
{
    proof {
        law_highlight_keeps_text(json_str@);
    }
    let tokens = tokenize_json(json_str);
    let ghost toks = tokens@.map_values(|t: JsonHighlightToken| token_view(t));
    let mut out: Vec<(String, JsonColor)> = Vec::new();
    let mut key_next = true;
    let mut k: usize = 0;
    assert(toks.skip(0) =~= toks);
    assert(out@.map_values(|p: (String, JsonColor)| (p.0@, p.1)) =~= Seq::<(Seq<char>, JsonColor)>::empty());
    while k < tokens.len()
        invariant
            k <= tokens@.len() == toks.len(),
            toks == tokens@.map_values(|t: JsonHighlightToken| token_view(t)),
            toks == scan_tokens(json_str@, 0),
            out@.map_values(|p: (String, JsonColor)| (p.0@, p.1)) + colorize(
                toks.skip(k as int),
                key_next,
            ) == colorize(toks, true),
        decreases tokens@.len() - k,
    {
        let t = &tokens[k];
        let (color, next) = match t.token_type {
            JsonTokenType::String => (if key_next {
                JsonColor::Key
            } else {
                JsonColor::String
            }, false),
            JsonTokenType::Number => (JsonColor::Number, false),
            JsonTokenType::Boolean => (JsonColor::Boolean, false),
            JsonTokenType::Null => (JsonColor::Null, false),
            JsonTokenType::Bracket => (JsonColor::Bracket, true),
            JsonTokenType::Comma => (JsonColor::Bracket, true),
            JsonTokenType::Colon => (JsonColor::Bracket, false),
            JsonTokenType::Plain => (JsonColor::Bracket, false),
            JsonTokenType::Key => (JsonColor::Key, false),
        };
        assert((color, next) == color_of(toks[k as int].1, key_next));
        let tc = chars_of(t.text.as_str());
        let ws = tc.len() == 1 && is_ws_char_exec(tc[0]);
        assert(ws == is_ws_text(toks[k as int].0));
        let ghost before = out@;
        out.push((t.text.clone(), color));
        assert(toks.skip(k as int).drop_first() =~= toks.skip(k + 1));
        assert(toks.skip(k as int)[0] == toks[k as int]);
        assert(out@.map_values(|p: (String, JsonColor)| (p.0@, p.1)) =~= before.map_values(
            |p: (String, JsonColor)| (p.0@, p.1),
        ).push((toks[k as int].0, color)));
        if !ws {
            key_next = next;
        }
        k += 1;
    }
    assert(toks.skip(tokens@.len() as int) =~= Seq::<(Seq<char>, JsonTokenType)>::empty());
    assert forall|k: int| 0 <= k < out@.len() implies (#[trigger] out@[k]).0@.len() > 0 by {
        assert(out@.map_values(|p: (String, JsonColor)| (p.0@, p.1))[k] == highlighted(json_str@)[k]);
    }
    out
}

proof fn lemma_colorize_shape(t: Seq<(Seq<char>, JsonTokenType)>, b: bool)
    ensures
        colorize(t, b).len() == t.len(),
        forall|k: int| 0 <= k < t.len() ==> (#[trigger] colorize(t, b)[k]).0 == t[k].0,
        forall|k: int| 0 <= k < t.len() ==> (#[trigger] colorize(t, b)[k]).1 == color_of(
            t[k].1,
            false,
        ).0 || (t[k].1 == JsonTokenType::String && colorize(t, b)[k].1 == JsonColor::Key),
        joined(colorize(t, b)) == joined(t),
    decreases t.len(),
{
    if t.len() > 0 {
        let c = color_of(t[0].1, b);
        let next = if is_ws_text(t[0].0) {
            b
        } else {
            c.1
        };
        lemma_colorize_shape(t.drop_first(), next);
        let r = colorize(t, b);
        let rest = colorize(t.drop_first(), next);
        assert(r == seq![(t[0].0, c.0)] + rest);
        assert(r.drop_first() =~= rest);
        assert forall|k: int| 0 < k < t.len() implies r[k] == rest[k - 1] by {}
        assert forall|k: int| 0 < k < t.len() implies t[k] == t.drop_first()[k - 1] by {}
    }
}

proof fn lemma_scan_shape(s: Seq<char>, i: int)
    requires
        0 <= i <= s.len(),
    ensures
        forall|k: int|
            0 <= k < scan_tokens(s, i).len() ==> (#[trigger] scan_tokens(s, i)[k]).0.len() > 0,
        joined(scan_tokens(s, i)) == s.skip(i),
    decreases s.len() - i,
{
    if i < s.len() {
        lemma_scan_step(s, i);
        let st = scan_step(s, i);
        lemma_scan_shape(s, st.2);
        let t = scan_tokens(s, i);
        let rest = scan_tokens(s, st.2);
        assert(t == seq![(st.0, st.1)] + rest);
        assert(t.drop_first() =~= rest);
        assert forall|k: int| 0 < k < t.len() implies t[k] == rest[k - 1] by {}
        assert(s.subrange(i, st.2) + s.skip(st.2) =~= s.skip(i));
    } else {
        assert(s.skip(i) =~= Seq::<char>::empty());
    }
}

/// Law: the pieces put together give back the text exactly, and no piece is empty.
pub proof fn law_highlight_keeps_text(s: Seq<char>)
    ensures
        joined(highlighted(s)) == s,
        forall|k: int| 0 <= k < highlighted(s).len() ==> (#[trigger] highlighted(s)[k]).0.len() > 0,
{
    lemma_scan_shape(s, 0);
    let t = scan_tokens(s, 0);
    lemma_colorize_shape(t, true);
    assert forall|k: int| 0 <= k < t.len() implies (#[trigger] highlighted(s)[k]).0 == t[k].0 by {}
    assert(s.skip(0) =~= s);
}

/// Whether the piece at `k` would be read as a key: the last piece before it that is not
/// white space is a bracket or a comma, or there is none and `b` holds.
pub open spec fn key_before(t: Seq<(Seq<char>, JsonTokenType)>, k: int, b: bool) -> bool
    decreases k,
{
    if k <= 0 {
        b
    } else if is_ws_text(t[k - 1].0) {
        key_before(t, k - 1, b)
    } else {
        t[k - 1].1 == JsonTokenType::Bracket || t[k - 1].1 == JsonTokenType::Comma
    }
}

proof fn lemma_key_before_shift(t: Seq<(Seq<char>, JsonTokenType)>, k: int, b: bool)
    requires
        1 <= k <= t.len(),
    ensures
        key_before(t, k, b) == key_before(
            t.drop_first(),
            k - 1,
            if is_ws_text(t[0].0) {
                b
            } else {
                color_of(t[0].1, b).1
            },
        ),
    decreases k,
{
    let next = if is_ws_text(t[0].0) {
        b
    } else {
        color_of(t[0].1, b).1
    };
    if k > 1 {
        assert(t.drop_first()[k - 2] == t[k - 1]);
        lemma_key_before_shift(t, k - 1, b);
        assert(key_before(t.drop_first(), k - 1, next) == if is_ws_text(t[k - 1].0) {
            key_before(t.drop_first(), k - 2, next)
        } else {
            t[k - 1].1 == JsonTokenType::Bracket || t[k - 1].1 == JsonTokenType::Comma
        });
    } else {
        assert(key_before(t, 0, b) == b);
        assert(key_before(t.drop_first(), 0, next) == next);
        assert(key_before(t, 1, b) == if is_ws_text(t[0].0) {
            key_before(t, 0, b)
        } else {
            t[0].1 == JsonTokenType::Bracket || t[0].1 == JsonTokenType::Comma
        });
        match t[0].1 {
            JsonTokenType::Key => {},
            JsonTokenType::String => {},
            JsonTokenType::Number => {},
            JsonTokenType::Boolean => {},
            JsonTokenType::Null => {},
            JsonTokenType::Bracket => {},
            JsonTokenType::Comma => {},
            JsonTokenType::Colon => {},
            JsonTokenType::Plain => {},
        }
    }
}

proof fn lemma_colorize_keys(t: Seq<(Seq<char>, JsonTokenType)>, b: bool, k: int)
    requires
        0 <= k < t.len(),
        t[k].1 == JsonTokenType::String,
    ensures
        colorize(t, b).len() == t.len(),
        (colorize(t, b)[k].1 == JsonColor::Key) == key_before(t, k, b),
    decreases t.len(),
{
    lemma_colorize_shape(t, b);
    let c = color_of(t[0].1, b);
    let next = if is_ws_text(t[0].0) {
        b
    } else {
        c.1
    };
    let rest = colorize(t.drop_first(), next);
    assert(colorize(t, b) == seq![(t[0].0, c.0)] + rest);
    if k > 0 {
        assert(t.drop_first()[k - 1] == t[k]);
        lemma_colorize_keys(t.drop_first(), next, k - 1);
        lemma_key_before_shift(t, k, b);
        assert(colorize(t, b)[k] == rest[k - 1]);
    }
}

/// Law: a string is drawn as a key exactly when the last piece before it that is not white
/// space is a bracket or a comma, or it comes first.
pub proof fn law_highlight_keys(s: Seq<char>)
    ensures
        highlighted(s).len() == scan_tokens(s, 0).len(),
        forall|k: int|
            0 <= k < scan_tokens(s, 0).len() && scan_tokens(s, 0)[k].1 == JsonTokenType::String
                ==> ((#[trigger] highlighted(s)[k]).1 == JsonColor::Key <==> key_before(
                scan_tokens(s, 0),
                k,
                true,
            )),
{
    lemma_colorize_shape(scan_tokens(s, 0), true);
    assert forall|k: int|
        0 <= k < scan_tokens(s, 0).len() && scan_tokens(s, 0)[k].1 == JsonTokenType::String
            implies ((#[trigger] highlighted(s)[k]).1 == JsonColor::Key <==> key_before(
            scan_tokens(s, 0),
            k,
            true,
        )) by {
        lemma_colorize_keys(scan_tokens(s, 0), true, k);
    }
}

/// The pieces without those that are one white-space character.
pub open spec fn solid_pieces<C>(ps: Seq<(Seq<char>, C)>) -> Seq<(Seq<char>, C)>
    decreases ps.len(),
{
    if ps.len() == 0 {
        Seq::empty()
    } else if is_ws_text(ps[0].0) {
        solid_pieces(ps.drop_first())
    } else {
        seq![ps[0]] + solid_pieces(ps.drop_first())
    }
}

proof fn lemma_solid_concat<C>(a: Seq<(Seq<char>, C)>, b: Seq<(Seq<char>, C)>)
    ensures
        solid_pieces(a + b) == solid_pieces(a) + solid_pieces(b),
    decreases a.len(),
{
    if a.len() == 0 {
        assert(a + b =~= b);
    } else {
        assert((a + b).drop_first() =~= a.drop_first() + b);
        lemma_solid_concat(a.drop_first(), b);
        assert((a + b)[0] == a[0]);
    }
}

/// Law: white-space pieces change the colour of no other piece: colouring the pieces and then
/// leaving out the white space gives what colouring the pieces without white space gives.
pub proof fn law_ws_keeps_colours(t: Seq<(Seq<char>, JsonTokenType)>, b: bool)
    ensures
        solid_pieces(colorize(t, b)) == colorize(solid_pieces(t), b),
    decreases t.len(),
{
    if t.len() > 0 {
        let c = color_of(t[0].1, b);
        let next = if is_ws_text(t[0].0) {
            b
        } else {
            c.1
        };
        law_ws_keeps_colours(t.drop_first(), next);
        let r = colorize(t, b);
        let rest = colorize(t.drop_first(), next);
        assert(r == seq![(t[0].0, c.0)] + rest);
        assert(r.drop_first() =~= rest);
        if is_ws_text(t[0].0) {
            assert(solid_pieces(t) == solid_pieces(t.drop_first()));
        } else {
            let st = seq![t[0]] + solid_pieces(t.drop_first());
            assert(solid_pieces(t) == st);
            assert(st[0] == t[0]);
            assert(st.drop_first() =~= solid_pieces(t.drop_first()));
            assert(solid_pieces(r) == seq![r[0]] + solid_pieces(rest));
            assert(colorize(st, b) == seq![(st[0].0, c.0)] + colorize(st.drop_first(), next));
        }
    }
}

/// `v` holds from position `a + d` on what `u` holds from position `a` on.
pub open spec fn agree_from(u: Seq<char>, a: int, v: Seq<char>, d: int) -> bool {
    &&& 0 <= a <= u.len()
    &&& 0 <= a + d
    &&& v.len() == u.len() + d
    &&& forall|k: int| a <= k < u.len() ==> #[trigger] u[k] == v[k + d]
}

proof fn lemma_string_end_shift(u: Seq<char>, a: int, v: Seq<char>, d: int, k: int)
    requires
        agree_from(u, a, v, d),
        a <= k <= u.len(),
    ensures
        string_end(v, k + d) == string_end(u, k) + d,
    decreases u.len() - k,
{
    if k < u.len() {
        assert(u[k] == v[k + d]);
        if u[k] != '"' {
            if u[k] == '\\' {
                if k + 1 < u.len() {
                    lemma_string_end_shift(u, a, v, d, k + 2);
                }
            } else {
                lemma_string_end_shift(u, a, v, d, k + 1);
            }
        }
    }
}

proof fn lemma_number_end_shift(u: Seq<char>, a: int, v: Seq<char>, d: int, k: int)
    requires
        agree_from(u, a, v, d),
        a < k <= u.len(),
    ensures
        number_end(v, k + d) == number_end(u, k) + d,
    decreases u.len() - k,
{
    if k < u.len() {
        assert(u[k] == v[k + d]);
        assert(u[k - 1] == v[k - 1 + d]);
        if is_number_char(u[k]) && !((u[k] == '+' || u[k] == '-') && !(u[k - 1] == 'e' || u[k
            - 1] == 'E')) {
            lemma_number_end_shift(u, a, v, d, k + 1);
        }
    }
}

proof fn lemma_keyword_shift(u: Seq<char>, a: int, v: Seq<char>, d: int, p: int, kw: Seq<char>)
    requires
        agree_from(u, a, v, d),
        a <= p,
    ensures
        keyword_at(v, p + d, kw) == keyword_at(u, p, kw),
{
    if p + kw.len() <= u.len() {
        assert(v.subrange(p + d, p + d + kw.len()) =~= u.subrange(p, p + kw.len())) by {
            assert forall|k: int| 0 <= k < kw.len() implies #[trigger] v.subrange(p + d, p + d + kw.len())[k]
                == u.subrange(p, p + kw.len())[k] by {
                assert(u[p + k] == v[p + k + d]);
            }
        }
    }
}

proof fn lemma_scan_step_shift(u: Seq<char>, a: int, v: Seq<char>, d: int, p: int)
    requires
        agree_from(u, a, v, d),
        a <= p < u.len(),
    ensures
        scan_step(v, p + d).0 == scan_step(u, p).0,
        scan_step(v, p + d).1 == scan_step(u, p).1,
        scan_step(v, p + d).2 == scan_step(u, p).2 + d,
{
    assert(u[p] == v[p + d]);
    lemma_scan_step(u, p);
    lemma_scan_step(v, p + d);
    lemma_string_end_shift(u, a, v, d, p + 1);
    lemma_keyword_shift(u, a, v, d, p, null_word());
    lemma_keyword_shift(u, a, v, d, p, true_word());
    lemma_keyword_shift(u, a, v, d, p, false_word());
    if p + 1 < u.len() {
        assert(u[p + 1] == v[p + 1 + d]);
    }
    assert(number_start(v, p + d) == number_start(u, p) + d);
    if number_start(u, p) <= u.len() {
        lemma_number_end_shift(u, a, v, d, number_start(u, p));
    }
    let su = scan_step(u, p);
    let sv = scan_step(v, p + d);
    assert(sv.2 == su.2 + d);
    assert(sv.0 =~= su.0) by {
        assert forall|k: int| 0 <= k < su.0.len() implies #[trigger] sv.0[k] == su.0[k] by {
            assert(u[p + k] == v[p + k + d]);
        }
    }
}

proof fn lemma_scan_tokens_shift(u: Seq<char>, a: int, v: Seq<char>, d: int, p: int)
    requires
        agree_from(u, a, v, d),
        a <= p <= u.len(),
    ensures
        scan_tokens(v, p + d) == scan_tokens(u, p),
    decreases u.len() - p,
{
    if p < u.len() {
        lemma_scan_step_shift(u, a, v, d, p);
        lemma_scan_step(u, p);
        let su = scan_step(u, p);
        lemma_scan_tokens_shift(u, a, v, d, su.2);
    }
}

/// A piece of the scan of `s` that starts at `j` is followed, piece by piece, by one that
/// starts at `i` (`i` is `j`, or a later piece starts there).
pub open spec fn reaches(s: Seq<char>, j: int, i: int) -> bool
    decreases i - j,
{
    if j == i {
        true
    } else if 0 <= j < i && j < s.len() {
        let n = scan_step(s, j).2;
        j < n && n <= i && reaches(s, n, i)
    } else {
        false
    }
}

/// `s` with the character `w` put in at position `i`.
pub open spec fn insert_at(s: Seq<char>, i: int, w: char) -> Seq<char> {
    s.take(i) + seq![w] + s.skip(i)
}

proof fn lemma_string_end_before(s: Seq<char>, i: int, w: char, k: int)
    requires
        0 <= k,
        0 <= i < s.len(),
        k <= string_end(s, k) <= i,
    ensures
        string_end(insert_at(s, i, w), k) == string_end(s, k),
    decreases s.len() - k,
{
    let s2 = insert_at(s, i, w);
    if k < s.len() {
        lemma_string_end(s, k);
        if s[k] == '"' {
            assert(s2[k] == s[k]);
        } else if s[k] == '\\' {
            assert(k + 1 < s.len());
            lemma_string_end(s, k + 2);
            assert(s2[k] == s[k]);
            lemma_string_end_before(s, i, w, k + 2);
        } else {
            lemma_string_end(s, k + 1);
            assert(s2[k] == s[k]);
            lemma_string_end_before(s, i, w, k + 1);
        }
    }
}

proof fn lemma_number_end_before(s: Seq<char>, i: int, w: char, k: int)
    requires
        0 < k,
        0 <= i < s.len(),
        is_json_ws(w),
        k <= number_end(s, k) <= i,
    ensures
        number_end(insert_at(s, i, w), k) == number_end(s, k),
    decreases s.len() - k,
{
    let s2 = insert_at(s, i, w);
    if k < i {
        assert(s2[k] == s[k]);
        assert(s2[k - 1] == s[k - 1]);
        if is_number_char(s[k]) && !((s[k] == '+' || s[k] == '-') && !(s[k - 1] == 'e' || s[k
            - 1] == 'E')) {
            lemma_number_end(s, k + 1);
            lemma_number_end_before(s, i, w, k + 1);
        }
    } else {
        assert(s2[i] == w);
    }
}

proof fn lemma_scan_step_before(s: Seq<char>, i: int, w: char, j: int)
    requires
        0 <= j < i < s.len(),
        is_json_ws(w),
        scan_step(s, j).2 <= i,
    ensures
        scan_step(insert_at(s, i, w), j) == scan_step(s, j),
{
    let s2 = insert_at(s, i, w);
    assert(s2[j] == s[j]);
    lemma_scan_step(s, j);
    lemma_string_end(s, j + 1);
    let c = s[j];
    if c == '"' {
        lemma_string_end_before(s, i, w, j + 1);
        assert(s2.subrange(j, scan_step(s, j).2) =~= s.subrange(j, scan_step(s, j).2));
    } else if c == '{' || c == '}' || c == '[' || c == ']' || c == ':' || c == ',' {
    } else {
        assert forall|kw: Seq<char>| kw.len() > 0 && (kw == null_word() || kw == true_word() || kw
            == false_word()) implies keyword_at(s2, j, kw) == keyword_at(s, j, kw) by {
            if j + kw.len() <= i {
                assert(s2.subrange(j, j + kw.len()) =~= s.subrange(j, j + kw.len()));
            } else if keyword_at(s2, j, kw) {
                assert(s2.subrange(j, j + kw.len())[i - j] == s2[i]);
                assert(s2[i] == w);
            }
        }
        assert(keyword_at(s2, j, null_word()) == keyword_at(s, j, null_word()));
        assert(keyword_at(s2, j, true_word()) == keyword_at(s, j, true_word()));
        assert(keyword_at(s2, j, false_word()) == keyword_at(s, j, false_word()));
        if (c == 'n' && keyword_at(s, j, null_word())) || (c == 't' && keyword_at(s, j, true_word()))
            || (c == 'f' && keyword_at(s, j, false_word())) {
        } else if is_digit(c) || c == '-' {
            if j + 1 < i {
                assert(s2[j + 1] == s[j + 1]);
            } else {
                assert(s2[j + 1] == w);
                if c == '-' && is_digit(s[j + 1]) {
                    lemma_number_end(s, j + 2);
                }
            }
            assert(number_start(s2, j) == number_start(s, j));
            lemma_number_end(s, number_start(s, j));
            lemma_number_end_before(s, i, w, number_start(s, j));
            assert(s2.subrange(j, scan_step(s, j).2) =~= s.subrange(j, scan_step(s, j).2));
        }
    }
}

proof fn lemma_solid_scan_insert(s: Seq<char>, i: int, w: char, j: int)
    requires
        0 <= j <= i < s.len(),
        is_json_ws(w),
        reaches(s, j, i),
    ensures
        solid_pieces(scan_tokens(insert_at(s, i, w), j)) == solid_pieces(scan_tokens(s, j)),
    decreases i - j,
{
    let s2 = insert_at(s, i, w);
    if j == i {
        assert(s2[i] == w);
        lemma_scan_step(s2, i);
        let head = scan_step(s2, i);
        assert(head.0 =~= seq![w]);
        assert(agree_from(s, i, s2, 1)) by {
            assert forall|k: int| i <= k < s.len() implies #[trigger] s[k] == s2[k + 1] by {}
        }
        lemma_scan_tokens_shift(s, i, s2, 1, i);
        let t2 = scan_tokens(s2, i);
        assert(t2 == seq![(head.0, head.1)] + scan_tokens(s2, i + 1));
        assert(t2[0].0 == head.0);
        assert(t2.drop_first() =~= scan_tokens(s2, i + 1));
    } else {
        lemma_scan_step(s, j);
        lemma_scan_step_before(s, i, w, j);
        let n = scan_step(s, j).2;
        lemma_solid_scan_insert(s, i, w, n);
        let t1 = scan_tokens(s, j);
        let t2 = scan_tokens(s2, j);
        assert(t1 == seq![(scan_step(s, j).0, scan_step(s, j).1)] + scan_tokens(s, n));
        assert(t2 == seq![(scan_step(s, j).0, scan_step(s, j).1)] + scan_tokens(s2, n));
        assert(t1.drop_first() =~= scan_tokens(s, n));
        assert(t2.drop_first() =~= scan_tokens(s2, n));
        assert(t1[0] == t2[0]);
    }
}

/// Law: white space put in between two pieces of JSON text (where a piece of the scan
/// starts) changes no colour: leaving out the white-space pieces, the coloured pieces are the
/// same as before.
pub proof fn law_ws_between_tokens(s: Seq<char>, i: int, w: char)
    requires
        0 <= i < s.len(),
        reaches(s, 0, i),
        is_json_ws(w),
    ensures
        solid_pieces(highlighted(insert_at(s, i, w))) == solid_pieces(highlighted(s)),
{
    lemma_solid_scan_insert(s, i, w, 0);
    law_ws_keeps_colours(scan_tokens(insert_at(s, i, w), 0), true);
    law_ws_keeps_colours(scan_tokens(s, 0), true);
}

proof fn lemma_scan_keywords(s: Seq<char>, i: int)
    requires
        0 <= i <= s.len(),
    ensures
        forall|k: int|
            0 <= k < scan_tokens(s, i).len() ==> ((#[trigger] scan_tokens(s, i)[k]).1
                == JsonTokenType::Null ==> scan_tokens(s, i)[k].0 == null_word()) && (
            scan_tokens(s, i)[k].1 == JsonTokenType::Boolean ==> scan_tokens(s, i)[k].0
                == true_word() || scan_tokens(s, i)[k].0 == false_word()),
    decreases s.len() - i,
{
    if i < s.len() {
        lemma_scan_step(s, i);
        let st = scan_step(s, i);
        lemma_scan_keywords(s, st.2);
        let t = scan_tokens(s, i);
        let rest = scan_tokens(s, st.2);
        assert(t == seq![(st.0, st.1)] + rest);
        assert forall|k: int| 0 < k < t.len() implies t[k] == rest[k - 1] by {}
    }
}

/// Law: `null`, `true` and `false` each come as one piece of their own colour: a piece drawn
/// as null is `null`, a piece drawn as a boolean is `true` or `false`.
pub proof fn law_keywords_whole(s: Seq<char>)
    ensures
        forall|k: int|
            0 <= k < highlighted(s).len() ==> ((#[trigger] highlighted(s)[k]).1 == JsonColor::Null
                ==> highlighted(s)[k].0 == null_word()) && (highlighted(s)[k].1
                == JsonColor::Boolean ==> highlighted(s)[k].0 == true_word()
                || highlighted(s)[k].0 == false_word()),
{
    let t = scan_tokens(s, 0);
    lemma_scan_keywords(s, 0);
    lemma_colorize_shape(t, true);
    assert forall|k: int| 0 <= k < highlighted(s).len() implies ((#[trigger] highlighted(s)[k]).1
        == JsonColor::Null ==> highlighted(s)[k].0 == null_word()) && (highlighted(s)[k].1
        == JsonColor::Boolean ==> highlighted(s)[k].0 == true_word() || highlighted(s)[k].0
        == false_word()) by {
        assert(highlighted(s)[k].0 == t[k].0);
        match t[k].1 {
            JsonTokenType::Key => {},
            JsonTokenType::String => {},
            JsonTokenType::Number => {},
            JsonTokenType::Boolean => {},
            JsonTokenType::Null => {},
            JsonTokenType::Bracket => {},
            JsonTokenType::Comma => {},
            JsonTokenType::Colon => {},
            JsonTokenType::Plain => {},
        }
    }
}

/// After white space is put in at a place where a piece starts, a piece starts both at that
/// place (the white space) and right after it, so more white space can go in there.
pub proof fn lemma_insert_keeps_start(s: Seq<char>, i: int, w: char, j: int)
    requires
        0 <= j <= i < s.len(),
        is_json_ws(w),
        reaches(s, j, i),
    ensures
        reaches(insert_at(s, i, w), j, i),
        reaches(insert_at(s, i, w), j, i + 1),
    decreases i - j,
{
    let s2 = insert_at(s, i, w);
    if j == i {
        assert(s2[i] == w);
        assert(scan_step(s2, i).2 == i + 1);
        assert(reaches(s2, i + 1, i + 1));
    } else {
        lemma_scan_step(s, j);
        lemma_scan_step_before(s, i, w, j);
        let n = scan_step(s, j).2;
        lemma_insert_keeps_start(s, i, w, n);
    }
}

/// `s` with the characters of `ins` put in one after another, each at its position in the
/// text as it is by then.
pub open spec fn insert_all(s: Seq<char>, ins: Seq<(int, char)>) -> Seq<char>
    decreases ins.len(),
{
    if ins.len() == 0 {
        s
    } else {
        insert_all(insert_at(s, ins[0].0, ins[0].1), ins.drop_first())
    }
}

/// Every character of `ins` is white space put in, before the end of the text, where a piece
/// of the text as it is by then starts.
pub open spec fn ws_between_tokens(s: Seq<char>, ins: Seq<(int, char)>) -> bool
    decreases ins.len(),
{
    if ins.len() == 0 {
        true
    } else {
        &&& 0 <= ins[0].0 < s.len()
        &&& reaches(s, 0, ins[0].0)
        &&& is_json_ws(ins[0].1)
        &&& ws_between_tokens(insert_at(s, ins[0].0, ins[0].1), ins.drop_first())
    }
}

/// Law: any amount of white space put in between the pieces of JSON text changes no colour:
/// leaving out the white-space pieces, the coloured pieces are the same as before.
pub proof fn law_ws_anywhere_between_tokens(s: Seq<char>, ins: Seq<(int, char)>)
    requires
        ws_between_tokens(s, ins),
    ensures
        solid_pieces(highlighted(insert_all(s, ins))) == solid_pieces(highlighted(s)),
    decreases ins.len(),
{
    if ins.len() > 0 {
        law_ws_between_tokens(s, ins[0].0, ins[0].1);
        law_ws_anywhere_between_tokens(insert_at(s, ins[0].0, ins[0].1), ins.drop_first());
    }
}

} // verus!
