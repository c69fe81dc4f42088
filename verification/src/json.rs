//! JSON values as the body views read them, and the ways the views print them:
//! folded (long containers shown as a count past a depth), pretty, compact.
use vstd::prelude::*;
use crate::outside::{
    json_from_str, json_to_string, json_to_string_pretty, spec_json_from_str, spec_json_to_string,
    spec_json_to_string_pretty,
};
use crate::text::{append_chars, append_str, chars_of, decimal, digit_char, push_decimal, push_spaces, spaces, string_from_chars};

verus! {

/// A JSON value. A number is kept as the text it prints as; an object keeps its entries in
/// the order they are iterated.
pub enum JsonValue {
    Null,
    Bool(bool),
    Number(String),
    Str(String),
    Array(Vec<JsonValue>),
    Object(Vec<(String, JsonValue)>),
}

/// How `format_json` prints.
pub struct JsonFormatOptions {
    /// Depth from which non-empty containers are shown folded; 0 shows everything.
    pub max_depth: usize,
    /// Whether to fold at all; without it the value is pretty-printed in full.
    pub enable_fold: bool,
    /// Spaces per nesting level.
    pub indent_size: usize,
}

impl Default for JsonFormatOptions {
    /// Depth 3, folding on, two spaces.
    fn default() -> (o: JsonFormatOptions)
        ensures
            o.max_depth == 3,
            o.enable_fold,
            o.indent_size == 2,
    {
        JsonFormatOptions { max_depth: 3, enable_fold: true, indent_size: 2 }
    }
}


/// Control characters (general category Cc): U+0000–U+001F and U+007F–U+009F.
pub open spec fn is_control(c: char) -> bool {
    c <= '\u{1f}' || ('\u{7f}' <= c && c <= '\u{9f}')
}

/// Lower-case hexadecimal digit of a value below 16.
pub open spec fn hex_lower(d: nat) -> char {
    if d < 10 {
        digit_char(d)
    } else {
        ((87 + d) as u8) as char
    }
}

/// How one character is written inside a JSON string.
pub open spec fn escape_char(c: char) -> Seq<char> {
    if c == '"' {
        seq!['\\', '"']
    } else if c == '\\' {
        seq!['\\', '\\']
    } else if c == '\n' {
        seq!['\\', 'n']
    } else if c == '\r' {
        seq!['\\', 'r']
    } else if c == '\t' {
        seq!['\\', 't']
    } else if is_control(c) {
        seq![
            '\\',
            'u',
            '0',
            '0',
            hex_lower((c as u32 as nat) / 16),
            hex_lower((c as u32 as nat) % 16),
        ]
    } else {
        seq![c]
    }
}

/// A text with every character escaped.
pub open spec fn escaped(s: Seq<char>) -> Seq<char>
    decreases s.len(),
{
    if s.len() == 0 {
        Seq::empty()
    } else {
        escaped(s.drop_last()) + escape_char(s.last())
    }
}

fn push_escaped_char(out: &mut Vec<char>, c: char)
    ensures
        final(out)@ == old(out)@ + escape_char(c),
{
    if c == '"' {
        out.push('\\');
        out.push('"');
    } else if c == '\\' {
        out.push('\\');
        out.push('\\');
    } else if c == '\n' {
        out.push('\\');
        out.push('n');
    } else if c == '\r' {
        out.push('\\');
        out.push('r');
    } else if c == '\t' {
        out.push('\\');
        out.push('t');
    } else if c <= '\u{1f}' || ('\u{7f}' <= c && c <= '\u{9f}') {
        let code = c as u32;
        let hi = (code / 16) as u8;
        let lo = (code % 16) as u8;
        out.push('\\');
        out.push('u');
        out.push('0');
        out.push('0');
        out.push(if hi < 10 { (48u8 + hi) as char } else { (87u8 + hi) as char });
        out.push(if lo < 10 { (48u8 + lo) as char } else { (87u8 + lo) as char });
    } else {
        out.push(c);
    }
    assert(out@ =~= old(out)@ + escape_char(c));
}

/// Escapes a text for writing inside a JSON string: `"` `\\` newline, carriage return and tab
/// get a backslash escape, other control characters `\\u00XX` (lower-case hex).
pub fn escape_json_string(s: &str) -> (r: String)
    ensures
        r@ == escaped(s@),
{
    let cs = chars_of(s);
    let mut out: Vec<char> = Vec::new();
    let mut i: usize = 0;
    while i < cs.len()
        invariant
            i <= cs.len(),
            cs@ == s@,
            out@ == escaped(cs@.take(i as int)),
        decreases cs.len() - i,
    {
        assert(cs@.take(i + 1).drop_last() =~= cs@.take(i as int));
        push_escaped_char(&mut out, cs[i]);
        i += 1;
    }
    assert(cs@.take(cs.len() as int) =~= cs@);
    string_from_chars(&out)
}

pub open spec fn text_null() -> Seq<char> {
    seq!['n', 'u', 'l', 'l']
}

pub open spec fn text_true() -> Seq<char> {
    seq!['t', 'r', 'u', 'e']
}

pub open spec fn text_false() -> Seq<char> {
    seq!['f', 'a', 'l', 's', 'e']
}

/// ` keys... }`
pub open spec fn text_keys_tail() -> Seq<char> {
    seq![' ', 'k', 'e', 'y', 's', '.', '.', '.', ' ', '}']
}

/// ` items... ]`
pub open spec fn text_items_tail() -> Seq<char> {
    seq![' ', 'i', 't', 'e', 'm', 's', '.', '.', '.', ' ', ']']
}

/// Whether a non-empty container at `depth` is shown folded.
pub open spec fn folds_at(depth: nat, max: nat) -> bool {
    max > 0 && depth >= max
}

/// How `format_json_value` prints a value found at `depth`: a non-empty container at
/// `max_depth` or deeper (when `max_depth > 0`) as `{ N keys... }` / `[ N items... ]`,
/// otherwise one element per line, indented by `(depth + 1) * indent` spaces and closed at
/// `depth * indent`; object keys and string values are written between quotes, escaped.
pub open spec fn folded(v: JsonValue, depth: nat, max: nat, ind: nat) -> Seq<char>
    decreases v, 0nat,
{
    match v {
        JsonValue::Null => text_null(),
        JsonValue::Bool(b) => if b {
            text_true()
        } else {
            text_false()
        },
        JsonValue::Number(n) => n@,
        JsonValue::Str(s) => seq!['"'] + escaped(s@) + seq!['"'],
        JsonValue::Array(a) => if a@.len() == 0 {
            seq!['[', ']']
        } else if folds_at(depth, max) {
            seq!['[', ' '] + decimal(a@.len()) + text_items_tail()
        } else {
            seq!['[', '\n'] + items_text(a@, a@.len(), depth, max, ind) + spaces(depth * ind) + seq![']']
        },
        JsonValue::Object(m) => if m@.len() == 0 {
            seq!['{', '}']
        } else if folds_at(depth, max) {
            seq!['{', ' '] + decimal(m@.len()) + text_keys_tail()
        } else {
            seq!['{', '\n'] + entries_text(m@, m@.len(), depth, max, ind) + spaces(depth * ind) + seq!['}']
        },
    }
}

/// The first `k` element lines of an array.
pub open spec fn items_text(a: Seq<JsonValue>, k: nat, depth: nat, max: nat, ind: nat) -> Seq<char>
    decreases a, k,
{
    if k == 0 || k > a.len() {
        Seq::empty()
    } else {
        items_text(a, (k - 1) as nat, depth, max, ind) + spaces((depth + 1) * ind) + folded(
            a[k - 1],
            depth + 1,
            max,
            ind,
        ) + (if k < a.len() {
            seq![',']
        } else {
            Seq::empty()
        }) + seq!['\n']
    }
}

/// The first `k` entry lines of an object.
pub open spec fn entries_text(
    m: Seq<(String, JsonValue)>,
    k: nat,
    depth: nat,
    max: nat,
    ind: nat,
) -> Seq<char>
    decreases m, k,
{
    if k == 0 || k > m.len() {
        Seq::empty()
    } else {
        entries_text(m, (k - 1) as nat, depth, max, ind) + spaces((depth + 1) * ind) + seq!['"']
            + escaped(m[k - 1].0@) + seq!['"', ':', ' '] + folded(m[k - 1].1, depth + 1, max, ind) + (if k
            < m.len() {
            seq![',']
        } else {
            Seq::empty()
        }) + seq!['\n']
    }
}

pub open spec fn max_nat(a: nat, b: nat) -> nat {
    if a >= b {
        a
    } else {
        b
    }
}

/// The deepest level at which `format_json_value` is called while printing `v` found at
/// `depth`.
pub open spec fn deepest(v: JsonValue, depth: nat, max: nat) -> nat
    decreases v, 0nat,
{
    match v {
        JsonValue::Array(a) => if a@.len() > 0 && !folds_at(depth, max) {
            items_deepest(a@, a@.len(), depth, max)
        } else {
            depth
        },
        JsonValue::Object(m) => if m@.len() > 0 && !folds_at(depth, max) {
            entries_deepest(m@, m@.len(), depth, max)
        } else {
            depth
        },
        _ => depth,
    }
}

pub open spec fn items_deepest(a: Seq<JsonValue>, k: nat, depth: nat, max: nat) -> nat
    decreases a, k,
{
    if k == 0 || k > a.len() {
        depth
    } else {
        max_nat(items_deepest(a, (k - 1) as nat, depth, max), deepest(a[k - 1], depth + 1, max))
    }
}

pub open spec fn entries_deepest(m: Seq<(String, JsonValue)>, k: nat, depth: nat, max: nat) -> nat
    decreases m, k,
{
    if k == 0 || k > m.len() {
        depth
    } else {
        max_nat(
            entries_deepest(m, (k - 1) as nat, depth, max),
            deepest(m[k - 1].1, depth + 1, max),
        )
    }
}

proof fn lemma_deepest_at_least(v: JsonValue, depth: nat, max: nat)
    ensures
        deepest(v, depth, max) >= depth,
{
    match v {
        JsonValue::Array(a) => {
            if a@.len() > 0 && !folds_at(depth, max) {
                lemma_items_deepest(a@, a@.len(), depth, max);
            }
        },
        JsonValue::Object(m) => {
            if m@.len() > 0 && !folds_at(depth, max) {
                lemma_entries_deepest(m@, m@.len(), depth, max);
            }
        },
        _ => {},
    }
}

proof fn lemma_items_deepest(a: Seq<JsonValue>, k: nat, depth: nat, max: nat)
    requires
        k <= a.len(),
    ensures
        items_deepest(a, k, depth, max) >= depth,
        forall|j: int| 0 <= j < k ==> items_deepest(a, k, depth, max) >= deepest(#[trigger] a[j], depth + 1, max),
    decreases k,
{
    if k > 0 {
        lemma_items_deepest(a, (k - 1) as nat, depth, max);
    }
}

proof fn lemma_entries_deepest(m: Seq<(String, JsonValue)>, k: nat, depth: nat, max: nat)
    requires
        k <= m.len(),
    ensures
        entries_deepest(m, k, depth, max) >= depth,
        forall|j: int| 0 <= j < k ==> entries_deepest(m, k, depth, max) >= deepest(#[trigger] m[j].1, depth + 1, max),
    decreases k,
{
    if k > 0 {
        lemma_entries_deepest(m, (k - 1) as nat, depth, max);
    }
}

proof fn lemma_mul_mono(a: nat, b: nat, c: nat)
    requires
        a <= b,
    ensures
        a * c <= b * c,
{
    assert(a * c <= b * c) by (nonlinear_arith)
        requires
            a <= b,
    ;
}

/// Appends how `format_json_value` prints `v` found at `depth`.
fn fold_into(out: &mut Vec<char>, v: &JsonValue, depth: usize, max: usize, ind: usize)
    requires
        deepest(*v, depth as nat, max as nat) < usize::MAX,
        (deepest(*v, depth as nat, max as nat) + 1) * ind <= usize::MAX,
    ensures
        final(out)@ == old(out)@ + folded(*v, depth as nat, max as nat, ind as nat),
    decreases v,
{
    let ghost d = deepest(*v, depth as nat, max as nat);
    proof {
        lemma_deepest_at_least(*v, depth as nat, max as nat);
        lemma_mul_mono(depth as nat, d, ind as nat);
        lemma_mul_mono((depth + 1) as nat, (d + 1) as nat, ind as nat);
        lemma_mul_mono(d, (d + 1) as nat, ind as nat);
        reveal_strlit("null");
        reveal_strlit("true");
        reveal_strlit("false");
        reveal_strlit(" keys... }");
        reveal_strlit(" items... ]");
    }
    let indent_n = depth * ind;
    let next_n = (depth + 1) * ind;
    match v {
        JsonValue::Null => {
            append_str(out, "null");
            assert(out@ =~= old(out)@ + text_null());
        },
        JsonValue::Bool(b) => {
            if *b {
                append_str(out, "true");
                assert(out@ =~= old(out)@ + text_true());
            } else {
                append_str(out, "false");
                assert(out@ =~= old(out)@ + text_false());
            }
        },
        JsonValue::Number(n) => {
            append_str(out, n.as_str());
        },
        JsonValue::Str(s) => {
            out.push('"');
            let e = escape_json_string(s.as_str());
            append_str(out, e.as_str());
            out.push('"');
            assert(out@ =~= old(out)@ + (seq!['"'] + escaped(s@) + seq!['"']));
        },
        JsonValue::Array(a) => {
            if a.len() == 0 {
                out.push('[');
                out.push(']');
                assert(out@ =~= old(out)@ + seq!['[', ']']);
            } else if max > 0 && depth >= max {
                out.push('[');
                out.push(' ');
                push_decimal(out, a.len() as u64);
                append_str(out, " items... ]");
                assert(" items... ]"@ =~= text_items_tail());
                assert(out@ =~= old(out)@ + (seq!['[', ' '] + decimal(a@.len()) + text_items_tail()));
            } else {
                out.push('[');
                out.push('\n');
                let ghost start = out@;
                proof {
                    lemma_items_deepest(a@, a@.len(), depth as nat, max as nat);
                }
                let mut i: usize = 0;
                while i < a.len()
                    invariant
                        i <= a@.len(),
                        0 < a@.len(),
                        !folds_at(depth as nat, max as nat),
                        deepest(*v, depth as nat, max as nat) == items_deepest(a@, a@.len(), depth as nat, max as nat),
                        *v == JsonValue::Array(*a),
                        d == deepest(*v, depth as nat, max as nat),
                        d < usize::MAX,
                        depth <= d,
                        (d + 1) * ind <= usize::MAX,
                        next_n == (depth + 1) * ind,
                        forall|j: int| 0 <= j < a@.len() ==> d >= deepest(#[trigger] a@[j], (depth + 1) as nat, max as nat),
                        out@ == start + items_text(a@, i as nat, depth as nat, max as nat, ind as nat),
                    decreases a@.len() - i,
                {
                    let ghost before = out@;
                    push_spaces(out, next_n);
                    proof {
                        lemma_mul_mono((deepest(a@[i as int], (depth + 1) as nat, max as nat) + 1) as nat, (d + 1) as nat, ind as nat);
                    }
                    fold_into(out, &a[i], depth + 1, max, ind);
                    if i + 1 < a.len() {
                        out.push(',');
                    }
                    out.push('\n');
                    i += 1;
                    assert(out@ =~= start + items_text(a@, i as nat, depth as nat, max as nat, ind as nat));
                }
                push_spaces(out, indent_n);
                out.push(']');
                assert(out@ =~= old(out)@ + (seq!['[', '\n'] + items_text(a@, a@.len(), depth as nat, max as nat, ind as nat)
                    + spaces((depth * ind) as nat) + seq![']']));
            }
        },
        JsonValue::Object(m) => {
            if m.len() == 0 {
                out.push('{');
                out.push('}');
                assert(out@ =~= old(out)@ + seq!['{', '}']);
            } else if max > 0 && depth >= max {
                out.push('{');
                out.push(' ');
                push_decimal(out, m.len() as u64);
                append_str(out, " keys... }");
                assert(" keys... }"@ =~= text_keys_tail());
                assert(out@ =~= old(out)@ + (seq!['{', ' '] + decimal(m@.len()) + text_keys_tail()));
            } else {
                out.push('{');
                out.push('\n');
                let ghost start = out@;
                proof {
                    lemma_entries_deepest(m@, m@.len(), depth as nat, max as nat);
                }
                let mut i: usize = 0;
                while i < m.len()
                    invariant
                        i <= m@.len(),
                        0 < m@.len(),
                        !folds_at(depth as nat, max as nat),
                        *v == JsonValue::Object(*m),
                        d == deepest(*v, depth as nat, max as nat),
                        d < usize::MAX,
                        depth <= d,
                        (d + 1) * ind <= usize::MAX,
                        next_n == (depth + 1) * ind,
                        forall|j: int| 0 <= j < m@.len() ==> d >= deepest(#[trigger] m@[j].1, (depth + 1) as nat, max as nat),
                        out@ == start + entries_text(m@, i as nat, depth as nat, max as nat, ind as nat),
                    decreases m@.len() - i,
                {
                    push_spaces(out, next_n);
                    out.push('"');
                    let key = escape_json_string(m[i].0.as_str());
                    append_str(out, key.as_str());
                    out.push('"');
                    out.push(':');
                    out.push(' ');
                    proof {
                        lemma_mul_mono((deepest(m@[i as int].1, (depth + 1) as nat, max as nat) + 1) as nat, (d + 1) as nat, ind as nat);
                    }
                    fold_into(out, &m[i].1, depth + 1, max, ind);
                    if i + 1 < m.len() {
                        out.push(',');
                    }
                    out.push('\n');
                    i += 1;
                    assert(out@ =~= start + entries_text(m@, i as nat, depth as nat, max as nat, ind as nat));
                }
                push_spaces(out, indent_n);
                out.push('}');
                assert(out@ =~= old(out)@ + (seq!['{', '\n'] + entries_text(m@, m@.len(), depth as nat, max as nat, ind as nat)
                    + spaces((depth * ind) as nat) + seq!['}']));
            }
        },
    }
}

/// Prints `v` found at `current_depth` the folding way (see `folded`).
pub fn format_json_value(v: &JsonValue, current_depth: usize, max_depth: usize, indent_size: usize) -> (r: String)
    requires
        deepest(*v, current_depth as nat, max_depth as nat) < usize::MAX,
        (deepest(*v, current_depth as nat, max_depth as nat) + 1) * indent_size <= usize::MAX,
    ensures
        r@ == folded(*v, current_depth as nat, max_depth as nat, indent_size as nat),
{
    let mut out: Vec<char> = Vec::new();
    fold_into(&mut out, v, current_depth, max_depth, indent_size);
    string_from_chars(&out)
}

/// How deeply containers nest in `v`: 0 for a scalar, one more than its deepest element for
/// an array or object (1 when it is empty).
pub open spec fn nesting(v: JsonValue) -> nat
    decreases v, 0nat,
{
    match v {
        JsonValue::Array(a) => 1 + items_nesting(a@, a@.len()),
        JsonValue::Object(m) => 1 + entries_nesting(m@, m@.len()),
        _ => 0,
    }
}

pub open spec fn items_nesting(a: Seq<JsonValue>, k: nat) -> nat
    decreases a, k,
{
    if k == 0 || k > a.len() {
        0
    } else {
        max_nat(items_nesting(a, (k - 1) as nat), nesting(a[k - 1]))
    }
}

pub open spec fn entries_nesting(m: Seq<(String, JsonValue)>, k: nat) -> nat
    decreases m, k,
{
    if k == 0 || k > m.len() {
        0
    } else {
        max_nat(entries_nesting(m, (k - 1) as nat), nesting(m[k - 1].1))
    }
}

proof fn lemma_deepest_bound(v: JsonValue, depth: nat, max: nat)
    ensures
        deepest(v, depth, max) <= depth + nesting(v),
    decreases v, 0nat,
{
    match v {
        JsonValue::Array(a) => {
            if a@.len() > 0 && !folds_at(depth, max) {
                lemma_items_bound(a@, a@.len(), depth, max);
            }
        },
        JsonValue::Object(m) => {
            if m@.len() > 0 && !folds_at(depth, max) {
                lemma_entries_bound(m@, m@.len(), depth, max);
            }
        },
        _ => {},
    }
}

proof fn lemma_items_bound(a: Seq<JsonValue>, k: nat, depth: nat, max: nat)
    ensures
        items_deepest(a, k, depth, max) <= depth + 1 + items_nesting(a, k),
    decreases a, k,
{
    if k > 0 && k <= a.len() {
        lemma_items_bound(a, (k - 1) as nat, depth, max);
        lemma_deepest_bound(a[k - 1], depth + 1, max);
    }
}

proof fn lemma_entries_bound(m: Seq<(String, JsonValue)>, k: nat, depth: nat, max: nat)
    ensures
        entries_deepest(m, k, depth, max) <= depth + 1 + entries_nesting(m, k),
    decreases m, k,
{
    if k > 0 && k <= m.len() {
        lemma_entries_bound(m, (k - 1) as nat, depth, max);
        lemma_deepest_bound(m[k - 1].1, depth + 1, max);
    }
}

/// What `format_json` gives: where the text parses, the folded printing (with folding on) or
/// the pretty printing (falling back to the text if that fails); otherwise the text itself.
pub open spec fn formatted_json(s: Seq<char>, options: JsonFormatOptions) -> Seq<char> {
    match spec_json_from_str(s) {
        Ok(v) => if options.enable_fold {
            folded(v, 0, options.max_depth as nat, options.indent_size as nat)
        } else {
            match spec_json_to_string_pretty(v) {
                Some(t) => t,
                None => s,
            }
        },
        Err(_) => s,
    }
}

/// Formats JSON text for display (see `formatted_json`). Text that does not parse is
/// returned as it is.
pub fn format_json(json_str: &str, options: &JsonFormatOptions) -> (r: String)
    requires
        options.enable_fold ==> 129 * options.indent_size <= usize::MAX,
    ensures
        r@ == formatted_json(json_str@, *options),
{
    match json_from_str(json_str) {
        Ok(value) => {
            if options.enable_fold {
                proof {
                    lemma_deepest_bound(value, 0, options.max_depth as nat);
                    lemma_mul_mono(
                        (deepest(value, 0, options.max_depth as nat) + 1) as nat,
                        129,
                        options.indent_size as nat,
                    );
                }
                format_json_value(&value, 0, options.max_depth, options.indent_size)
            } else {
                match json_to_string_pretty(&value) {
                    Some(t) => t,
                    None => string_from_chars(&chars_of(json_str)),
                }
            }
        },
        Err(_) => string_from_chars(&chars_of(json_str)),
    }
}

/// JSON text without insignificant white space (serde's compact printing of the parsed
/// value); text that does not parse, or whose printing fails, is returned as it is.
pub fn compact_json(json_str: &str) -> (r: String)
    ensures
        r@ == match spec_json_from_str(json_str@) {
            Ok(v) => match spec_json_to_string(v) {
                Some(t) => t,
                None => json_str@,
            },
            Err(_) => json_str@,
        },
{
    match json_from_str(json_str) {
        Ok(value) => match json_to_string(&value) {
            Some(t) => t,
            None => string_from_chars(&chars_of(json_str)),
        },
        Err(_) => string_from_chars(&chars_of(json_str)),
    }
}

/// Whether the text parses as JSON.
pub fn is_valid_json(s: &str) -> (r: bool)
    ensures
        r == spec_json_from_str(s@) is Ok,
{
    json_from_str(s).is_ok()
}

/// Text pretty-printed when it parses as JSON (and printing succeeds), else unchanged.
pub open spec fn pretty_or_same(s: Seq<char>) -> Seq<char> {
    match spec_json_from_str(s) {
        Ok(v) => match spec_json_to_string_pretty(v) {
            Some(t) => t,
            None => s,
        },
        Err(_) => s,
    }
}

/// Pretty-prints JSON text; text that does not parse is returned as it is.
pub fn pretty_json_or_same(s: &str) -> (r: String)
    ensures
        r@ == pretty_or_same(s@),
{
    match json_from_str(s) {
        Ok(value) => match json_to_string_pretty(&value) {
            Some(t) => t,
            None => string_from_chars(&chars_of(s)),
        },
        Err(_) => string_from_chars(&chars_of(s)),
    }
}

/// Law: a JSON literal is printed as itself wherever it stands: `true` and `false` as the
/// boolean they hold, `null` as `null`, a number as its text; a string between quotes.
pub proof fn law_folded_literals(b: bool, n: String, t: String, depth: nat, max: nat, ind: nat)
    ensures
        folded(JsonValue::Bool(b), depth, max, ind) == (if b { "true"@ } else { "false"@ }),
        folded(JsonValue::Bool(true), depth, max, ind) != folded(JsonValue::Bool(false), depth, max, ind),
        folded(JsonValue::Null, depth, max, ind) == "null"@,
        folded(JsonValue::Number(n), depth, max, ind) == n@,
        folded(JsonValue::Str(t), depth, max, ind).len() >= 2,
        folded(JsonValue::Str(t), depth, max, ind)[0] == '"',
        folded(JsonValue::Str(t), depth, max, ind).last() == '"',
{
    reveal_strlit("true");
    reveal_strlit("false");
    reveal_strlit("null");
    assert(text_true() =~= "true"@);
    assert(text_false() =~= "false"@);
    assert(text_null() =~= "null"@);
    assert(folded(JsonValue::Bool(true), depth, max, ind)[0] == 't');
    assert(folded(JsonValue::Bool(false), depth, max, ind)[0] == 'f');
}

/// Law: an entry of an expanded object prints its boolean value as that value: the entry
/// line of key `k` holding `b` is the indent, the key in quotes, `: ` and `true` or `false`.
pub proof fn law_folded_bool_entry(k: String, b: bool, depth: nat, max: nat, ind: nat)
    ensures
        entries_text(seq![(k, JsonValue::Bool(b))], 1, depth, max, ind) == spaces((depth + 1) * ind)
            + seq!['"'] + escaped(k@) + seq!['"', ':', ' '] + (if b { "true"@ } else { "false"@ })
            + seq!['\n'],
{
    law_folded_literals(b, k, k, depth + 1, max, ind);
    let m = seq![(k, JsonValue::Bool(b))];
    assert(entries_text(m, 0, depth, max, ind) =~= Seq::<char>::empty());
    assert(m[0].1 == JsonValue::Bool(b));
    assert(entries_text(m, 1, depth, max, ind) =~= spaces((depth + 1) * ind) + seq!['"'] + escaped(k@)
        + seq!['"', ':', ' '] + folded(JsonValue::Bool(b), depth + 1, max, ind) + seq!['\n']);
}

} // verus!
