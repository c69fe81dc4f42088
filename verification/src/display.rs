//! Preparing text for display: dropping characters that break text layout, counting
//! lines, and shortening to a length or a display width.
use vstd::prelude::*;
use crate::text::{chars_of, string_from_chars};

verus! {

/// Characters dropped before display: bidirectional and other invisible formatting marks
/// (U+061C, U+200E–U+200F, U+202A–U+202E, U+2066–U+2069, U+2028, U+2029, U+FEFF, U+2060) and
/// control characters below the space other than newline, carriage return and tab.
pub open spec fn is_dropped_for_display(c: char) -> bool {
    ||| c == '\u{061C}'
    ||| '\u{200E}' <= c <= '\u{200F}'
    ||| '\u{202A}' <= c <= '\u{202E}'
    ||| '\u{2066}' <= c <= '\u{2069}'
    ||| c == '\u{2028}'
    ||| c == '\u{2029}'
    ||| c == '\u{FEFF}'
    ||| c == '\u{2060}'
    ||| (c < ' ' && c != '\n' && c != '\r' && c != '\t')
}

/// The text without the dropped characters, the others in order.
pub open spec fn sanitized(s: Seq<char>) -> Seq<char>
    decreases s.len(),
{
    if s.len() == 0 {
        Seq::empty()
    } else {
        sanitized(s.drop_last()) + if is_dropped_for_display(s.last()) {
            Seq::<char>::empty()
        } else {
            seq![s.last()]
        }
    }
}

/// Removes the characters that break text layout (see `is_dropped_for_display`).
pub fn sanitize_display_text(text: &str) -> (r: String)
    ensures
        r@ == sanitized(text@),
{
    let cs = chars_of(text);
    let mut out: Vec<char> = Vec::new();
    let mut i: usize = 0;
    while i < cs.len()
        invariant
            i <= cs@.len(),
            cs@ == text@,
            out@ == sanitized(cs@.take(i as int)),
        decreases cs@.len() - i,
    {
        assert(cs@.take(i + 1).drop_last() =~= cs@.take(i as int));
        let c = cs[i];
        let dropped = c == '\u{061C}' || ('\u{200E}' <= c && c <= '\u{200F}') || ('\u{202A}' <= c
            && c <= '\u{202E}') || ('\u{2066}' <= c && c <= '\u{2069}') || c == '\u{2028}' || c
            == '\u{2029}' || c == '\u{FEFF}' || c == '\u{2060}' || (c < ' ' && c != '\n' && c
            != '\r' && c != '\t');
        if !dropped {
            out.push(c);
        }
        i += 1;
        assert(out@ =~= sanitized(cs@.take(i as int)));
    }
    assert(cs@.take(cs@.len() as int) =~= cs@);
    string_from_chars(&out)
}

/// The number of `'\n'` in a text.
pub open spec fn newline_count(s: Seq<char>) -> nat
    decreases s.len(),
{
    if s.len() == 0 {
        0
    } else {
        newline_count(s.drop_last()) + if s.last() == '\n' {
            1nat
        } else {
            0nat
        }
    }
}

/// The number of lines `str::lines` yields for a non-empty text: one per `'\n'`, plus one
/// for a last line that does not end in `'\n'`.
pub open spec fn line_count(s: Seq<char>) -> nat {
    if s.len() == 0 {
        1
    } else {
        newline_count(s) + if s.last() == '\n' {
            0nat
        } else {
            1nat
        }
    }
}

/// The number of lines of a text, at least 1 (an empty text counts as one line).
pub fn count_lines(text: &str) -> (n: usize)
    ensures
        n == line_count(text@),
        n >= 1,
{
    let cs = chars_of(text);
    if cs.len() == 0 {
        return 1;
    }
    let mut n: usize = 0;
    let mut i: usize = 0;
    while i < cs.len()
        invariant
            i <= cs@.len(),
            cs@ == text@,
            n == newline_count(cs@.take(i as int)),
            n <= i,
            i > 0 && cs@[i - 1] != '\n' ==> n < i,
        decreases cs@.len() - i,
    {
        assert(cs@.take(i + 1).drop_last() =~= cs@.take(i as int));
        if cs[i] == '\n' {
            n += 1;
        }
        i += 1;
    }
    assert(cs@.take(cs@.len() as int) =~= cs@);
    if cs[cs.len() - 1] == '\n' {
        assert(n >= 1);
        n
    } else {
        n + 1
    }
}

/// `value` cut to `max` characters and marked with `…` when it has more.
pub open spec fn shortened(value: Seq<char>, max: nat) -> Seq<char> {
    if value.len() <= max {
        value
    } else {
        value.take(max as int).push('…')
    }
}

/// Cuts a text to `max` characters, ending it with `…` when anything was cut.
pub fn shorten(value: &str, max: usize) -> (r: String)
    ensures
        r@ == shortened(value@, max as nat),
{
    let cs = chars_of(value);
    if cs.len() <= max {
        return string_from_chars(&cs);
    }
    let mut out: Vec<char> = Vec::new();
    let mut i: usize = 0;
    while i < max
        invariant
            i <= max < cs@.len(),
            out@ == cs@.take(i as int),
        decreases max - i,
    {
        out.push(cs[i]);
        i += 1;
        assert(out@ =~= cs@.take(i as int));
    }
    out.push('…');
    string_from_chars(&out)
}

/// Display width of a character: 1 for ASCII, 2 for any other.
pub open spec fn char_width(c: char) -> nat {
    if c <= '\u{7f}' {
        1
    } else {
        2
    }
}

/// Display width of a text.
pub open spec fn display_width(s: Seq<char>) -> nat
    decreases s.len(),
{
    if s.len() == 0 {
        0
    } else {
        display_width(s.drop_last()) + char_width(s.last())
    }
}

/// The number of leading characters that fit in `max` columns: the longest prefix whose
/// display width is at most `max`.
pub open spec fn fitting_prefix(s: Seq<char>, max: nat) -> nat
    decreases s.len(),
{
    if display_width(s) <= max {
        s.len()
    } else {
        fitting_prefix(s.drop_last(), max)
    }
}

/// A text cut to `max` display columns: `None` when it fits as it is, else the characters
/// that fit followed by `…`.
pub open spec fn truncated_display(s: Seq<char>, max: nat) -> Option<Seq<char>> {
    if display_width(s) <= max {
        None
    } else {
        Some(s.take(fitting_prefix(s, max) as int).push('…'))
    }
}

proof fn lemma_width_prefix(s: Seq<char>, i: int)
    requires
        0 <= i < s.len(),
    ensures
        display_width(s.take(i + 1)) == display_width(s.take(i)) + char_width(s[i]),
{
    assert(s.take(i + 1).drop_last() =~= s.take(i));
}

proof fn lemma_width_monotone(s: Seq<char>, i: int, j: int)
    requires
        0 <= i <= j <= s.len(),
    ensures
        display_width(s.take(i)) <= display_width(s.take(j)),
    decreases j - i,
{
    if i < j {
        lemma_width_monotone(s, i, j - 1);
        lemma_width_prefix(s, j - 1);
    }
}

proof fn lemma_fitting_prefix_is(s: Seq<char>, max: nat, k: int)
    requires
        0 <= k <= s.len(),
        display_width(s.take(k)) <= max,
        k < s.len() ==> display_width(s.take(k + 1)) > max,
    ensures
        fitting_prefix(s, max) == k,
    decreases s.len(),
{
    if display_width(s) <= max {
        if k < s.len() {
            lemma_width_monotone(s, k + 1, s.len() as int);
            assert(s.take(s.len() as int) =~= s);
        }
    } else {
        if k == s.len() {
            assert(s.take(k) =~= s);
        } else {
            let t = s.drop_last();
            assert(t.take(k) =~= s.take(k));
            if k < t.len() {
                assert(t.take(k + 1) =~= s.take(k + 1));
            }
            lemma_fitting_prefix_is(t, max, k);
        }
    }
}

/// Cuts a name to `max_width` display columns (ASCII one column, other characters two):
/// `None` when it fits as it is, else the characters that fit followed by `…`.
pub fn truncate_display(s: &str, max_width: usize) -> (r: Option<String>)
    ensures
        match r {
            Some(t) => truncated_display(s@, max_width as nat) == Some(t@),
            None => truncated_display(s@, max_width as nat) is None,
        },
{
    let cs = chars_of(s);
    let mut width: usize = 0;
    let mut i: usize = 0;
    while i < cs.len()
        invariant
            i <= cs@.len(),
            cs@ == s@,
            width == display_width(cs@.take(i as int)),
            width <= max_width,
        decreases cs@.len() - i,
    {
        proof {
            lemma_width_prefix(cs@, i as int);
        }
        let cw: usize = if cs[i] <= '\u{7f}' { 1 } else { 2 };
        if cw > max_width - width {
            proof {
                lemma_fitting_prefix_is(cs@, max_width as nat, i as int);
                lemma_width_monotone(cs@, i + 1, cs@.len() as int);
                assert(cs@.take(cs@.len() as int) =~= cs@);
            }
            let mut out: Vec<char> = Vec::new();
            let mut k: usize = 0;
            while k < i
                invariant
                    k <= i < cs@.len(),
                    out@ == cs@.take(k as int),
                decreases i - k,
            {
                out.push(cs[k]);
                k += 1;
                assert(out@ =~= cs@.take(k as int));
            }
            out.push('…');
            return Some(string_from_chars(&out));
        }
        width = width + cw;
        i += 1;
    }
    assert(cs@.take(cs@.len() as int) =~= cs@);
    None
}

proof fn lemma_fitting_prefix(s: Seq<char>, max: nat)
    requires
        display_width(s) > max,
    ensures
        fitting_prefix(s, max) < s.len(),
        display_width(s.take(fitting_prefix(s, max) as int)) <= max,
        display_width(s.take(fitting_prefix(s, max) as int + 1)) > max,
    decreases s.len(),
{
    let t = s.drop_last();
    assert(s.len() > 0);
    let k = fitting_prefix(s, max);
    assert(k == fitting_prefix(t, max));
    if display_width(t) <= max {
        assert(k == t.len());
        assert(s.take(t.len() as int) =~= t);
        assert(s.take(t.len() as int + 1) =~= s);
    } else {
        lemma_fitting_prefix(t, max);
        assert(t.take(k as int) =~= s.take(k as int));
        assert(t.take(k as int + 1) =~= s.take(k as int + 1));
    }
}

/// Law: a text is cut exactly when it is wider than `max`, and then it keeps its longest
/// beginning that fits in `max` columns (one more character would not fit), marked with `…`.
pub proof fn law_truncated_fits(s: Seq<char>, max: nat)
    ensures
        truncated_display(s, max) is None <==> display_width(s) <= max,
        match truncated_display(s, max) {
            Some(t) => exists|k: int|
                0 <= k < s.len() && t == s.take(k).push('…') && display_width(s.take(k)) <= max
                    && display_width(#[trigger] s.take(k + 1)) > max,
            None => true,
        },
{
    if display_width(s) > max {
        lemma_fitting_prefix(s, max);
        let k = fitting_prefix(s, max) as int;
        assert(display_width(s.take(k + 1)) > max);
    }
}

} // verus!
