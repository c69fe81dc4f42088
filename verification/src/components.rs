//! Colours that carry meaning in the interface: per HTTP method and per status class.
use vstd::prelude::*;
use crate::outside::{spec_to_uppercase, to_uppercase};
use crate::text::{ascii_upper, chars_eq_str, chars_of};

verus! {

/// The method names the method selector offers, in order.
pub open spec fn method_name(i: int) -> Seq<char> {
    if i == 0 {
        "GET"@
    } else if i == 1 {
        "POST"@
    } else if i == 2 {
        "PUT"@
    } else if i == 3 {
        "DELETE"@
    } else if i == 4 {
        "PATCH"@
    } else if i == 5 {
        "HEAD"@
    } else {
        "OPTIONS"@
    }
}

/// The text colour (RGB) of a method, by its upper-cased name; grey for others.
pub open spec fn method_color_of(method: Seq<char>) -> u32 {
    let u = spec_to_uppercase(method);
    if u == "GET"@ {
        0x22c55e
    } else if u == "POST"@ {
        0xf59e0b
    } else if u == "PUT"@ {
        0x3b82f6
    } else if u == "DELETE"@ {
        0xef4444
    } else if u == "PATCH"@ {
        0x8b5cf6
    } else if u == "HEAD"@ {
        0x6b7280
    } else if u == "OPTIONS"@ {
        0x06b6d4
    } else {
        0x6b7280
    }
}

/// The text colour (RGB) of an HTTP method: green GET, amber POST, blue PUT, red DELETE,
/// violet PATCH, grey HEAD, cyan OPTIONS, grey for any other; compared upper-cased.
pub fn method_color(method: &str) -> (c: u32)
    ensures
        c == method_color_of(method@),
        vstd::utf8::is_ascii_chars(method@) ==> spec_to_uppercase(method@) == ascii_upper(method@),
{
    let u = chars_of(to_uppercase(method).as_str());
    if chars_eq_str(&u, "GET") {
        0x22c55e
    } else if chars_eq_str(&u, "POST") {
        0xf59e0b
    } else if chars_eq_str(&u, "PUT") {
        0x3b82f6
    } else if chars_eq_str(&u, "DELETE") {
        0xef4444
    } else if chars_eq_str(&u, "PATCH") {
        0x8b5cf6
    } else if chars_eq_str(&u, "HEAD") {
        0x6b7280
    } else if chars_eq_str(&u, "OPTIONS") {
        0x06b6d4
    } else {
        0x6b7280
    }
}

/// The background colour (RGBA, a fifth opaque) of an HTTP method: the method's text colour
/// with alpha `0x20`.
pub fn method_bg_color(method: &str) -> (c: u32)
    ensures
        c == method_color_of(method@) * 256 + 0x20,
        vstd::utf8::is_ascii_chars(method@) ==> spec_to_uppercase(method@) == ascii_upper(method@),
{
    let u = chars_of(to_uppercase(method).as_str());
    if chars_eq_str(&u, "GET") {
        0x22c55e20
    } else if chars_eq_str(&u, "POST") {
        0xf59e0b20
    } else if chars_eq_str(&u, "PUT") {
        0x3b82f620
    } else if chars_eq_str(&u, "DELETE") {
        0xef444420
    } else if chars_eq_str(&u, "PATCH") {
        0x8b5cf620
    } else if chars_eq_str(&u, "HEAD") {
        0x6b728020
    } else if chars_eq_str(&u, "OPTIONS") {
        0x06b6d420
    } else {
        0x6b728020
    }
}

/// The colour (RGB) of a status code: green 2xx, amber 3xx, orange 4xx, red 5xx, grey otherwise.
pub fn status_color(status: u16) -> (c: u32)
    ensures
        c == (if 200 <= status < 300 {
            0x22c55eu32
        } else if 300 <= status < 400 {
            0xf59e0bu32
        } else if 400 <= status < 500 {
            0xf97316u32
        } else if 500 <= status < 600 {
            0xef4444u32
        } else {
            0x6b7280u32
        }),
{
    if 200 <= status && status < 300 {
        0x22c55e
    } else if 300 <= status && status < 400 {
        0xf59e0b
    } else if 400 <= status && status < 500 {
        0xf97316
    } else if 500 <= status && status < 600 {
        0xef4444
    } else {
        0x6b7280
    }
}

/// The position of a method in the method selector, by its upper-cased name; 0 (GET) for a
/// method it does not offer.
pub fn method_index(method: &str) -> (i: usize)
    ensures
        i < 7,
        vstd::utf8::is_ascii_chars(method@) ==> spec_to_uppercase(method@) == ascii_upper(method@),
        (exists|k: int| 0 <= k < 7 && spec_to_uppercase(method@) == method_name(k)) ==> method_name(
            i as int,
        ) == spec_to_uppercase(method@) && forall|k: int|
            0 <= k < i ==> method_name(k) != spec_to_uppercase(method@),
        !(exists|k: int| 0 <= k < 7 && spec_to_uppercase(method@) == method_name(k)) ==> i == 0,
{
    let u = chars_of(to_uppercase(method).as_str());
    let names = ["GET", "POST", "PUT", "DELETE", "PATCH", "HEAD", "OPTIONS"];
    let mut k: usize = 0;
    while k < 7
        invariant
            k <= 7,
            u@ == spec_to_uppercase(method@),
            vstd::utf8::is_ascii_chars(method@) ==> spec_to_uppercase(method@) == ascii_upper(method@),
            names@.len() == 7,
            forall|j: int| 0 <= j < 7 ==> (#[trigger] names@[j])@ == method_name(j),
            forall|j: int| 0 <= j < k ==> method_name(j) != u@,
        decreases 7 - k,
    {
        if chars_eq_str(&u, names[k]) {
            return k;
        }
        k += 1;
    }
    0
}

} // verus!
