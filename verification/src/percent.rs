//! Percent-encoding of query components, as the URL helpers of this crate
//! produce and read them, and the proof that decoding undoes encoding.
use vstd::prelude::*;
use vstd::utf8::*;

verus! {

broadcast use vstd::utf8::group_utf8_lib;

/// Bytes left as they are by percent-encoding: ASCII letters, digits and `-` `.` `_` `~`.
pub open spec fn is_unreserved_byte(b: u8) -> bool {
    ||| 0x30 <= b <= 0x39
    ||| 0x41 <= b <= 0x5a
    ||| 0x61 <= b <= 0x7a
    ||| b == 0x2d
    ||| b == 0x2e
    ||| b == 0x5f
    ||| b == 0x7e
}

/// Upper-case hexadecimal digit of a value below 16.
pub open spec fn hex_digit_upper(d: u8) -> u8
    recommends
        d < 16,
{
    if d < 10 {
        (0x30 + d) as u8
    } else {
        (0x41 - 10 + d) as u8
    }
}

/// Value of a hexadecimal digit byte (either case).
pub open spec fn hex_value(b: u8) -> Option<u8> {
    if 0x30 <= b <= 0x39 {
        Some((b - 0x30) as u8)
    } else if 0x41 <= b <= 0x46 {
        Some((b - 0x41 + 10) as u8)
    } else if 0x61 <= b <= 0x66 {
        Some((b - 0x61 + 10) as u8)
    } else {
        None
    }
}

/// The encoding of one byte.
pub open spec fn percent_encode_byte(b: u8) -> Seq<u8> {
    if is_unreserved_byte(b) {
        seq![b]
    } else {
        seq![0x25u8, hex_digit_upper(b / 16), hex_digit_upper(b % 16)]
    }
}

/// Percent-encoding of a byte string: every byte but the unreserved ones becomes
/// `%` followed by two upper-case hex digits.
pub open spec fn percent_encode_bytes(bs: Seq<u8>) -> Seq<u8>
    decreases bs.len(),
{
    if bs.len() == 0 {
        seq![]
    } else {
        percent_encode_byte(bs[0]) + percent_encode_bytes(bs.drop_first())
    }
}

/// Percent-decoding of a byte string. A `%` followed by two hex digits becomes the byte they
/// name; a `%` that is not followed by two hex digits is kept as it is.
pub open spec fn percent_decode_bytes(bs: Seq<u8>) -> Seq<u8>
    decreases bs.len(),
{
    if bs.len() == 0 {
        seq![]
    } else if bs[0] != 0x25 {
        seq![bs[0]] + percent_decode_bytes(bs.drop_first())
    } else if bs.len() < 3 {
        bs
    } else {
        match (hex_value(bs[1]), hex_value(bs[2])) {
            (Some(h), Some(l)) => seq![(h * 16 + l) as u8] + percent_decode_bytes(
                bs.subrange(3, bs.len() as int),
            ),
            (Some(_), None) => seq![0x25u8, bs[1]] + percent_decode_bytes(
                bs.subrange(2, bs.len() as int),
            ),
            (None, _) => seq![0x25u8] + percent_decode_bytes(bs.drop_first()),
        }
    }
}

/// Text made of ASCII bytes.
pub open spec fn ascii_text(bs: Seq<u8>) -> Seq<char> {
    bs.map_values(|b: u8| b as char)
}

/// The text that percent-encoding gives for `s` (its UTF-8 bytes, encoded).
pub open spec fn url_encoded(s: Seq<char>) -> Seq<char> {
    ascii_text(percent_encode_bytes(encode_utf8(s)))
}

/// What decoding `s` gives: `Some` text when the decoded bytes are valid UTF-8.
pub open spec fn url_decoded(s: Seq<char>) -> Option<Seq<char>> {
    let d = percent_decode_bytes(encode_utf8(s));
    if valid_utf8(d) {
        Some(decode_utf8(d))
    } else {
        None
    }
}

/// Decoding `s`, or `s` itself where the decoded bytes are not UTF-8.
pub open spec fn decoded_or_raw(s: Seq<char>) -> Seq<char> {
    match url_decoded(s) {
        Some(t) => t,
        None => s,
    }
}

proof fn lemma_encoded_byte_ascii(b: u8)
    ensures
        forall|i: int|
            0 <= i < percent_encode_byte(b).len() ==> #[trigger] percent_encode_byte(b)[i] < 0x80,
        forall|i: int|
            0 <= i < percent_encode_byte(b).len() ==> {
                let x = #[trigger] percent_encode_byte(b)[i];
                x != 0x26 && x != 0x3d && x != 0x3f && x != 0x23
            },
{
}

/// Every byte of an encoding is ASCII and none is `&`, `=`, `?` or `#`.
pub proof fn lemma_encoded_bytes_plain(bs: Seq<u8>)
    ensures
        forall|i: int|
            0 <= i < percent_encode_bytes(bs).len() ==> {
                let x = #[trigger] percent_encode_bytes(bs)[i];
                x < 0x80 && x != 0x26 && x != 0x3d && x != 0x3f && x != 0x23
            },
    decreases bs.len(),
{
    if bs.len() > 0 {
        lemma_encoded_byte_ascii(bs[0]);
        lemma_encoded_bytes_plain(bs.drop_first());
        let a = percent_encode_byte(bs[0]);
        let r = percent_encode_bytes(bs.drop_first());
        assert forall|i: int| 0 <= i < (a + r).len() implies {
            let x = #[trigger] (a + r)[i];
            x < 0x80 && x != 0x26 && x != 0x3d && x != 0x3f && x != 0x23
        } by {
            if i < a.len() {
                assert((a + r)[i] == a[i]);
            } else {
                assert((a + r)[i] == r[i - a.len()]);
            }
        }
    }
}

proof fn lemma_hex_roundtrip(b: u8)
    ensures
        hex_value(hex_digit_upper(b / 16)) == Some((b / 16) as u8),
        hex_value(hex_digit_upper(b % 16)) == Some((b % 16) as u8),
        ((b / 16) as u8) * 16 + ((b % 16) as u8) == b,
{
}

/// Decoding the encoding of a byte string gives the byte string back.
pub proof fn lemma_decode_encode_bytes(bs: Seq<u8>)
    ensures
        percent_decode_bytes(percent_encode_bytes(bs)) == bs,
    decreases bs.len(),
{
    if bs.len() > 0 {
        let b = bs[0];
        let rest = percent_encode_bytes(bs.drop_first());
        lemma_decode_encode_bytes(bs.drop_first());
        let e = percent_encode_bytes(bs);
        assert(e == percent_encode_byte(b) + rest);
        if is_unreserved_byte(b) {
            assert(e.drop_first() =~= rest);
            assert(percent_decode_bytes(e) == seq![b] + percent_decode_bytes(rest));
        } else {
            lemma_hex_roundtrip(b);
            assert(e.subrange(3, e.len() as int) =~= rest);
            assert(e[1] == hex_digit_upper(b / 16));
            assert(e[2] == hex_digit_upper(b % 16));
            assert(percent_decode_bytes(e) == seq![b] + percent_decode_bytes(rest));
        }
        assert(seq![b] + bs.drop_first() =~= bs);
    }
}

/// The UTF-8 bytes of ASCII text are its characters.
pub proof fn lemma_ascii_text_bytes(bs: Seq<u8>)
    requires
        forall|i: int| 0 <= i < bs.len() ==> #[trigger] bs[i] < 0x80,
    ensures
        encode_utf8(ascii_text(bs)) == bs,
        is_ascii_chars(ascii_text(bs)),
{
    let t = ascii_text(bs);
    assert forall|i: int| 0 <= i < t.len() implies '\0' <= #[trigger] t[i] <= '\u{7f}' by {
        assert(t[i] == bs[i] as char);
        assert(bs[i] < 0x80);
    }
    assert(is_ascii_chars(t));
    is_ascii_chars_encode_utf8(t);
    assert forall|i: int| 0 <= i < bs.len() implies encode_utf8(t)[i] == bs[i] by {
        assert(t[i] as u8 == encode_utf8(t)[i]);
        assert(t[i] == bs[i] as char);
        lemma_byte_char(bs[i]);
    }
    assert(encode_utf8(t) =~= bs);
}

/// Decoding what encoding gave yields the text itself; the encoded text holds none of
/// the characters `&`, `=`, `?`, `#`.
pub proof fn lemma_url_roundtrip(s: Seq<char>)
    ensures
        url_decoded(url_encoded(s)) == Some(s),
        decoded_or_raw(url_encoded(s)) == s,
        forall|i: int|
            0 <= i < url_encoded(s).len() ==> {
                let c = #[trigger] url_encoded(s)[i];
                c != '&' && c != '=' && c != '?' && c != '#'
            },
        url_encoded(s).len() >= s.len(),
{
    let bs = encode_utf8(s);
    let e = percent_encode_bytes(bs);
    lemma_encoded_bytes_plain(bs);
    lemma_ascii_text_bytes(e);
    lemma_decode_encode_bytes(bs);
    assert(percent_decode_bytes(encode_utf8(url_encoded(s))) == bs);
    assert forall|i: int| 0 <= i < url_encoded(s).len() implies {
        let c = #[trigger] url_encoded(s)[i];
        c != '&' && c != '=' && c != '?' && c != '#'
    } by {
        let x = e[i];
        assert(url_encoded(s)[i] == x as char);
        assert(x < 0x80 && x != 0x26 && x != 0x3d && x != 0x3f && x != 0x23);
        lemma_byte_char(x);
    }
    lemma_encode_len(bs);
    lemma_utf8_len(s);
}

/// An ASCII byte read as a character and back is the same byte.
proof fn lemma_byte_char(x: u8)
    requires
        x < 0x80,
    ensures
        (x as char) as u8 == x,
        (x as char) as u32 == x as u32,
{
}

proof fn lemma_encode_len(bs: Seq<u8>)
    ensures
        percent_encode_bytes(bs).len() >= bs.len(),
    decreases bs.len(),
{
    if bs.len() > 0 {
        lemma_encode_len(bs.drop_first());
    }
}

/// UTF-8 needs at least one byte per character.
pub proof fn lemma_utf8_len(s: Seq<char>)
    ensures
        encode_utf8(s).len() >= s.len(),
    decreases s.len(),
{
    if s.len() > 0 {
        lemma_utf8_len(s.drop_first());
    }
}

} // verus!
