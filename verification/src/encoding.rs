//! Percent-encoding of URL parts, done by the `urlencoding` crate.

use vstd::prelude::*;
use vstd::utf8::{
    decode_utf8, encode_utf8, encode_utf8_decode_utf8, encode_utf8_valid_utf8, is_ascii_chars,
    is_ascii_chars_encode_utf8, valid_utf8,
};

verus! {

/// Bytes that `urlencoding` leaves as they are: ASCII letters and digits, `-`, `.`, `_`, `~`.
pub open spec fn is_unreserved(b: u8) -> bool {
    ||| 48 <= b <= 57
    ||| 65 <= b <= 90
    ||| 97 <= b <= 122
    ||| b == 45
    ||| b == 46
    ||| b == 95
    ||| b == 126
}

/// The upper-case hexadecimal digit for `d` (0 to 15).
pub open spec fn hex_digit_char(d: u8) -> char {
    if d < 10 {
        (48 + d) as char
    } else {
        (55 + d) as char
    }
}

/// One byte percent-encoded: itself when unreserved, else `%` and two upper-case hex digits.
pub open spec fn percent_encoded_byte(b: u8) -> Seq<char> {
    if is_unreserved(b) {
        seq![b as char]
    } else {
        seq!['%', hex_digit_char(b / 16), hex_digit_char(b % 16)]
    }
}

/// A byte sequence percent-encoded byte by byte.
pub open spec fn percent_encoded_bytes(bytes: Seq<u8>) -> Seq<char>
    decreases bytes.len(),
{
    if bytes.len() == 0 {
        Seq::empty()
    } else {
        percent_encoded_byte(bytes[0]) + percent_encoded_bytes(bytes.drop_first())
    }
}

/// A string percent-encoded over its UTF-8 bytes.
pub open spec fn url_encoded(s: Seq<char>) -> Seq<char> {
    percent_encoded_bytes(encode_utf8(s))
}

/// The value of a hexadecimal digit byte, either case.
pub open spec fn hex_value(b: u8) -> Option<u8> {
    if 48 <= b <= 57 {
        Some((b - 48) as u8)
    } else if 65 <= b <= 70 {
        Some((b - 55) as u8)
    } else if 97 <= b <= 102 {
        Some((b - 87) as u8)
    } else {
        None
    }
}

/// Percent-decoding of bytes as `urlencoding::decode_binary` does it: `%` and two hex
/// digits become one byte; a `%` that is not followed by two hex digits stays, and so
/// does the byte after it when only that one is a hex digit; `+` is kept.
pub open spec fn percent_decoded_bytes(bytes: Seq<u8>) -> Seq<u8>
    decreases bytes.len(),
{
    if bytes.len() == 0 {
        Seq::empty()
    } else if bytes[0] != 37 {
        seq![bytes[0]] + percent_decoded_bytes(bytes.drop_first())
    } else if bytes.len() < 3 {
        bytes
    } else {
        match (hex_value(bytes[1]), hex_value(bytes[2])) {
            (Some(high), Some(low)) => seq![(high * 16 + low) as u8] + percent_decoded_bytes(
                bytes.subrange(3, bytes.len() as int),
            ),
            (Some(_), None) => seq![37u8, bytes[1]] + percent_decoded_bytes(
                bytes.subrange(2, bytes.len() as int),
            ),
            (None, _) => seq![37u8] + percent_decoded_bytes(bytes.drop_first()),
        }
    }
}

/// A string percent-decoded over its UTF-8 bytes; no string when the decoded bytes
/// are not UTF-8.
pub open spec fn url_decoded(s: Seq<char>) -> Option<Seq<char>> {
    let bytes = percent_decoded_bytes(encode_utf8(s));
    if valid_utf8(bytes) {
        Some(decode_utf8(bytes))
    } else {
        None
    }
}

/// Calls `urlencoding::encode`, which percent-encodes every UTF-8 byte of `s`
/// except ASCII letters, digits, `-`, `.`, `_` and `~`, with upper-case hex digits.
/// The contract claims exactly that result, `url_encoded` of the characters.
#[verifier::external_body]
pub(crate) fn url_encode(s: &str) -> (r: String)
    ensures
        r@ == url_encoded(s@),
{
    urlencoding::encode(s).into_owned()
}

/// Calls `urlencoding::decode`, which percent-decodes the UTF-8 bytes of `s` and
/// fails when the result is not UTF-8. The contract claims that the string it
/// returns is `url_decoded` of the characters, and that it fails exactly when
/// `url_decoded` gives none.
#[verifier::external_body]
pub(crate) fn url_decode(s: &str) -> (r: Option<String>)
    ensures
        r matches Some(t) ==> url_decoded(s@) == Some(t@),
        r is None ==> url_decoded(s@) is None,
{
    match urlencoding::decode(s) {
        Ok(decoded) => Some(decoded.into_owned()),
        Err(_) => None,
    }
}

/// The bytes of a sequence of ASCII characters, one per character.
pub open spec fn ascii_bytes(chars: Seq<char>) -> Seq<u8> {
    chars.map_values(|c: char| c as u8)
}

/// A hexadecimal digit that `hex_digit_char` writes reads back as its value.
proof fn lemma_hex_digit_round_trip(d: u8)
    requires
        d < 16,
    ensures
        hex_value(hex_digit_char(d) as u8) == Some(d),
        hex_digit_char(d) != '/',
        '\0' <= hex_digit_char(d) <= '\u{7f}',
{
}

/// Percent-encoding writes ASCII characters only, none of them `/`.
pub(crate) proof fn lemma_percent_encoded_ascii(bytes: Seq<u8>)
    ensures
        forall|i: int| 0 <= i < percent_encoded_bytes(bytes).len() ==> '\0' <= #[trigger] percent_encoded_bytes(bytes)[i]
            <= '\u{7f}' && percent_encoded_bytes(bytes)[i] != '/',
    decreases bytes.len(),
{
    if bytes.len() > 0 {
        let b = bytes[0];
        lemma_percent_encoded_ascii(bytes.drop_first());
        if !is_unreserved(b) {
            lemma_hex_digit_round_trip(b / 16);
            lemma_hex_digit_round_trip(b % 16);
        }
        let head = percent_encoded_byte(b);
        let tail = percent_encoded_bytes(bytes.drop_first());
        assert forall|i: int| 0 <= i < (head + tail).len() implies '\0' <= (head + tail)[i] <= '\u{7f}'
            && (head + tail)[i] != '/' by {
            if i >= head.len() {
                assert((head + tail)[i] == tail[i - head.len()]);
            }
        }
    }
}

/// Percent-decoding the bytes of a percent-encoding gives back the bytes encoded.
proof fn lemma_percent_decode_encoded(bytes: Seq<u8>)
    ensures
        percent_decoded_bytes(ascii_bytes(percent_encoded_bytes(bytes))) == bytes,
    decreases bytes.len(),
{
    if bytes.len() == 0 {
        assert(ascii_bytes(percent_encoded_bytes(bytes)) =~= Seq::<u8>::empty());
    } else {
        let b = bytes[0];
        let rest = bytes.drop_first();
        lemma_percent_decode_encoded(rest);
        let head = percent_encoded_byte(b);
        let tail = percent_encoded_bytes(rest);
        let encoded = ascii_bytes(head + tail);
        assert(encoded =~= ascii_bytes(head) + ascii_bytes(tail));
        if is_unreserved(b) {
            assert(ascii_bytes(head) =~= seq![b]);
            assert(encoded.drop_first() =~= ascii_bytes(tail));
            assert(bytes =~= seq![b] + rest);
        } else {
            lemma_hex_digit_round_trip(b / 16);
            lemma_hex_digit_round_trip(b % 16);
            let high = hex_digit_char(b / 16) as u8;
            let low = hex_digit_char(b % 16) as u8;
            assert(ascii_bytes(head) =~= seq![37u8, high, low]);
            assert(encoded[0] == 37u8 && encoded[1] == high && encoded[2] == low);
            assert(encoded.subrange(3, encoded.len() as int) =~= ascii_bytes(tail));
            assert(((b / 16) * 16 + b % 16) as u8 == b);
            assert(bytes =~= seq![b] + rest);
        }
    }
}

/// Percent-decoding undoes percent-encoding: decoding what `url_encode` writes
/// for a string gives back that string.
pub proof fn law_url_decode_undoes_encode(s: Seq<char>)
    ensures
        url_decoded(url_encoded(s)) == Some(s),
{
    broadcast use encode_utf8_valid_utf8, encode_utf8_decode_utf8;

    let bytes = encode_utf8(s);
    let encoded = url_encoded(s);
    lemma_percent_encoded_ascii(bytes);
    assert forall|i: int| 0 <= i < encoded.len() implies '\0' <= #[trigger] encoded[i] <= '\u{7f}' by {
        assert(encoded[i] == percent_encoded_bytes(bytes)[i]);
    }
    assert(is_ascii_chars(encoded));
    is_ascii_chars_encode_utf8(encoded);
    assert(encode_utf8(encoded) =~= ascii_bytes(encoded));
    lemma_percent_decode_encoded(bytes);
}

} // verus!
