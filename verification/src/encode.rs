//! Percent-encoding of text that is substituted into a request path.
use vstd::prelude::*;
use vstd::utf8::*;

verus! {

/// The bytes that are written as they stand: ASCII letters and digits, and
/// `-`, `.`, `_`, `~`.
pub open spec fn is_unreserved(b: u8) -> bool {
    ||| 0x30 <= b <= 0x39
    ||| 0x41 <= b <= 0x5a
    ||| 0x61 <= b <= 0x7a
    ||| b == 0x2d
    ||| b == 0x2e
    ||| b == 0x5f
    ||| b == 0x7e
}

/// The upper-case hexadecimal digit for a number below sixteen.
pub open spec fn hex_char(d: nat) -> char {
    if d < 10 {
        (0x30 + d) as u8 as char
    } else {
        (0x41 + d - 10) as u8 as char
    }
}

/// The number that a hexadecimal digit stands for, in either case.
pub open spec fn hex_value(c: char) -> Option<nat> {
    if '0' <= c <= '9' {
        Some((c as u8 - 0x30) as nat)
    } else if 'A' <= c <= 'F' {
        Some((c as u8 - 0x41 + 10) as nat)
    } else if 'a' <= c <= 'f' {
        Some((c as u8 - 0x61 + 10) as nat)
    } else {
        None
    }
}

/// One byte, percent-encoded: itself where it is unreserved, else `%` and its
/// two hexadecimal digits.
pub open spec fn escape_byte(b: u8) -> Seq<char> {
    if is_unreserved(b) {
        seq![b as char]
    } else {
        seq!['%', hex_char((b / 16) as nat), hex_char((b % 16) as nat)]
    }
}

/// A sequence of bytes, percent-encoded byte by byte.
pub open spec fn escape(bytes: Seq<u8>) -> Seq<char>
    decreases bytes.len(),
{
    if bytes.len() == 0 {
        Seq::empty()
    } else {
        escape_byte(bytes[0]) + escape(bytes.skip(1))
    }
}

/// The percent-encoding of a text: that of its UTF-8 bytes.
pub open spec fn escaped_text(s: Seq<char>) -> Seq<char> {
    escape(encode_utf8(s))
}

/// The bytes that a percent-encoded text stands for: `%` followed by two
/// hexadecimal digits is one byte, any other character its own UTF-8 bytes.
pub open spec fn unescape(t: Seq<char>) -> Seq<u8>
    decreases t.len(),
{
    if t.len() == 0 {
        Seq::empty()
    } else if t[0] == '%' && t.len() >= 3 && hex_value(t[1]) is Some && hex_value(t[2]) is Some {
        seq![(hex_value(t[1])->0 * 16 + hex_value(t[2])->0) as u8] + unescape(t.skip(3))
    } else {
        encode_utf8(seq![t[0]]) + unescape(t.skip(1))
    }
}

/// The text that a percent-encoded text stands for.
pub open spec fn unescaped_text(t: Seq<char>) -> Seq<char> {
    decode_utf8(unescape(t))
}

proof fn lemma_escape_byte_round_trip(b: u8, rest: Seq<char>)
    ensures
        unescape(escape_byte(b) + rest) == seq![b] + unescape(rest),
{
    let t = escape_byte(b) + rest;
    if is_unreserved(b) {
        let c = b as char;
        assert(t[0] == c);
        assert(t.skip(1) =~= rest);
        assert(is_ascii_chars(seq![c]));
        is_ascii_chars_encode_utf8(seq![c]);
        assert(seq![c][0] as u8 == encode_utf8(seq![c])[0]);
        assert(encode_utf8(seq![c]) =~= seq![b]);
    } else {
        let hi = (b / 16) as nat;
        let lo = (b % 16) as nat;
        assert(t[0] == '%');
        assert(t[1] == hex_char(hi));
        assert(t[2] == hex_char(lo));
        assert(t.skip(3) =~= rest);
        assert(hex_value(hex_char(hi)) == Some(hi));
        assert(hex_value(hex_char(lo)) == Some(lo));
        assert(hi * 16 + lo == b);
    }
}

/// Decoding undoes encoding: the bytes that the percent-encoding of a byte
/// sequence stands for are that sequence.
pub proof fn lemma_escape_round_trip(bytes: Seq<u8>)
    ensures
        unescape(escape(bytes)) == bytes,
    decreases bytes.len(),
{
    if bytes.len() == 0 {
        assert(unescape(escape(bytes)) =~= bytes);
    } else {
        lemma_escape_round_trip(bytes.skip(1));
        lemma_escape_byte_round_trip(bytes[0], escape(bytes.skip(1)));
        assert(seq![bytes[0]] + bytes.skip(1) =~= bytes);
    }
}

/// Decoding a percent-encoded text gives the text back, whatever it holds.
pub proof fn lemma_text_round_trip(s: Seq<char>)
    ensures
        unescaped_text(escaped_text(s)) == s,
{
    lemma_escape_round_trip(encode_utf8(s));
    encode_utf8_decode_utf8(s);
}

/// Percent-encodes a text with `urlencoding::encode`, which leaves the
/// unreserved bytes of the text's UTF-8 form as they are and writes every
/// other byte as `%` and two upper-case hexadecimal digits.
#[verifier::external_body]
pub(crate) fn percent_encode(text: &str) -> (out: String)
    ensures
        out@ == escaped_text(text@),
{
    urlencoding::encode(text).into_owned()
}

} // verus!
