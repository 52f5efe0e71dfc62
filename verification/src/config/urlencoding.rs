//! Percent-encoding (URL encoding) of the WebSocket path in share links:
//! the UTF-8 bytes of the text, with every byte that is not an unreserved
//! ASCII character written as `%XX`.

use vstd::prelude::*;
use vstd::utf8::{encode_utf8, encode_utf8_decode_utf8, is_ascii_chars, is_ascii_chars_encode_utf8};
use crate::text::{hex_upper, hex_upper_char, push_char};

verus! {

/// Characters that pass through unencoded: ASCII letters, digits, and
/// `-`, `_`, `.`, `~`.
pub open spec fn is_unreserved(c: char) -> bool {
    ||| ('A' <= c && c <= 'Z')
    ||| ('a' <= c && c <= 'z')
    ||| ('0' <= c && c <= '9')
    ||| c == '-'
    ||| c == '_'
    ||| c == '.'
    ||| c == '~'
}

/// Whether a byte is the UTF-8 encoding of an unreserved character.
pub open spec fn is_unreserved_byte(b: u8) -> bool {
    b < 128 && is_unreserved(b as char)
}

/// How one byte is written: as its character if unreserved, otherwise as
/// `%` and two upper-case hex digits.
pub open spec fn encoded_byte(b: u8) -> Seq<char> {
    if is_unreserved_byte(b) {
        seq![b as char]
    } else {
        seq!['%', hex_upper((b / 16) as nat), hex_upper((b % 16) as nat)]
    }
}

/// The percent-encoding of a byte sequence.
pub open spec fn percent_encoded(bytes: Seq<u8>) -> Seq<char>
    decreases bytes.len(),
{
    if bytes.len() == 0 {
        Seq::empty()
    } else {
        percent_encoded(bytes.drop_last()) + encoded_byte(bytes.last())
    }
}

/// The URL encoding of a text: the percent-encoding of its UTF-8 bytes.
pub open spec fn url_encoded(s: Seq<char>) -> Seq<char> {
    percent_encoded(encode_utf8(s))
}

/// The value of a hex digit (either case).
pub open spec fn hex_value(c: char) -> int {
    if '0' <= c && c <= '9' {
        c as u32 - 48
    } else if 'A' <= c && c <= 'F' {
        c as u32 - 55
    } else if 'a' <= c && c <= 'f' {
        c as u32 - 87
    } else {
        0
    }
}

/// Percent-decoding: each `%XX` back to the byte `0xXX`, every other
/// character to its low byte.
pub open spec fn percent_decoded(t: Seq<char>) -> Seq<u8>
    decreases t.len(),
{
    if t.len() == 0 {
        Seq::empty()
    } else if t[0] == '%' && t.len() >= 3 {
        seq![(hex_value(t[1]) * 16 + hex_value(t[2])) as u8] + percent_decoded(t.skip(3))
    } else {
        seq![t[0] as u8] + percent_decoded(t.skip(1))
    }
}

/// Encoding a byte in front of others puts its code in front.
proof fn lemma_percent_encoded_front(b: u8, rest: Seq<u8>)
    ensures
        percent_encoded(seq![b] + rest) == encoded_byte(b) + percent_encoded(rest),
    decreases rest.len(),
{
    if rest.len() == 0 {
        assert((seq![b] + rest).drop_last() =~= Seq::<u8>::empty());
        assert(percent_encoded(Seq::<u8>::empty()) == Seq::<char>::empty());
        assert(encoded_byte(b) + Seq::<char>::empty() =~= encoded_byte(b));
    } else {
        lemma_percent_encoded_front(b, rest.drop_last());
        assert((seq![b] + rest).drop_last() =~= seq![b] + rest.drop_last());
        assert((seq![b] + rest).last() == rest.last());
    }
}

/// Decoding the code of one byte in front of other text gives that byte in
/// front.
proof fn lemma_decode_encoded_byte(b: u8, rest: Seq<char>)
    ensures
        percent_decoded(encoded_byte(b) + rest) == seq![b] + percent_decoded(rest),
{
    let t = encoded_byte(b) + rest;
    if is_unreserved_byte(b) {
        assert(t[0] == b as char);
        assert((b as char) as u32 == b as u32);
        assert(t[0] != '%');
        assert(t.skip(1) =~= rest);
    } else {
        let hi = (b / 16) as nat;
        let lo = (b % 16) as nat;
        assert(hex_upper(hi) as u32 == if hi < 10 { 48 + hi } else { 55 + hi });
        assert(hex_upper(lo) as u32 == if lo < 10 { 48 + lo } else { 55 + lo });
        assert(hex_value(t[1]) == hi);
        assert(hex_value(t[2]) == lo);
        assert(t.skip(3) =~= rest);
    }
}

/// Percent-decoding undoes percent-encoding.
pub proof fn lemma_percent_roundtrip(bytes: Seq<u8>)
    ensures
        percent_decoded(percent_encoded(bytes)) == bytes,
    decreases bytes.len(),
{
    if bytes.len() > 0 {
        let rest = bytes.drop_first();
        assert(bytes =~= seq![bytes[0]] + rest);
        lemma_percent_encoded_front(bytes[0], rest);
        lemma_decode_encoded_byte(bytes[0], percent_encoded(rest));
        lemma_percent_roundtrip(rest);
    }
}

/// Percent-decoding a URL-encoded text gives back its UTF-8 bytes, so
/// distinct texts never share an encoding.
pub proof fn lemma_url_encoding_decodes(s1: Seq<char>, s2: Seq<char>)
    ensures
        percent_decoded(url_encoded(s1)) == encode_utf8(s1),
        url_encoded(s1) == url_encoded(s2) ==> s1 == s2,
{
    lemma_percent_roundtrip(encode_utf8(s1));
    lemma_percent_roundtrip(encode_utf8(s2));
    encode_utf8_decode_utf8(s1);
    encode_utf8_decode_utf8(s2);
}

/// Every character of a percent-encoding is unreserved or a `%` that starts
/// an escape: the encoding is safe to place in a URL query.
pub proof fn lemma_encoded_chars_safe(bytes: Seq<u8>)
    ensures
        forall|i: int|
            0 <= i < percent_encoded(bytes).len() ==> is_unreserved(
                #[trigger] percent_encoded(bytes)[i],
            ) || percent_encoded(bytes)[i] == '%',
    decreases bytes.len(),
{
    if bytes.len() > 0 {
        lemma_encoded_chars_safe(bytes.drop_last());
        let b = bytes.last();
        let hi = (b / 16) as nat;
        let lo = (b % 16) as nat;
        assert(hex_upper(hi) as u32 == if hi < 10 { 48 + hi } else { 55 + hi });
        assert(hex_upper(lo) as u32 == if lo < 10 { 48 + lo } else { 55 + lo });
        let prev = percent_encoded(bytes.drop_last());
        assert forall|i: int|
            0 <= i < percent_encoded(bytes).len() implies is_unreserved(
                #[trigger] percent_encoded(bytes)[i],
            ) || percent_encoded(bytes)[i] == '%' by {
            if i < prev.len() {
                assert(percent_encoded(bytes)[i] == prev[i]);
            }
        }
    }
}

/// A text made only of unreserved characters is left unchanged.
pub proof fn lemma_unreserved_unchanged(s: Seq<char>)
    requires
        forall|i: int| 0 <= i < s.len() ==> is_unreserved(#[trigger] s[i]),
    ensures
        url_encoded(s) == s,
{
    assert(is_ascii_chars(s));
    is_ascii_chars_encode_utf8(s);
    let bytes = encode_utf8(s);
    assert forall|k: int| 0 <= k <= s.len() implies #[trigger] percent_encoded(bytes.take(k)) == s.take(k) by {
        lemma_unreserved_prefix(s, k);
    }
    assert(bytes.take(s.len() as int) =~= bytes);
    assert(s.take(s.len() as int) =~= s);
}

proof fn lemma_unreserved_prefix(s: Seq<char>, k: int)
    requires
        0 <= k <= s.len(),
        forall|i: int| 0 <= i < s.len() ==> is_unreserved(#[trigger] s[i]),
        encode_utf8(s).len() == s.len(),
        forall|i: int| 0 <= i < s.len() ==> s[i] as u8 == #[trigger] encode_utf8(s)[i],
    ensures
        percent_encoded(encode_utf8(s).take(k)) == s.take(k),
    decreases k,
{
    let bytes = encode_utf8(s);
    if k > 0 {
        lemma_unreserved_prefix(s, k - 1);
        assert(bytes.take(k).drop_last() =~= bytes.take(k - 1));
        let c = s[k - 1];
        assert(is_unreserved(c));
        assert((c as u32) < 128);
        assert(bytes[k - 1] == c as u8);
        assert((c as u8) as char == c);
        assert(s.take(k) =~= s.take(k - 1).push(c));
    } else {
        assert(bytes.take(0) =~= Seq::<u8>::empty());
        assert(s.take(0) =~= Seq::<char>::empty());
    }
}

/// Percent-encodes the UTF-8 bytes of `s`.
pub fn encode(s: &str) -> (r: String)
    ensures
        r@ == url_encoded(s@),
{
    let bytes = s.as_bytes();
    let mut out = String::new();
    let mut i: usize = 0;
    while i < bytes.len()
        invariant
            i <= bytes@.len(),
            bytes@ == encode_utf8(s@),
            out@ == percent_encoded(bytes@.take(i as int)),
        decreases bytes@.len() - i,
    {
        let b = bytes[i];
        proof {
            assert(bytes@.take(i + 1).drop_last() =~= bytes@.take(i as int));
        }
        if (65 <= b && b <= 90) || (97 <= b && b <= 122) || (48 <= b && b <= 57) || b == 45
            || b == 95 || b == 46 || b == 126 {
            push_char(&mut out, b as char);
        } else {
            push_char(&mut out, '%');
            push_char(&mut out, hex_upper_char(b / 16));
            push_char(&mut out, hex_upper_char(b % 16));
        }
        i = i + 1;
    }
    proof {
        assert(bytes@.take(bytes@.len() as int) =~= bytes@);
    }
    out
}

} // verus!
