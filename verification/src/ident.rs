//! VLESS user identifiers: UUIDs, handled through the `uuid` crate, and the
//! hyphenated text form in which the configuration holds them.

use vstd::prelude::*;
use crate::text::hex_lower;

verus! {

/// Whether position `k` of the 36-character hyphenated text holds a hyphen.
pub open spec fn is_hyphen_position(k: int) -> bool {
    k == 8 || k == 13 || k == 18 || k == 23
}

/// The index among the 32 hex digits of the digit at text position `k`.
pub open spec fn hex_index(k: int) -> int {
    k - (if k > 23 {
        4int
    } else if k > 18 {
        3int
    } else if k > 13 {
        2int
    } else if k > 8 {
        1int
    } else {
        0int
    })
}

/// The text position of hex digit `i` (of 32) in the hyphenated text.
pub open spec fn text_position(i: int) -> int {
    i + (if i >= 20 {
        4int
    } else if i >= 16 {
        3int
    } else if i >= 12 {
        2int
    } else if i >= 8 {
        1int
    } else {
        0int
    })
}

/// Hex digit `i` (of 32) of the bytes `b`: the high digit of byte `i / 2`
/// for even `i`, its low digit for odd `i`, in lower case.
pub open spec fn hex_digit_of(b: Seq<u8>, i: int) -> char {
    if i % 2 == 0 {
        hex_lower((b[i / 2] / 16) as nat)
    } else {
        hex_lower((b[i / 2] % 16) as nat)
    }
}

/// The 32 lower-case hex digits of 16 bytes, high digit first.
pub open spec fn hex_digits_lower(b: Seq<u8>) -> Seq<char> {
    Seq::new(32, |i: int| hex_digit_of(b, i))
}

/// The hyphenated lower-case text of a 16-byte UUID,
/// `xxxxxxxx-xxxx-xxxx-xxxx-xxxxxxxxxxxx` (bytes in order, each as two hex
/// digits, high digit first).
pub open spec fn hyphenated_lower(b: Seq<u8>) -> Seq<char> {
    Seq::new(
        36,
        |k: int|
            if is_hyphen_position(k) {
                '-'
            } else {
                hex_digit_of(b, hex_index(k))
            },
    )
}

/// Whether `c` is a hex digit, in either case.
pub open spec fn is_hex_char(c: char) -> bool {
    ('0' <= c && c <= '9') || ('a' <= c && c <= 'f') || ('A' <= c && c <= 'F')
}

/// Whether `t` has the hyphenated UUID shape (hex digits of either case).
pub open spec fn is_hyphenated_text(t: Seq<char>) -> bool {
    &&& t.len() == 36
    &&& forall|k: int|
        0 <= k < 36 ==> if is_hyphen_position(k) {
            t[k] == '-'
        } else {
            is_hex_char(#[trigger] t[k])
        }
}

/// Whether `t` is a simple UUID text: 32 hex digits of either case.
pub open spec fn is_simple_text(t: Seq<char>) -> bool {
    &&& t.len() == 32
    &&& forall|k: int| 0 <= k < 32 ==> is_hex_char(#[trigger] t[k])
}

/// The hex digits of a hyphenated or simple UUID text, without hyphens.
pub open spec fn hex_digits_of_text(t: Seq<char>) -> Seq<char> {
    if t.len() == 36 {
        Seq::new(32, |i: int| t[text_position(i)])
    } else {
        t
    }
}

/// An ASCII upper-case letter in lower case; other characters unchanged.
pub open spec fn ascii_lower_char(c: char) -> char {
    if 'A' <= c && c <= 'Z' {
        ((c as u32) + 32) as char
    } else {
        c
    }
}

/// A text with its ASCII letters in lower case.
pub open spec fn ascii_lower(t: Seq<char>) -> Seq<char> {
    Seq::new(t.len(), |i: int| ascii_lower_char(t[i]))
}

/// Whether `t` is a hyphenated or simple text, in any letter case, of the
/// UUID with bytes `b`.
pub open spec fn is_uuid_text_of(t: Seq<char>, b: Seq<u8>) -> bool {
    &&& is_hyphenated_text(t) || is_simple_text(t)
    &&& ascii_lower(hex_digits_of_text(t)) == hex_digits_lower(b)
}

/// Distinct digits have distinct lower-case hex characters.
pub proof fn lemma_hex_lower_injective(d1: nat, d2: nat)
    requires
        d1 < 16,
        d2 < 16,
        hex_lower(d1) == hex_lower(d2),
    ensures
        d1 == d2,
{
    assert(hex_lower(d1) as u32 == if d1 < 10 { 48 + d1 } else { 87 + d1 });
    assert(hex_lower(d2) as u32 == if d2 < 10 { 48 + d2 } else { 87 + d2 });
}

/// Two byte strings with the same hex digits are equal.
pub proof fn lemma_hex_digits_injective(a: Seq<u8>, b: Seq<u8>)
    requires
        a.len() == 16,
        b.len() == 16,
        hex_digits_lower(a) == hex_digits_lower(b),
    ensures
        a == b,
{
    assert forall|i: int| 0 <= i < 16 implies a[i] == b[i] by {
        let h = 2 * i;
        assert(h / 2 == i && h % 2 == 0 && (h + 1) / 2 == i && (h + 1) % 2 == 1);
        assert(hex_digits_lower(a)[h] == hex_digits_lower(b)[h]);
        assert(hex_digits_lower(a)[h + 1] == hex_digits_lower(b)[h + 1]);
        assert(hex_digits_lower(a)[h] == hex_digit_of(a, h));
        assert(hex_digits_lower(b)[h] == hex_digit_of(b, h));
        assert(hex_digits_lower(a)[h + 1] == hex_digit_of(a, h + 1));
        assert(hex_digits_lower(b)[h + 1] == hex_digit_of(b, h + 1));
        lemma_hex_lower_injective((a[i] / 16) as nat, (b[i] / 16) as nat);
        lemma_hex_lower_injective((a[i] % 16) as nat, (b[i] % 16) as nat);
    }
    assert(a =~= b);
}

/// The hyphenated lower-case text of 16 bytes is a UUID text of those bytes.
pub proof fn lemma_hyphenated_is_uuid_text(b: Seq<u8>)
    requires
        b.len() == 16,
    ensures
        is_uuid_text_of(hyphenated_lower(b), b),
{
    let t = hyphenated_lower(b);
    assert forall|k: int| 0 <= k < 36 && !is_hyphen_position(k) implies is_hex_char(
        #[trigger] t[k],
    ) && ascii_lower_char(t[k]) == t[k] by {
        let h = hex_index(k);
        let d = if h % 2 == 0 { (b[h / 2] / 16) as nat } else { (b[h / 2] % 16) as nat };
        assert(d < 16);
        assert(t[k] == hex_lower(d));
        assert(hex_lower(d) as u32 == if d < 10 { 48 + d } else { 87 + d });
    }
    let digits = hex_digits_of_text(t);
    assert forall|i: int| 0 <= i < 32 implies #[trigger] ascii_lower(digits)[i]
        == hex_digits_lower(b)[i] by {
        let k = text_position(i);
        assert(!is_hyphen_position(k) && hex_index(k) == i);
        assert(digits[i] == t[k]);
    }
    assert(ascii_lower(digits) =~= hex_digits_lower(b));
}

/// What `uuid::Uuid::parse_str` gives for a text: the UUID's bytes, or the
/// text of the error it reports.
pub uninterp spec fn uuid_parse(s: Seq<char>) -> Result<Seq<u8>, Seq<char>>;

/// `uuid::Uuid::parse_str`, returning the UUID's bytes or the `Display`
/// text of the error. The result is the named `uuid_parse` of the text.
/// The parser reads a 36-character text with hyphens at positions 8, 13, 18
/// and 23, and a 32-character text, when all other characters are hex
/// digits of either case; each byte is then the pair of digits at its place,
/// so the digits of the text, in lower case, are the digits of the bytes.
#[verifier::external_body]
pub(crate) fn parse_uuid(s: &str) -> (r: Result<[u8; 16], String>)
    ensures
        r matches Ok(b) ==> uuid_parse(s@) is Ok && uuid_parse(s@)->Ok_0 == b@,
        r matches Err(t) ==> uuid_parse(s@) is Err && uuid_parse(s@)->Err_0 == t@,
        is_hyphenated_text(s@) || is_simple_text(s@) ==> r is Ok,
        r matches Ok(b) ==> (is_hyphenated_text(s@) || is_simple_text(s@) ==> ascii_lower(
            hex_digits_of_text(s@),
        ) == hex_digits_lower(b@)),
{
    uuid::Uuid::parse_str(s).map(|u| u.into_bytes()).map_err(|e| e.to_string())
}

/// `uuid::Uuid::new_v4`, returning the bytes of a random UUID. Only the
/// version nibble (4) and the RFC 4122 variant bits are fixed; the other bits
/// come from the system's random source.
#[verifier::external_body]
pub(crate) fn random_uuid_bytes() -> (b: [u8; 16])
    ensures
        b@[6] / 16 == 4,
        b@[8] / 64 == 2,
{
    uuid::Uuid::new_v4().into_bytes()
}

/// `Uuid::to_string` (its `Display` form) of the UUID with the given bytes:
/// the hyphenated lower-case text.
#[verifier::external_body]
pub(crate) fn uuid_string(b: [u8; 16]) -> (s: String)
    ensures
        s@ == hyphenated_lower(b@),
{
    uuid::Uuid::from_bytes(b).to_string()
}

} // verus!
