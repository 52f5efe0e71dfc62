//! The standard base64 text of bytes (RFC 4648: alphabet `A-Z a-z 0-9 + /`,
//! padded with `=`), which the subscription format uses, and its decoding.

use vstd::prelude::*;

verus! {

/// The base64 alphabet character for a 6-bit value.
pub open spec fn b64_char(v: int) -> char {
    if v < 26 {
        (65 + v) as char
    } else if v < 52 {
        (71 + v) as char
    } else if v < 62 {
        (v - 4) as char
    } else if v == 62 {
        '+'
    } else {
        '/'
    }
}

/// Whether `c` belongs to the base64 alphabet.
pub open spec fn is_b64_char(c: char) -> bool {
    ('A' <= c && c <= 'Z') || ('a' <= c && c <= 'z') || ('0' <= c && c <= '9') || c == '+' || c
        == '/'
}

/// The 6-bit value of a base64 alphabet character.
pub open spec fn b64_value(c: char) -> int {
    if 'A' <= c && c <= 'Z' {
        c as u32 - 65
    } else if 'a' <= c && c <= 'z' {
        c as u32 - 71
    } else if '0' <= c && c <= '9' {
        c as u32 + 4
    } else if c == '+' {
        62
    } else {
        63
    }
}

/// The standard, padded base64 text of `d`: each group of three bytes as
/// four characters, a final group of one or two bytes padded with `=`.
pub open spec fn base64_standard(d: Seq<u8>) -> Seq<char>
    decreases d.len(),
{
    if d.len() == 0 {
        Seq::empty()
    } else if d.len() == 1 {
        seq![b64_char((d[0] as int) / 4), b64_char(((d[0] as int) % 4) * 16), '=', '=']
    } else if d.len() == 2 {
        seq![
            b64_char((d[0] as int) / 4),
            b64_char(((d[0] as int) % 4) * 16 + (d[1] as int) / 16),
            b64_char(((d[1] as int) % 16) * 4),
            '=',
        ]
    } else {
        seq![
            b64_char((d[0] as int) / 4),
            b64_char(((d[0] as int) % 4) * 16 + (d[1] as int) / 16),
            b64_char(((d[1] as int) % 16) * 4 + (d[2] as int) / 64),
            b64_char((d[2] as int) % 64),
        ] + base64_standard(d.skip(3))
    }
}

/// Decoding of padded base64 text, four characters at a time.
pub open spec fn base64_decoded(t: Seq<char>) -> Seq<u8>
    decreases t.len(),
{
    if t.len() < 4 {
        Seq::empty()
    } else {
        let a = b64_value(t[0]);
        let b = b64_value(t[1]);
        let c = b64_value(t[2]);
        let d = b64_value(t[3]);
        let v1 = (a * 4 + b / 16) as u8;
        let v2 = ((b % 16) * 16 + c / 4) as u8;
        let v3 = ((c % 4) * 64 + d) as u8;
        if t[2] == '=' {
            seq![v1]
        } else if t[3] == '=' {
            seq![v1, v2]
        } else {
            seq![v1, v2, v3] + base64_decoded(t.skip(4))
        }
    }
}

proof fn lemma_b64_char(v: int)
    requires
        0 <= v < 64,
    ensures
        is_b64_char(b64_char(v)),
        b64_value(b64_char(v)) == v,
        b64_char(v) != '=',
{
    if v < 26 {
        assert(b64_char(v) as u32 == 65 + v);
    } else if v < 52 {
        assert(b64_char(v) as u32 == 71 + v);
    } else if v < 62 {
        assert(b64_char(v) as u32 == v - 4);
    }
}

/// Decoding the base64 text of bytes gives back the bytes, and the text
/// uses only the base64 alphabet and `=`.
pub proof fn lemma_base64_roundtrip(d: Seq<u8>)
    ensures
        base64_decoded(base64_standard(d)) == d,
        forall|i: int|
            0 <= i < base64_standard(d).len() ==> is_b64_char(#[trigger] base64_standard(d)[i])
                || base64_standard(d)[i] == '=',
    decreases d.len(),
{
    let t = base64_standard(d);
    if d.len() == 0 {
    } else if d.len() == 1 {
        let x = d[0] as int;
        lemma_b64_char(x / 4);
        lemma_b64_char((x % 4) * 16);
        assert(base64_decoded(t) =~= d);
    } else if d.len() == 2 {
        let x = d[0] as int;
        let y = d[1] as int;
        lemma_b64_char(x / 4);
        lemma_b64_char((x % 4) * 16 + y / 16);
        lemma_b64_char((y % 16) * 4);
        assert(((x / 4) * 4 + ((x % 4) * 16 + y / 16) / 16) == x);
        assert((((x % 4) * 16 + y / 16) % 16) * 16 + ((y % 16) * 4) / 4 == y);
        assert(base64_decoded(t) =~= d);
    } else {
        let x = d[0] as int;
        let y = d[1] as int;
        let z = d[2] as int;
        lemma_b64_char(x / 4);
        lemma_b64_char((x % 4) * 16 + y / 16);
        lemma_b64_char((y % 16) * 4 + z / 64);
        lemma_b64_char(z % 64);
        assert(((x / 4) * 4 + ((x % 4) * 16 + y / 16) / 16) == x);
        assert((((x % 4) * 16 + y / 16) % 16) * 16 + ((y % 16) * 4 + z / 64) / 4 == y);
        assert((((y % 16) * 4 + z / 64) % 4) * 64 + z % 64 == z);
        lemma_base64_roundtrip(d.skip(3));
        let head = seq![
            b64_char(x / 4),
            b64_char((x % 4) * 16 + y / 16),
            b64_char((y % 16) * 4 + z / 64),
            b64_char(z % 64),
        ];
        let rest = base64_standard(d.skip(3));
        assert(t == head + rest);
        assert(t.skip(4) =~= rest);
        assert(d =~= seq![d[0], d[1], d[2]] + d.skip(3));
        assert(base64_decoded(t) =~= d);
        assert forall|i: int| 0 <= i < t.len() implies is_b64_char(#[trigger] t[i]) || t[i]
            == '=' by {
            if i >= 4 {
                assert(t[i] == rest[i - 4]);
            }
        }
    }
}

} // verus!
