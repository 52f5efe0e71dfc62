//! Text helpers shared by the library: decimal and hexadecimal rendering of
//! integers and the character-level specifications they are proved against.

use vstd::prelude::*;

verus! {

/// The ASCII digit for `d` (`d < 10`).
pub open spec fn digit_char(d: nat) -> char {
    (48 + d) as char
}

/// Decimal rendering of `n` without leading zeros (`"0"` for zero).
pub open spec fn decimal(n: nat) -> Seq<char>
    decreases n,
{
    if n < 10 {
        seq![digit_char(n)]
    } else {
        decimal(n / 10).push(digit_char(n % 10))
    }
}

/// The number that a string of ASCII digits stands for, most significant
/// digit first.
pub open spec fn digits_value(s: Seq<char>) -> int
    decreases s.len(),
{
    if s.len() == 0 {
        0
    } else {
        digits_value(s.drop_last()) * 10 + (s.last() as int - 48)
    }
}

/// Reading back the decimal rendering of `n` gives `n`.
pub proof fn lemma_decimal_value(n: nat)
    ensures
        digits_value(decimal(n)) == n,
    decreases n,
{
    let d = n % 10;
    let s = decimal(n);
    assert(digit_char(d) as int == 48 + d);
    assert(s.len() > 0 && s.last() == digit_char(d));
    assert(digits_value(s) == digits_value(s.drop_last()) * 10 + (s.last() as int - 48));
    if n < 10 {
        assert(s.drop_last() =~= Seq::<char>::empty());
    } else {
        lemma_decimal_value(n / 10);
        assert(decimal(n).drop_last() =~= decimal(n / 10));
        assert((n / 10) * 10 + d == n);
    }
}

/// Different numbers have different decimal renderings.
pub proof fn lemma_decimal_injective(a: nat, b: nat)
    ensures
        decimal(a) == decimal(b) <==> a == b,
{
    lemma_decimal_value(a);
    lemma_decimal_value(b);
}

/// Lower-case hexadecimal digit for `d` (`d < 16`).
pub open spec fn hex_lower(d: nat) -> char {
    if d < 10 {
        (48 + d) as char
    } else {
        (87 + d) as char
    }
}

/// Upper-case hexadecimal digit for `d` (`d < 16`).
pub open spec fn hex_upper(d: nat) -> char {
    if d < 10 {
        (48 + d) as char
    } else {
        (55 + d) as char
    }
}

/// Returns the upper-case hexadecimal digit for `d`.
pub fn hex_upper_char(d: u8) -> (c: char)
    requires
        d < 16,
    ensures
        c == hex_upper(d as nat),
{
    if d < 10 {
        (48u8 + d) as char
    } else {
        (55u8 + d) as char
    }
}

/// Appends one character to a string (`String::push`).
#[verifier::external_body]
pub(crate) fn push_char(s: &mut String, c: char)
    ensures
        final(s)@ == old(s)@.push(c),
{
    s.push(c);
}

/// Appends the decimal rendering of `n` to `out`.
pub fn push_decimal(out: &mut String, n: u64)
    ensures
        final(out)@ == old(out)@ + decimal(n as nat),
    decreases n,
{
    if n >= 10 {
        push_decimal(out, n / 10);
    }
    let d: u8 = (n % 10) as u8;
    let c: char = (48u8 + d) as char;
    push_char(out, c);
    proof {
        assert(decimal(n as nat) == if n < 10 { seq![digit_char(n as nat)] } else { decimal((n / 10) as nat).push(digit_char((n % 10) as nat)) });
    }
}

/// Whether `p` occurs in `s` starting at index `i`.
pub open spec fn occurs_at(s: Seq<char>, p: Seq<char>, i: int) -> bool {
    0 <= i && i + p.len() <= s.len() && s.subrange(i, i + p.len()) == p
}

/// Whether `p` occurs anywhere in `s`.
pub open spec fn contains_text(s: Seq<char>, p: Seq<char>) -> bool {
    exists|i: int| occurs_at(s, p, i)
}

/// Whether `i` is the first index at which `p` occurs in `s`.
pub open spec fn is_first_occurrence(s: Seq<char>, p: Seq<char>, i: int) -> bool {
    occurs_at(s, p, i) && forall|j: int| 0 <= j < i ==> !occurs_at(s, p, j)
}

/// The first index at which `p` occurs in `s`, if any.
pub open spec fn first_occurrence(s: Seq<char>, p: Seq<char>) -> Option<int> {
    if contains_text(s, p) {
        Some(choose|i: int| is_first_occurrence(s, p, i))
    } else {
        None
    }
}

proof fn lemma_min_occurrence(s: Seq<char>, p: Seq<char>, w: int)
    requires
        occurs_at(s, p, w),
    ensures
        exists|i: int| is_first_occurrence(s, p, i),
    decreases w,
{
    if exists|j: int| 0 <= j < w && occurs_at(s, p, j) {
        let j = choose|j: int| 0 <= j < w && occurs_at(s, p, j);
        lemma_min_occurrence(s, p, j);
    } else {
        assert(is_first_occurrence(s, p, w));
    }
}

/// `first_occurrence` names the first index at which the pattern occurs,
/// and is `None` only where it occurs nowhere.
pub proof fn lemma_first_occurrence(s: Seq<char>, p: Seq<char>)
    ensures
        match first_occurrence(s, p) {
            Some(i) => is_first_occurrence(s, p, i),
            None => forall|i: int| !occurs_at(s, p, i),
        },
{
    if contains_text(s, p) {
        let w = choose|i: int| occurs_at(s, p, i);
        lemma_min_occurrence(s, p, w);
    }
}

/// The index that `is_first_occurrence` singles out is the one that
/// `first_occurrence` names.
pub proof fn lemma_first_occurrence_unique(s: Seq<char>, p: Seq<char>, i: int)
    requires
        is_first_occurrence(s, p, i),
    ensures
        first_occurrence(s, p) == Some(i),
{
    lemma_first_occurrence(s, p);
    let k = first_occurrence(s, p)->Some_0;
    assert(k == i) by {
        if k < i {
        } else if k > i {
        }
    }
}

/// A character that a text does not hold is found nowhere in it.
pub proof fn lemma_absent_char(s: Seq<char>, c: char)
    requires
        !s.contains(c),
    ensures
        first_occurrence(s, seq![c]) is None,
{
    assert forall|i: int| !occurs_at(s, seq![c], i) by {
        if occurs_at(s, seq![c], i) {
            assert(s.subrange(i, i + 1)[0] == s[i]);
        }
    }
}

/// What occurs in a text still occurs once other text is put before it.
pub proof fn lemma_contains_after(a: Seq<char>, b: Seq<char>, t: Seq<char>)
    requires
        contains_text(b, t),
    ensures
        contains_text(a + b, t),
{
    let k = choose|k: int| occurs_at(b, t, k);
    assert((a + b).subrange(a.len() + k, a.len() + k + t.len()) =~= b.subrange(k, k + t.len()));
    assert(occurs_at(a + b, t, a.len() + k));
}

/// Unicode `White_Space` characters (what `char::is_whitespace` accepts).
pub open spec fn is_whitespace(c: char) -> bool {
    let u = c as u32;
    ||| (0x9 <= u && u <= 0xd)
    ||| u == 0x20
    ||| u == 0x85
    ||| u == 0xa0
    ||| u == 0x1680
    ||| (0x2000 <= u && u <= 0x200a)
    ||| u == 0x2028
    ||| u == 0x2029
    ||| u == 0x202f
    ||| u == 0x205f
    ||| u == 0x3000
}

/// `s` without its leading whitespace.
pub open spec fn trim_start(s: Seq<char>) -> Seq<char>
    decreases s.len(),
{
    if s.len() > 0 && is_whitespace(s[0]) {
        trim_start(s.drop_first())
    } else {
        s
    }
}

/// `s` without its trailing whitespace.
pub open spec fn trim_end(s: Seq<char>) -> Seq<char>
    decreases s.len(),
{
    if s.len() > 0 && is_whitespace(s.last()) {
        trim_end(s.drop_last())
    } else {
        s
    }
}

/// `s` without leading and trailing whitespace (what `str::trim` returns).
pub open spec fn trim(s: Seq<char>) -> Seq<char> {
    trim_end(trim_start(s))
}

/// Text that neither starts nor ends with whitespace is its own trim.
pub proof fn lemma_trim_unchanged(s: Seq<char>)
    requires
        s.len() > 0,
        !is_whitespace(s[0]),
        !is_whitespace(s.last()),
    ensures
        trim(s) == s,
{
    assert(trim_start(s) == s);
    assert(trim_end(s) == s);
}

/// Joining two texts, the first of which does not start with whitespace and
/// the second of which does not end with it, gives a text that is its own
/// trim.
pub proof fn lemma_trim_joined(a: Seq<char>, b: Seq<char>)
    requires
        a.len() > 0,
        b.len() > 0,
        !is_whitespace(a[0]),
        !is_whitespace(b.last()),
    ensures
        trim(a + b) == a + b,
{
    let s = a + b;
    assert(s[0] == a[0]);
    assert(s.last() == b.last());
    lemma_trim_unchanged(s);
}

/// `trim_end(s)` is a prefix of `s`, and all it drops is whitespace.
pub proof fn lemma_trim_end_shape(s: Seq<char>)
    ensures
        trim_end(s).len() <= s.len(),
        trim_end(s) == s.subrange(0, trim_end(s).len() as int),
        forall|j: int| trim_end(s).len() <= j < s.len() ==> is_whitespace(#[trigger] s[j]),
    decreases s.len(),
{
    if s.len() > 0 && is_whitespace(s.last()) {
        lemma_trim_end_shape(s.drop_last());
        assert(s.drop_last().subrange(0, trim_end(s).len() as int) =~= s.subrange(
            0,
            trim_end(s).len() as int,
        ));
        assert forall|j: int| trim_end(s).len() <= j < s.len() implies is_whitespace(
            #[trigger] s[j],
        ) by {
            if j < s.len() - 1 {
                assert(s[j] == s.drop_last()[j]);
            }
        }
    } else {
        assert(s.subrange(0, s.len() as int) =~= s);
    }
}

/// Whether a character is Unicode whitespace.
pub fn char_is_whitespace(c: char) -> (b: bool)
    ensures
        b == is_whitespace(c),
{
    let u = c as u32;
    (0x9 <= u && u <= 0xd) || u == 0x20 || u == 0x85 || u == 0xa0 || u == 0x1680 || (0x2000 <= u
        && u <= 0x200a) || u == 0x2028 || u == 0x2029 || u == 0x202f || u == 0x205f || u == 0x3000
}

/// The bounds of `trim(v[lo..hi])` within `v`.
pub fn trim_bounds(v: &Vec<char>, lo: usize, hi: usize) -> (r: (usize, usize))
    requires
        lo <= hi <= v@.len(),
    ensures
        lo <= r.0 <= r.1 <= hi,
        v@.subrange(r.0 as int, r.1 as int) == trim(v@.subrange(lo as int, hi as int)),
{
    let mut a = lo;
    while a < hi && char_is_whitespace(v[a])
        invariant
            lo <= a <= hi <= v@.len(),
            trim_start(v@.subrange(a as int, hi as int)) == trim_start(
                v@.subrange(lo as int, hi as int),
            ),
        decreases hi - a,
    {
        assert(v@.subrange(a as int, hi as int).drop_first() =~= v@.subrange(a + 1, hi as int));
        a = a + 1;
    }
    assert(trim_start(v@.subrange(a as int, hi as int)) == v@.subrange(a as int, hi as int));
    let mut b = hi;
    while b > a && char_is_whitespace(v[b - 1])
        invariant
            lo <= a <= b <= hi <= v@.len(),
            trim_end(v@.subrange(a as int, b as int)) == trim(v@.subrange(lo as int, hi as int)),
        decreases b - a,
    {
        assert(v@.subrange(a as int, b as int).drop_last() =~= v@.subrange(a as int, b - 1));
        b = b - 1;
    }
    (a, b)
}

/// The characters of a text.
pub fn chars_of(s: &str) -> (v: Vec<char>)
    ensures
        v@ == s@,
{
    let mut v: Vec<char> = Vec::new();
    let ghost text = s@;
    for c in it: s.chars()
        invariant
            it.seq() == text,
            v@ == text.take(it.index() as int),
    {
        proof {
            assert(text.take(it.index() + 1) =~= text.take(it.index() as int).push(c));
        }
        v.push(c);
    }
    proof {
        assert(text.take(text.len() as int) =~= text);
    }
    v
}

/// The text made of `v[lo..hi]`.
pub fn string_of(v: &Vec<char>, lo: usize, hi: usize) -> (s: String)
    requires
        lo <= hi <= v@.len(),
    ensures
        s@ == v@.subrange(lo as int, hi as int),
{
    let mut s = String::new();
    let mut i = lo;
    while i < hi
        invariant
            lo <= i <= hi <= v@.len(),
            s@ == v@.subrange(lo as int, i as int),
        decreases hi - i,
    {
        push_char(&mut s, v[i]);
        i = i + 1;
        assert(s@ =~= v@.subrange(lo as int, i as int));
    }
    s
}

/// Whether `pat` occurs in `v` at index `at`.
fn matches_at(v: &Vec<char>, at: usize, pat: &Vec<char>) -> (b: bool)
    requires
        at + pat@.len() <= v@.len(),
    ensures
        b == (v@.subrange(at as int, at + pat@.len()) == pat@),
{
    let n = v.len();
    let mut j: usize = 0;
    while j < pat.len()
        invariant
            at + pat@.len() <= v@.len(),
            n == v@.len(),
            j <= pat@.len(),
            forall|k: int| 0 <= k < j ==> v@[at + k] == pat@[k],
        decreases pat@.len() - j,
    {
        if v[at + j] != pat[j] {
            assert(v@.subrange(at as int, at + pat@.len())[j as int] != pat@[j as int]);
            return false;
        }
        j = j + 1;
    }
    assert(v@.subrange(at as int, at + pat@.len()) =~= pat@);
    true
}

/// The first index, counted from `lo`, at which `pat` occurs in `v[lo..hi]`.
pub fn find_in(v: &Vec<char>, lo: usize, hi: usize, pat: &Vec<char>) -> (r: Option<usize>)
    requires
        lo <= hi <= v@.len(),
    ensures
        match r {
            Some(i) => first_occurrence(v@.subrange(lo as int, hi as int), pat@) == Some(i as int)
                && is_first_occurrence(v@.subrange(lo as int, hi as int), pat@, i as int),
            None => first_occurrence(v@.subrange(lo as int, hi as int), pat@) is None,
        },
{
    let ghost s = v@.subrange(lo as int, hi as int);
    if pat.len() > hi - lo {
        assert forall|i: int| !occurs_at(s, pat@, i) by {}
        return None;
    }
    let last = hi - lo - pat.len();
    let mut i: usize = 0;
    loop
        invariant_except_break
            i <= last,
        invariant
            lo <= hi <= v@.len(),
            s == v@.subrange(lo as int, hi as int),
            last == hi - lo - pat@.len(),
            forall|j: int| 0 <= j < i ==> !occurs_at(s, pat@, j),
        ensures
            forall|j: int| 0 <= j <= last ==> !occurs_at(s, pat@, j),
        decreases last - i,
    {
        let hit = matches_at(v, lo + i, pat);
        assert(s.subrange(i as int, i + pat@.len()) =~= v@.subrange(lo + i, lo + i + pat@.len()));
        if hit {
            assert(is_first_occurrence(s, pat@, i as int));
            let ghost k = choose|k: int| is_first_occurrence(s, pat@, k);
            assert(k == i) by {
                if k < i {
                } else if k > i {
                }
            }
            return Some(i);
        }
        if i == last {
            break;
        }
        i = i + 1;
    }
    assert forall|j: int| !occurs_at(s, pat@, j) by {
        if 0 <= j <= last {
        }
    }
    None
}

} // verus!
