//! Character-level helpers over strings: conversion, trimming, splitting,
//! searching, and decimal formatting and parsing.
use vstd::prelude::*;

verus! {

// ---------------------------------------------------------------------------
// Conversion between strings and character vectors
// ---------------------------------------------------------------------------

/// The characters of `s`, in order.
pub fn chars_of(s: &str) -> (res: Vec<char>)
    ensures
        res@ == s@,
{
    let mut res: Vec<char> = Vec::new();
    for c in it: s.chars()
        invariant
            res@ == it.seq().take(it.index() as int),
    {
        res.push(c);
    }
    res
}

/// Appends one character to a string (std's `String::push`).
#[verifier::external_body]
pub fn push_char(s: &mut String, c: char)
    ensures
        final(s)@ == old(s)@.push(c),
{
    s.push(c);
}

/// Appends the characters of `cs` to `out`.
pub fn push_chars(out: &mut String, cs: &[char])
    ensures
        final(out)@ == old(out)@ + cs@,
{
    let ghost start = out@;
    for i in 0..cs.len()
        invariant
            out@ == start + cs@.take(i as int),
    {
        push_char(out, cs[i]);
        assert(cs@.take(i + 1) == cs@.take(i as int).push(cs@[i as int]));
    }
    assert(cs@.take(cs.len() as int) == cs@);
}

/// A string made of the characters of `cs`.
pub fn string_from_chars(cs: &[char]) -> (res: String)
    ensures
        res@ == cs@,
{
    let mut out = String::new();
    push_chars(&mut out, cs);
    out
}

/// Whether two character sequences are equal.
pub fn chars_eq(a: &[char], b: &[char]) -> (res: bool)
    ensures
        res == (a@ == b@),
{
    if a.len() != b.len() {
        return false;
    }
    for i in 0..a.len()
        invariant
            a@.len() == b@.len(),
            forall|j: int| 0 <= j < i ==> a@[j] == b@[j],
    {
        if a[i] != b[i] {
            return false;
        }
    }
    assert(a@ =~= b@);
    true
}

/// Whether two strings hold the same characters.
pub fn str_eq(a: &str, b: &str) -> (res: bool)
    ensures
        res == (a@ == b@),
{
    let ac = chars_of(a);
    let bc = chars_of(b);
    chars_eq(ac.as_slice(), bc.as_slice())
}

// ---------------------------------------------------------------------------
// Whitespace and trimming
// ---------------------------------------------------------------------------

/// The Unicode `White_Space` characters, which std's `char::is_whitespace`
/// and `str::trim` go by.
pub open spec fn is_ws(c: char) -> bool {
    ||| ('\u{9}' <= c && c <= '\u{d}')
    ||| c == ' '
    ||| c == '\u{85}'
    ||| c == '\u{a0}'
    ||| c == '\u{1680}'
    ||| ('\u{2000}' <= c && c <= '\u{200a}')
    ||| c == '\u{2028}'
    ||| c == '\u{2029}'
    ||| c == '\u{202f}'
    ||| c == '\u{205f}'
    ||| c == '\u{3000}'
}

/// Whether `c` is whitespace.
pub fn is_whitespace(c: char) -> (res: bool)
    ensures
        res == is_ws(c),
{
    ('\u{9}' <= c && c <= '\u{d}') || c == ' ' || c == '\u{85}' || c == '\u{a0}' || c
        == '\u{1680}' || ('\u{2000}' <= c && c <= '\u{200a}') || c == '\u{2028}' || c
        == '\u{2029}' || c == '\u{202f}' || c == '\u{205f}' || c == '\u{3000}'
}

/// `s` without its leading whitespace.
pub open spec fn trim_start_spec(s: Seq<char>) -> Seq<char>
    decreases s.len(),
{
    if s.len() > 0 && is_ws(s[0]) {
        trim_start_spec(s.drop_first())
    } else {
        s
    }
}

/// `s` without its trailing whitespace.
pub open spec fn trim_end_spec(s: Seq<char>) -> Seq<char>
    decreases s.len(),
{
    if s.len() > 0 && is_ws(s.last()) {
        trim_end_spec(s.drop_last())
    } else {
        s
    }
}

/// `s` without leading and trailing whitespace, as std's `str::trim`.
pub open spec fn trim_spec(s: Seq<char>) -> Seq<char> {
    trim_end_spec(trim_start_spec(s))
}

proof fn lemma_trim_start_skip(s: Seq<char>, i: int)
    requires
        0 <= i <= s.len(),
        forall|k: int| 0 <= k < i ==> is_ws(#[trigger] s[k]),
        i == s.len() || !is_ws(s[i]),
    ensures
        trim_start_spec(s) == s.skip(i),
    decreases i,
{
    if i == 0 {
        assert(s.skip(0) =~= s);
    } else {
        lemma_trim_start_skip(s.drop_first(), i - 1);
        assert(s.drop_first().skip(i - 1) =~= s.skip(i));
    }
}

proof fn lemma_trim_end_take(s: Seq<char>, j: int)
    requires
        0 <= j <= s.len(),
        forall|k: int| j <= k < s.len() ==> is_ws(#[trigger] s[k]),
        j == 0 || !is_ws(s[j - 1]),
    ensures
        trim_end_spec(s) == s.take(j),
    decreases s.len() - j,
{
    if j == s.len() {
        assert(s.take(j) =~= s);
    } else {
        lemma_trim_end_take(s.drop_last(), j);
        assert(s.drop_last().take(j) =~= s.take(j));
    }
}

/// `s` without leading and trailing whitespace.
pub fn trim_chars(s: &[char]) -> (res: Vec<char>)
    ensures
        res@ == trim_spec(s@),
{
    let n = s.len();
    let mut i: usize = 0;
    while i < n && is_whitespace(s[i])
        invariant
            i <= n,
            n == s@.len(),
            forall|k: int| 0 <= k < i ==> is_ws(#[trigger] s@[k]),
        decreases n - i,
    {
        i = i + 1;
    }
    proof {
        lemma_trim_start_skip(s@, i as int);
    }
    let ghost t = s@.skip(i as int);
    let mut j: usize = n;
    while j > i && is_whitespace(s[j - 1])
        invariant
            i <= j <= n,
            n == s@.len(),
            forall|k: int| j <= k < n ==> is_ws(#[trigger] s@[k]),
        decreases j,
    {
        j = j - 1;
    }
    proof {
        assert forall|k: int| (j - i) <= k < t.len() implies is_ws(#[trigger] t[k]) by {
            assert(t[k] == s@[k + i]);
        }
        lemma_trim_end_take(t, j - i);
        assert(t.take(j - i) =~= s@.subrange(i as int, j as int));
    }
    let mut res: Vec<char> = Vec::new();
    let mut k: usize = i;
    while k < j
        invariant
            i <= k <= j <= n,
            n == s@.len(),
            res@ == s@.subrange(i as int, k as int),
        decreases j - k,
    {
        res.push(s[k]);
        assert(s@.subrange(i as int, k + 1) == s@.subrange(i as int, k as int).push(s@[k as int]));
        k = k + 1;
    }
    res
}

// ---------------------------------------------------------------------------
// Splitting and searching
// ---------------------------------------------------------------------------

/// The pieces of `s` between occurrences of `sep`, as std's `str::split`
/// with a character pattern: there is always at least one piece.
pub open spec fn split_spec(s: Seq<char>, sep: char) -> Seq<Seq<char>>
    decreases s.len(),
{
    if s.len() == 0 {
        seq![Seq::<char>::empty()]
    } else {
        let prev = split_spec(s.drop_last(), sep);
        if s.last() == sep {
            prev.push(Seq::<char>::empty())
        } else {
            prev.update(prev.len() - 1, prev.last().push(s.last()))
        }
    }
}

proof fn lemma_split_nonempty(s: Seq<char>, sep: char)
    ensures
        split_spec(s, sep).len() >= 1,
    decreases s.len(),
{
    if s.len() > 0 {
        lemma_split_nonempty(s.drop_last(), sep);
    }
}

/// The views of a vector of character vectors.
pub open spec fn views(v: Seq<Vec<char>>) -> Seq<Seq<char>> {
    v.map_values(|x: Vec<char>| x@)
}

/// The pieces of `s` between occurrences of `sep`.
pub fn split_chars(s: &[char], sep: char) -> (res: Vec<Vec<char>>)
    ensures
        views(res@) == split_spec(s@, sep),
{
    let mut parts: Vec<Vec<char>> = Vec::new();
    let mut cur: Vec<char> = Vec::new();
    for i in 0..s.len()
        invariant
            views(parts@).push(cur@) == split_spec(s@.take(i as int), sep),
    {
        let ghost before = s@.take(i as int);
        proof {
            lemma_split_nonempty(before, sep);
            assert(s@.take(i + 1).drop_last() =~= before);
        }
        if s[i] == sep {
            let done = cur;
            parts.push(done);
            cur = Vec::new();
            assert(views(parts@).push(cur@) =~= split_spec(s@.take(i + 1), sep));
        } else {
            cur.push(s[i]);
            assert(views(parts@).push(cur@) =~= split_spec(s@.take(i + 1), sep));
        }
    }
    assert(s@.take(s.len() as int) =~= s@);
    parts.push(cur);
    assert(views(parts@) =~= split_spec(s@, sep));
    parts
}

/// Whether `pat` occurs in `s` starting at position `i`.
pub open spec fn occurs_at(s: Seq<char>, pat: Seq<char>, i: int) -> bool {
    0 <= i && i + pat.len() <= s.len() && s.subrange(i, i + pat.len()) == pat
}

/// Whether `pat` occurs anywhere in `s`.
pub open spec fn contains_spec(s: Seq<char>, pat: Seq<char>) -> bool {
    exists|i: int| occurs_at(s, pat, i)
}

/// Whether `s` begins with `pat`.
pub open spec fn starts_with_spec(s: Seq<char>, pat: Seq<char>) -> bool {
    occurs_at(s, pat, 0)
}

fn matches_at(s: &[char], pat: &[char], i: usize) -> (res: bool)
    requires
        i + pat@.len() <= s.len(),
    ensures
        res == occurs_at(s@, pat@, i as int),
{
    for k in 0..pat.len()
        invariant
            i + pat@.len() <= s.len(),
            forall|m: int| 0 <= m < k ==> s@[i + m] == pat@[m],
    {
        if s[i + k] != pat[k] {
            assert(s@.subrange(i as int, i + pat@.len())[k as int] != pat@[k as int]);
            return false;
        }
    }
    assert(s@.subrange(i as int, i + pat@.len()) =~= pat@);
    true
}

/// Whether `s` begins with `pat`.
pub fn starts_with_chars(s: &[char], pat: &[char]) -> (res: bool)
    ensures
        res == starts_with_spec(s@, pat@),
{
    if pat.len() > s.len() {
        return false;
    }
    matches_at(s, pat, 0)
}

/// Whether `pat` occurs in `s`.
pub fn contains_chars(s: &[char], pat: &[char]) -> (res: bool)
    ensures
        res == contains_spec(s@, pat@),
{
    if pat.len() > s.len() {
        return false;
    }
    if pat.len() == 0 {
        assert(s@.subrange(0, 0) =~= pat@);
        assert(occurs_at(s@, pat@, 0));
        return true;
    }
    let last = s.len() - pat.len();
    let mut i: usize = 0;
    while i <= last
        invariant
            last + pat@.len() == s@.len(),
            last < s.len(),
            i <= last + 1,
            forall|m: int| 0 <= m < i ==> !occurs_at(s@, pat@, m),
        decreases last + 1 - i,
    {
        if matches_at(s, pat, i) {
            return true;
        }
        i = i + 1;
    }
    false
}

/// Whether `pat` occurs in the string `s`.
pub fn str_contains(s: &str, pat: &str) -> (res: bool)
    ensures
        res == contains_spec(s@, pat@),
{
    let sc = chars_of(s);
    let pc = chars_of(pat);
    contains_chars(sc.as_slice(), pc.as_slice())
}

/// Whether the string `s` begins with `pat`.
pub fn str_starts_with(s: &str, pat: &str) -> (res: bool)
    ensures
        res == starts_with_spec(s@, pat@),
{
    let sc = chars_of(s);
    let pc = chars_of(pat);
    starts_with_chars(sc.as_slice(), pc.as_slice())
}

// ---------------------------------------------------------------------------
// Decimal numbers
// ---------------------------------------------------------------------------

/// The character of a decimal digit.
pub open spec fn digit_char(d: nat) -> char
    recommends
        d < 10,
{
    ((d + 48) as u8) as char
}

/// Whether `c` is an ASCII decimal digit.
pub open spec fn is_digit(c: char) -> bool {
    '0' <= c && c <= '9'
}

/// The value of an ASCII decimal digit.
pub open spec fn digit_value(c: char) -> nat {
    (c as nat - 48) as nat
}

/// Every character of `s` is a decimal digit.
pub open spec fn all_digits(s: Seq<char>) -> bool {
    forall|i: int| 0 <= i < s.len() ==> is_digit(#[trigger] s[i])
}

/// The number that the decimal digits `s` spell.
pub open spec fn digits_value(s: Seq<char>) -> nat
    decreases s.len(),
{
    if s.len() == 0 {
        0
    } else {
        digits_value(s.drop_last()) * 10 + digit_value(s.last())
    }
}

/// The decimal spelling of `n`, without leading zeros (as `to_string`).
pub open spec fn nat_to_decimal(n: nat) -> Seq<char>
    decreases n,
{
    if n < 10 {
        seq![digit_char(n)]
    } else {
        nat_to_decimal(n / 10).push(digit_char(n % 10))
    }
}

/// The decimal spelling of an integer: a minus sign before negative ones.
pub open spec fn int_to_decimal(n: int) -> Seq<char> {
    if n < 0 {
        seq!['-'] + nat_to_decimal((-n) as nat)
    } else {
        nat_to_decimal(n as nat)
    }
}

/// Appends the decimal spelling of `n` to `out`.
pub fn push_decimal(out: &mut String, n: u64)
    ensures
        final(out)@ == old(out)@ + nat_to_decimal(n as nat),
    decreases n,
{
    if n >= 10 {
        push_decimal(out, n / 10);
    }
    let d = (n % 10) as u8;
    push_char(out, (d + 48) as char);
    proof {
        assert(nat_to_decimal(n as nat) == if n < 10 {
            seq![digit_char(n as nat)]
        } else {
            nat_to_decimal((n / 10) as nat).push(digit_char((n % 10) as nat))
        });
    }
    assert(final(out)@ =~= old(out)@ + nat_to_decimal(n as nat));
}

/// The decimal spelling of `n`.
pub fn u64_to_decimal(n: u64) -> (res: String)
    ensures
        res@ == nat_to_decimal(n as nat),
{
    let mut out = String::new();
    push_decimal(&mut out, n);
    assert(out@ =~= nat_to_decimal(n as nat));
    out
}

/// The decimal spelling of `n`, with a minus sign if it is negative.
pub fn i64_to_decimal(n: i64) -> (res: String)
    ensures
        res@ == int_to_decimal(n as int),
{
    let mut out = String::new();
    if n < 0 {
        push_char(&mut out, '-');
        let m: u64 = if n == i64::MIN {
            9223372036854775808u64
        } else {
            (-n) as u64
        };
        push_decimal(&mut out, m);
        assert(out@ =~= int_to_decimal(n as int));
    } else {
        push_decimal(&mut out, n as u64);
        assert(out@ =~= int_to_decimal(n as int));
    }
    out
}

/// The unsigned value that std's `str::parse::<u64>` reads from `s`, if any:
/// an optional `+`, then at least one decimal digit, with no overflow.
pub open spec fn parse_unsigned_spec(s: Seq<char>, max: nat) -> Option<nat> {
    let d = if s.len() > 0 && s[0] == '+' {
        s.drop_first()
    } else {
        s
    };
    if d.len() > 0 && all_digits(d) && digits_value(d) <= max {
        Some(digits_value(d))
    } else {
        None
    }
}

/// The signed value that std's `str::parse::<i64>` reads from `s`, if any:
/// an optional `+` or `-`, then at least one decimal digit, within range.
pub open spec fn parse_i64_spec(s: Seq<char>) -> Option<i64> {
    if s.len() > 0 && s[0] == '-' {
        let d = s.drop_first();
        if d.len() > 0 && all_digits(d) && digits_value(d) <= 9223372036854775808 {
            Some((-(digits_value(d) as int)) as i64)
        } else {
            None
        }
    } else {
        match parse_unsigned_spec(s, 9223372036854775807) {
            Some(v) => Some(v as i64),
            None => None,
        }
    }
}

/// The value std's `str::parse::<u64>` reads from `s`, if any.
pub open spec fn parse_u64_spec(s: Seq<char>) -> Option<u64> {
    match parse_unsigned_spec(s, 18446744073709551615) {
        Some(v) => Some(v as u64),
        None => None,
    }
}

proof fn lemma_digits_value_prefix_le(s: Seq<char>, i: int)
    requires
        0 <= i <= s.len(),
    ensures
        digits_value(s.take(i)) <= digits_value(s),
    decreases s.len() - i,
{
    if i < s.len() {
        lemma_digits_value_prefix_le(s, i + 1);
        assert(s.take(i + 1).drop_last() =~= s.take(i));
    } else {
        assert(s.take(i) =~= s);
    }
}

/// Reads the decimal digits `s[start..]` (all of them) as a number no larger than `max`.
fn parse_digits(s: &[char], start: usize, max: u64) -> (res: Option<u64>)
    requires
        start <= s@.len(),
    ensures
        ({
            let d = s@.skip(start as int);
            res == (if d.len() > 0 && all_digits(d) && digits_value(d) <= max {
                Some(digits_value(d) as u64)
            } else {
                None::<u64>
            })
        }),
{
    let ghost d = s@.skip(start as int);
    if start == s.len() {
        return None;
    }
    let mut acc: u64 = 0;
    let mut i: usize = start;
    while i < s.len()
        invariant
            start <= i <= s@.len(),
            d == s@.skip(start as int),
            d.len() > 0,
            all_digits(d.take(i - start)),
            acc == digits_value(d.take(i - start)),
            acc <= max,
        decreases s@.len() - i,
    {
        let c = s[i];
        assert(c == d[i - start]);
        if !('0' <= c && c <= '9') {
            return None;
        }
        let v = ((c as u32) - 48) as u64;
        assert(d.take(i - start + 1).drop_last() =~= d.take(i - start));
        if (acc as u128) * 10 + (v as u128) > (max as u128) {
            proof {
                lemma_digits_value_prefix_le(d, i - start + 1);
            }
            return None;
        }
        acc = acc * 10 + v;
        assert(all_digits(d.take(i - start + 1)));
        i = i + 1;
    }
    assert(d.take(d.len() as int) =~= d);
    Some(acc)
}

/// Reads an unsigned number no larger than `max`, as std's `str::parse`.
pub fn parse_unsigned(s: &[char], max: u64) -> (res: Option<u64>)
    ensures
        res == (match parse_unsigned_spec(s@, max as nat) {
            Some(v) => Some(v as u64),
            None => None::<u64>,
        }),
{
    if s.len() > 0 && s[0] == '+' {
        assert(s@.skip(1) =~= s@.drop_first());
        parse_digits(s, 1, max)
    } else {
        assert(s@.skip(0) =~= s@);
        parse_digits(s, 0, max)
    }
}

/// Reads a `u64` from `s`, as std's `str::parse::<u64>`.
pub fn parse_u64(s: &[char]) -> (res: Option<u64>)
    ensures
        res == parse_u64_spec(s@),
{
    parse_unsigned(s, u64::MAX)
}

/// Reads an `i64` from `s`, as std's `str::parse::<i64>`.
pub fn parse_i64(s: &[char]) -> (res: Option<i64>)
    ensures
        res == parse_i64_spec(s@),
{
    if s.len() > 0 && s[0] == '-' {
        assert(s@.skip(1) =~= s@.drop_first());
        match parse_digits(s, 1, 9223372036854775808u64) {
            Some(m) => {
                if m == 9223372036854775808u64 {
                    Some(i64::MIN)
                } else {
                    Some(-(m as i64))
                }
            },
            None => None,
        }
    } else {
        match parse_unsigned(s, 9223372036854775807u64) {
            Some(v) => Some(v as i64),
            None => None,
        }
    }
}


// ---------------------------------------------------------------------------
// Facts about splitting and decimal numbers
// ---------------------------------------------------------------------------

/// `c` does not occur in `s`.
pub open spec fn lacks(s: Seq<char>, c: char) -> bool {
    forall|i: int| 0 <= i < s.len() ==> #[trigger] s[i] != c
}

/// A text without the separator is one piece.
pub proof fn lemma_split_no_sep(s: Seq<char>, sep: char)
    requires
        lacks(s, sep),
    ensures
        split_spec(s, sep) == seq![s],
    decreases s.len(),
{
    if s.len() > 0 {
        lemma_split_no_sep(s.drop_last(), sep);
        assert(s.drop_last().push(s.last()) =~= s);
        assert(split_spec(s, sep) =~= seq![s]);
    } else {
        assert(s =~= Seq::<char>::empty());
        assert(split_spec(s, sep) =~= seq![s]);
    }
}

/// Splitting at a separator between two texts splits each side.
pub proof fn lemma_split_concat(a: Seq<char>, b: Seq<char>, sep: char)
    ensures
        split_spec(a + seq![sep] + b, sep) == split_spec(a, sep) + split_spec(b, sep),
    decreases b.len(),
{
    lemma_split_nonempty(a, sep);
    lemma_split_nonempty(b, sep);
    if b.len() == 0 {
        let s = a + seq![sep] + b;
        assert(s.drop_last() =~= a);
        assert(split_spec(s, sep) =~= split_spec(a, sep) + split_spec(b, sep));
    } else {
        let s = a + seq![sep] + b;
        lemma_split_concat(a, b.drop_last(), sep);
        assert(s.drop_last() =~= a + seq![sep] + b.drop_last());
        lemma_split_nonempty(b.drop_last(), sep);
        assert(split_spec(s, sep) =~= split_spec(a, sep) + split_spec(b, sep));
    }
}

/// The position of the last `c` in `s`, if any.
pub open spec fn last_index_of(s: Seq<char>, c: char) -> Option<int>
    decreases s.len(),
{
    if s.len() == 0 {
        None
    } else if s.last() == c {
        Some(s.len() - 1)
    } else {
        last_index_of(s.drop_last(), c)
    }
}

/// A pattern found inside `m` is found, shifted, inside `a + m + b`.
pub proof fn lemma_occurs_within(a: Seq<char>, m: Seq<char>, b: Seq<char>, pat: Seq<char>, k: int)
    requires
        occurs_at(m, pat, k),
    ensures
        occurs_at(a + m + b, pat, a.len() + k),
        contains_spec(a + m + b, pat),
{
    assert((a + m + b).subrange(a.len() + k, a.len() + k + pat.len()) =~= m.subrange(
        k,
        k + pat.len(),
    ));
}

/// A pattern found in `m` is found in `a + m + b`.
pub proof fn lemma_contains_within(a: Seq<char>, m: Seq<char>, b: Seq<char>, pat: Seq<char>)
    requires
        contains_spec(m, pat),
    ensures
        contains_spec(a + m + b, pat),
{
    let k = choose|k: int| occurs_at(m, pat, k);
    lemma_occurs_within(a, m, b, pat, k);
}

/// A pattern found in `x` is found in every text that begins with `x`.
pub proof fn lemma_contains_prefix(x: Seq<char>, y: Seq<char>, pat: Seq<char>)
    requires
        contains_spec(x, pat),
        x.len() <= y.len(),
        y.subrange(0, x.len() as int) == x,
    ensures
        contains_spec(y, pat),
{
    let i = choose|i: int| occurs_at(x, pat, i);
    assert(y.subrange(i, i + pat.len()) =~= x.subrange(i, i + pat.len())) by {
        assert forall|j: int| 0 <= j < pat.len() implies #[trigger] y.subrange(i, i + pat.len())[j]
            == x.subrange(i, i + pat.len())[j] by {
            assert(y.subrange(0, x.len() as int)[i + j] == y[i + j]);
        }
    }
    assert(occurs_at(y, pat, i));
}

/// The last separator of `a + [c] + b`, where `b` lacks `c`, is the one
/// between them.
pub proof fn lemma_last_index_concat(a: Seq<char>, b: Seq<char>, c: char)
    requires
        lacks(b, c),
    ensures
        last_index_of(a + seq![c] + b, c) == Some(a.len() as int),
    decreases b.len(),
{
    let s = a + seq![c] + b;
    if b.len() > 0 {
        assert(s.drop_last() =~= a + seq![c] + b.drop_last());
        lemma_last_index_concat(a, b.drop_last(), c);
    }
}

proof fn lemma_last_index_facts(s: Seq<char>, c: char)
    ensures
        last_index_of(s, c) matches Some(k) ==> 0 <= k < s.len() && s[k] == c && lacks(
            s.skip(k + 1),
            c,
        ),
        last_index_of(s, c) is None ==> lacks(s, c),
    decreases s.len(),
{
    if s.len() > 0 {
        lemma_last_index_facts(s.drop_last(), c);
        if s.last() != c && last_index_of(s.drop_last(), c) is None {
            assert forall|i: int| 0 <= i < s.len() implies #[trigger] s[i] != c by {
                if i < s.len() - 1 {
                    assert(s[i] == s.drop_last()[i]);
                }
            }
        }
        if s.last() != c {
            if let Some(k) = last_index_of(s.drop_last(), c) {
                assert forall|i: int| 0 <= i < s.skip(k + 1).len() implies #[trigger] s.skip(
                    k + 1,
                )[i] != c by {
                    if i < s.drop_last().skip(k + 1).len() {
                        assert(s.skip(k + 1)[i] == s.drop_last().skip(k + 1)[i]);
                    }
                }
            }
        }
    }
}

/// The position of the last `c` in `s`, if any.
pub fn last_index_of_char(s: &[char], c: char) -> (res: Option<usize>)
    ensures
        match res {
            Some(k) => last_index_of(s@, c) == Some(k as int),
            None => last_index_of(s@, c) is None,
        },
{
    let mut j: usize = s.len();
    assert(s@.take(s.len() as int) =~= s@);
    while j > 0
        invariant
            j <= s@.len(),
            last_index_of(s@, c) == last_index_of(s@.take(j as int), c),
        decreases j,
    {
        assert(s@.take(j as int).drop_last() =~= s@.take(j - 1));
        if s[j - 1] == c {
            return Some(j - 1);
        }
        j = j - 1;
    }
    None
}

proof fn lemma_digit_char(d: nat)
    requires
        d < 10,
    ensures
        is_digit(digit_char(d)),
        digit_value(digit_char(d)) == d,
{
    let b = (d + 48) as u8;
    assert(b as u32 == d + 48);
    vstd::utf8::char_u32_cast(b as char, b as u32);
    assert((b as char) as nat == d + 48);
}

/// The digits of a number's decimal spelling read back as the number.
pub proof fn lemma_decimal_digits(n: nat)
    ensures
        nat_to_decimal(n).len() > 0,
        all_digits(nat_to_decimal(n)),
        digits_value(nat_to_decimal(n)) == n,
        nat_to_decimal(n)[0] != '+',
        nat_to_decimal(n)[0] != '-',
        lacks(nat_to_decimal(n), '\0'),
        lacks(nat_to_decimal(n), '.'),
        lacks(nat_to_decimal(n), '|'),
        lacks(nat_to_decimal(n), ','),
    decreases n,
{
    lemma_digit_char(n % 10);
    if n >= 10 {
        lemma_decimal_digits(n / 10);
        let d = nat_to_decimal(n);
        assert(d.drop_last() =~= nat_to_decimal(n / 10));
        assert(d.last() == digit_char(n % 10));
        assert(digits_value(d) == digits_value(nat_to_decimal(n / 10)) * 10 + digit_value(d.last()));
    } else {
        assert(n % 10 == n);
        assert(nat_to_decimal(n).drop_last() =~= Seq::<char>::empty());
        assert(digits_value(nat_to_decimal(n)) == digits_value(Seq::<char>::empty()) * 10
            + digit_value(digit_char(n)));
    }
}

/// Parsing a number's decimal spelling gives the number back.
pub proof fn lemma_parse_u64_decimal(n: u64)
    ensures
        parse_u64_spec(nat_to_decimal(n as nat)) == Some(n),
{
    lemma_decimal_digits(n as nat);
}

/// Parsing an integer's decimal spelling gives the integer back.
pub proof fn lemma_parse_i64_decimal(n: i64)
    ensures
        parse_i64_spec(int_to_decimal(n as int)) == Some(n),
{
    if n < 0 {
        lemma_decimal_digits((-(n as int)) as nat);
        let s = int_to_decimal(n as int);
        assert(s.drop_first() =~= nat_to_decimal((-(n as int)) as nat));
    } else {
        lemma_decimal_digits(n as nat);
    }
}


/// `10^k`.
pub open spec fn pow10(k: nat) -> nat
    decreases k,
{
    if k == 0 {
        1
    } else {
        10 * pow10((k - 1) as nat)
    }
}

proof fn lemma_decimal_len(n: nat, k: nat)
    requires
        k >= 1,
        n < pow10(k),
    ensures
        nat_to_decimal(n).len() <= k,
    decreases k,
{
    if n >= 10 {
        assert(k >= 2) by {
            if k == 1 {
                assert(pow10(1) == 10 * pow10(0));
            }
        }
        assert(pow10(k) == 10 * pow10((k - 1) as nat));
        lemma_decimal_len(n / 10, (k - 1) as nat);
    }
}

/// The decimal spelling of an `i64` is at most 20 ASCII characters.
pub proof fn lemma_i64_decimal_short(n: i64)
    ensures
        int_to_decimal(n as int).len() <= 20,
        vstd::utf8::is_ascii_chars(int_to_decimal(n as int)),
{
    reveal_with_fuel(pow10, 21);
    let m: nat = if n < 0 {
        (-(n as int)) as nat
    } else {
        n as nat
    };
    lemma_decimal_digits(m);
    lemma_decimal_len(m, 19);
    let d = nat_to_decimal(m);
    assert forall|i: int| 0 <= i < d.len() implies '\0' <= #[trigger] d[i] <= '\u{7f}' by {
        assert(is_digit(d[i]));
    }
    if n < 0 {
        let s = int_to_decimal(n as int);
        assert forall|i: int| 0 <= i < s.len() implies '\0' <= #[trigger] s[i] <= '\u{7f}' by {
            if i > 0 {
                assert(s[i] == d[i - 1]);
            }
        }
    }
}

} // verus!
