//! Character-level helpers: conversion between strings and character
//! vectors, ASCII case folding, whitespace trimming, substring search, and
//! decimal / hexadecimal number formatting and parsing.

use vstd::prelude::*;

verus! {

/// The characters of `s`, in order.
pub fn chars_of(s: &str) -> (v: Vec<char>)
    ensures
        v@ == s@,
{
    let mut v: Vec<char> = Vec::new();
    for c in it: s.chars()
        invariant
            v@ == it.seq().take(it.index() as int),
    {
        v.push(c);
    }
    assert(v@ =~= s@);
    v
}

/// Appends one character to a `String` (`String::push`).
#[verifier::external_body]
fn string_push(s: &mut String, c: char)
    ensures
        final(s)@ == old(s)@.push(c),
{
    s.push(c);
}

/// The `String` holding exactly the characters of `v`.
pub fn string_of(v: &Vec<char>) -> (s: String)
    ensures
        s@ == v@,
{
    let mut s = String::new();
    for i in 0..v.len()
        invariant
            s@ == v@.take(i as int),
    {
        string_push(&mut s, v[i]);
        assert(v@.take(i as int).push(v@[i as int]) =~= v@.take(i + 1));
    }
    assert(v@.take(v.len() as int) =~= v@);
    s
}

/// Appends all of `tail` to `v`.
pub fn push_all(v: &mut Vec<char>, tail: &Vec<char>)
    ensures
        final(v)@ == old(v)@ + tail@,
{
    let ghost start = v@;
    for i in 0..tail.len()
        invariant
            v@ == start + tail@.take(i as int),
    {
        v.push(tail[i]);
        assert(start + tail@.take(i as int) + seq![tail@[i as int]] =~= start + tail@.take(i + 1));
    }
    assert(tail@.take(tail.len() as int) =~= tail@);
}

/// Appends the characters of a string slice to `v`.
pub fn push_str(v: &mut Vec<char>, s: &str)
    ensures
        final(v)@ == old(v)@ + s@,
{
    let cs = chars_of(s);
    push_all(v, &cs);
}

// ---------------------------------------------------------------------
// ASCII case folding

pub open spec fn ascii_upper_char(c: char) -> char {
    if 'a' <= c && c <= 'z' { ((c as u32) - 32) as char } else { c }
}

pub open spec fn ascii_lower_char(c: char) -> char {
    if 'A' <= c && c <= 'Z' { ((c as u32) + 32) as char } else { c }
}

/// `s` with every ASCII lower-case letter made upper case (`to_ascii_uppercase`).
pub open spec fn ascii_upper(s: Seq<char>) -> Seq<char> {
    s.map_values(|c: char| ascii_upper_char(c))
}

/// `s` with every ASCII upper-case letter made lower case (`to_ascii_lowercase`).
pub open spec fn ascii_lower(s: Seq<char>) -> Seq<char> {
    s.map_values(|c: char| ascii_lower_char(c))
}

pub fn upper_char(c: char) -> (r: char)
    ensures
        r == ascii_upper_char(c),
{
    if 'a' <= c && c <= 'z' {
        let n: u32 = (c as u32) - 32;
        assert(0x41 <= n <= 0x5a);
        ((n as u8) as char)
    } else {
        c
    }
}

pub fn lower_char(c: char) -> (r: char)
    ensures
        r == ascii_lower_char(c),
{
    if 'A' <= c && c <= 'Z' {
        let n: u32 = (c as u32) + 32;
        assert(0x61 <= n <= 0x7a);
        ((n as u8) as char)
    } else {
        c
    }
}

pub fn to_ascii_upper(s: &Vec<char>) -> (r: Vec<char>)
    ensures
        r@ == ascii_upper(s@),
{
    let mut r: Vec<char> = Vec::new();
    for i in 0..s.len()
        invariant
            r@ == ascii_upper(s@.take(i as int)),
    {
        let c = upper_char(s[i]);
        r.push(c);
        assert(ascii_upper(s@.take(i + 1)) =~= ascii_upper(s@.take(i as int)).push(c));
    }
    assert(s@.take(s.len() as int) =~= s@);
    r
}

pub fn to_ascii_lower(s: &Vec<char>) -> (r: Vec<char>)
    ensures
        r@ == ascii_lower(s@),
{
    let mut r: Vec<char> = Vec::new();
    for i in 0..s.len()
        invariant
            r@ == ascii_lower(s@.take(i as int)),
    {
        let c = lower_char(s[i]);
        r.push(c);
        assert(ascii_lower(s@.take(i + 1)) =~= ascii_lower(s@.take(i as int)).push(c));
    }
    assert(s@.take(s.len() as int) =~= s@);
    r
}

// ---------------------------------------------------------------------
// Equality and substring search

/// `needle` occurs in `hay` starting at index `i`.
pub open spec fn occurs_at(hay: Seq<char>, needle: Seq<char>, i: int) -> bool {
    0 <= i && i + needle.len() <= hay.len() && hay.subrange(i, i + needle.len()) == needle
}

/// `needle` is a substring of `hay` (`str::contains`).
pub open spec fn contains_seq(hay: Seq<char>, needle: Seq<char>) -> bool {
    exists|i: int| occurs_at(hay, needle, i)
}

/// `prefix` is a prefix of `s` (`str::starts_with`).
pub open spec fn starts_with_seq(s: Seq<char>, prefix: Seq<char>) -> bool {
    prefix.len() <= s.len() && s.subrange(0, prefix.len() as int) == prefix
}

pub fn chars_equal(a: &Vec<char>, b: &Vec<char>) -> (r: bool)
    ensures
        r == (a@ == b@),
{
    if a.len() != b.len() {
        return false;
    }
    for i in 0..a.len()
        invariant
            a.len() == b.len(),
            forall|j: int| 0 <= j < i ==> a@[j] == b@[j],
    {
        if a[i] != b[i] {
            return false;
        }
    }
    assert(a@ =~= b@);
    true
}

fn occurs_at_exec(hay: &Vec<char>, needle: &Vec<char>, i: usize) -> (r: bool)
    requires
        i + needle.len() <= hay.len(),
    ensures
        r == occurs_at(hay@, needle@, i as int),
{
    for j in 0..needle.len()
        invariant
            i + needle.len() <= hay.len(),
            forall|k: int| 0 <= k < j ==> hay@[i + k] == needle@[k],
    {
        if hay[i + j] != needle[j] {
            assert(hay@.subrange(i as int, i + needle.len())[j as int] != needle@[j as int]);
            return false;
        }
    }
    assert(hay@.subrange(i as int, i + needle.len()) =~= needle@);
    true
}

/// Whether `needle` occurs anywhere in `hay`.
pub fn contains(hay: &Vec<char>, needle: &Vec<char>) -> (r: bool)
    ensures
        r == contains_seq(hay@, needle@),
{
    if needle.len() > hay.len() {
        return false;
    }
    if needle.len() == 0 {
        assert(hay@.subrange(0, 0) =~= needle@);
        assert(occurs_at(hay@, needle@, 0));
        return true;
    }
    let mut i: usize = 0;
    while i <= hay.len() - needle.len()
        invariant
            1 <= needle.len() <= hay.len(),
            i <= hay.len() - needle.len() + 1,
            forall|k: int| 0 <= k < i ==> !occurs_at(hay@, needle@, k),
        decreases hay.len() - i,
    {
        if occurs_at_exec(hay, needle, i) {
            return true;
        }
        i = i + 1;
    }
    false
}

/// Whether `s` begins with `prefix`.
pub fn starts_with(s: &Vec<char>, prefix: &Vec<char>) -> (r: bool)
    ensures
        r == starts_with_seq(s@, prefix@),
{
    if prefix.len() > s.len() {
        return false;
    }
    let r = occurs_at_exec(s, prefix, 0);
    r
}

// ---------------------------------------------------------------------
// Whitespace trimming (Unicode `White_Space`, as `char::is_whitespace`)

pub open spec fn is_space(c: char) -> bool {
    let n = c as u32;
    (0x09 <= n && n <= 0x0d) || n == 0x20 || n == 0x85 || n == 0xa0 || n == 0x1680
        || (0x2000 <= n && n <= 0x200a) || n == 0x2028 || n == 0x2029 || n == 0x202f
        || n == 0x205f || n == 0x3000
}

pub fn is_space_exec(c: char) -> (r: bool)
    ensures
        r == is_space(c),
{
    let n = c as u32;
    (0x09 <= n && n <= 0x0d) || n == 0x20 || n == 0x85 || n == 0xa0 || n == 0x1680
        || (0x2000 <= n && n <= 0x200a) || n == 0x2028 || n == 0x2029 || n == 0x202f
        || n == 0x205f || n == 0x3000
}

/// Index of the first non-space character of `s` (or `s.len()`).
pub open spec fn trim_start_index(s: Seq<char>) -> int
    decreases s.len(),
{
    if s.len() > 0 && is_space(s[0]) {
        1 + trim_start_index(s.drop_first())
    } else {
        0
    }
}

/// One past the last non-space character of `s` (or 0).
pub open spec fn trim_end_index(s: Seq<char>) -> int
    decreases s.len(),
{
    if s.len() > 0 && is_space(s.last()) {
        trim_end_index(s.drop_last())
    } else {
        s.len() as int
    }
}

/// `s` without leading and trailing whitespace (`str::trim`).
pub open spec fn trim(s: Seq<char>) -> Seq<char> {
    let t = s.subrange(trim_start_index(s), s.len() as int);
    t.subrange(0, trim_end_index(t))
}

proof fn lemma_trim_start_index(s: Seq<char>, i: int)
    requires
        0 <= i <= s.len(),
        forall|k: int| 0 <= k < i ==> is_space(#[trigger] s[k]),
        i == s.len() || !is_space(s[i]),
    ensures
        trim_start_index(s) == i,
    decreases i,
{
    if i > 0 {
        assert(is_space(s[0]));
        let t = s.drop_first();
        assert forall|k: int| 0 <= k < i - 1 implies is_space(#[trigger] t[k]) by {
            assert(t[k] == s[k + 1]);
        }
        lemma_trim_start_index(t, i - 1);
    }
}

proof fn lemma_trim_end_index(s: Seq<char>, j: int)
    requires
        0 <= j <= s.len(),
        forall|k: int| j <= k < s.len() ==> is_space(#[trigger] s[k]),
        j == 0 || !is_space(s[j - 1]),
    ensures
        trim_end_index(s) == j,
    decreases s.len(),
{
    if s.len() > j {
        assert(is_space(s.last()));
        let t = s.drop_last();
        assert forall|k: int| j <= k < t.len() implies is_space(#[trigger] t[k]) by {
            assert(t[k] == s[k]);
        }
        lemma_trim_end_index(t, j);
    }
}

/// `s[lo..hi]` as a new vector.
pub fn slice_chars(s: &Vec<char>, lo: usize, hi: usize) -> (r: Vec<char>)
    requires
        lo <= hi <= s.len(),
    ensures
        r@ == s@.subrange(lo as int, hi as int),
{
    let mut r: Vec<char> = Vec::new();
    for i in lo..hi
        invariant
            lo <= hi <= s.len(),
            r@ == s@.subrange(lo as int, i as int),
    {
        r.push(s[i]);
        assert(s@.subrange(lo as int, i as int).push(s@[i as int]) =~= s@.subrange(lo as int, i + 1));
    }
    r
}

/// `s` without leading and trailing whitespace.
pub fn trim_chars(s: &Vec<char>) -> (r: Vec<char>)
    ensures
        r@ == trim(s@),
{
    let mut lo: usize = 0;
    while lo < s.len() && is_space_exec(s[lo])
        invariant
            lo <= s.len(),
            forall|k: int| 0 <= k < lo ==> is_space(#[trigger] s@[k]),
        decreases s.len() - lo,
    {
        lo = lo + 1;
    }
    proof {
        lemma_trim_start_index(s@, lo as int);
    }
    let mut hi: usize = s.len();
    while hi > lo && is_space_exec(s[hi - 1])
        invariant
            lo <= hi <= s.len(),
            forall|k: int| hi <= k < s.len() ==> is_space(#[trigger] s@[k]),
        decreases hi,
    {
        hi = hi - 1;
    }
    proof {
        let t = s@.subrange(lo as int, s@.len() as int);
        assert forall|k: int| hi - lo <= k < t.len() implies is_space(#[trigger] t[k]) by {
            assert(t[k] == s@[lo + k]);
        }
        if hi > lo {
            assert(t[hi - lo - 1] == s@[hi - 1]);
        }
        lemma_trim_end_index(t, hi - lo);
        assert(t.subrange(0, hi - lo) =~= s@.subrange(lo as int, hi as int));
    }
    slice_chars(s, lo, hi)
}

// ---------------------------------------------------------------------
// Decimal numbers

pub open spec fn digit_char(d: nat) -> char
    recommends
        d < 10,
{
    ((d + 48) as u32) as char
}

/// The decimal representation of `n`, without sign or leading zeros.
pub open spec fn decimal(n: nat) -> Seq<char>
    decreases n,
{
    if n < 10 {
        seq![digit_char(n)]
    } else {
        decimal(n / 10).push(digit_char(n % 10))
    }
}

fn digit_exec(d: u64) -> (c: char)
    requires
        d < 10,
    ensures
        c == digit_char(d as nat),
{
    let n: u32 = (d as u32) + 48;
    ((n as u8) as char)
}

/// Appends the decimal representation of `n` (as `format!("{}", n)`).
pub fn push_decimal(v: &mut Vec<char>, n: u64)
    ensures
        final(v)@ == old(v)@ + decimal(n as nat),
    decreases n,
{
    if n < 10 {
        let c = digit_exec(n);
        v.push(c);
        assert(decimal(n as nat) =~= seq![c]);
    } else {
        push_decimal(v, n / 10);
        let c = digit_exec(n % 10);
        v.push(c);
        assert(decimal(n as nat) == decimal((n / 10) as nat).push(c));
        assert(old(v)@ + decimal((n / 10) as nat) + seq![c] =~= old(v)@ + decimal(n as nat));
    }
}

/// The decimal representation of a signed number (`format!("{}", n)`).
pub open spec fn signed_decimal(n: int) -> Seq<char> {
    if n < 0 { seq!['-'] + decimal((-n) as nat) } else { decimal(n as nat) }
}

/// Appends the decimal representation of a signed number.
pub fn push_signed(v: &mut Vec<char>, n: i64)
    ensures
        final(v)@ == old(v)@ + signed_decimal(n as int),
{
    if n < 0 {
        v.push('-');
        let magnitude: u64 = if n == i64::MIN { 9223372036854775808u64 } else { (-n) as u64 };
        push_decimal(v, magnitude);
        assert(old(v)@ + signed_decimal(n as int) =~= old(v)@ + seq!['-'] + decimal(magnitude as nat));
    } else {
        push_decimal(v, n as u64);
    }
}

pub open spec fn is_digit(c: char) -> bool {
    '0' <= c && c <= '9'
}

pub open spec fn digit_value(c: char) -> nat {
    ((c as u32) - 48) as nat
}

/// The value of a string of decimal digits.
pub open spec fn digits_value(s: Seq<char>) -> nat
    decreases s.len(),
{
    if s.len() == 0 {
        0
    } else {
        digits_value(s.drop_last()) * 10 + digit_value(s.last())
    }
}

/// The digits part of an unsigned number: `s` without one leading `+`.
pub open spec fn unsigned_digits(s: Seq<char>) -> Seq<char> {
    if s.len() > 0 && s[0] == '+' { s.drop_first() } else { s }
}

/// Every character of `s` is an ASCII digit.
pub open spec fn all_digits(s: Seq<char>) -> bool {
    forall|i: int| 0 <= i < s.len() ==> is_digit(#[trigger] s[i])
}

/// What `str::parse::<uN>` gives for `s`, where `max` is `uN::MAX`: an
/// optional `+`, then one or more ASCII digits whose value is at most `max`.
pub open spec fn parse_unsigned(s: Seq<char>, max: nat) -> Option<nat> {
    let digits = unsigned_digits(s);
    if digits.len() == 0 || !all_digits(digits) || digits_value(digits) > max {
        None
    } else {
        Some(digits_value(digits))
    }
}

proof fn lemma_digits_value_prefix_grows(s: Seq<char>, i: int)
    requires
        0 <= i <= s.len(),
        forall|k: int| 0 <= k < s.len() ==> is_digit(#[trigger] s[k]),
    ensures
        digits_value(s.take(i)) <= digits_value(s),
    decreases s.len() - i,
{
    if i < s.len() {
        lemma_digits_value_prefix_grows(s, i + 1);
        assert(s.take(i + 1).drop_last() =~= s.take(i));
        assert(digits_value(s.take(i + 1)) == digits_value(s.take(i)) * 10 + digit_value(s.take(i + 1).last()));
        assert(digits_value(s.take(i)) <= digits_value(s.take(i)) * 10);
    } else {
        assert(s.take(i) =~= s);
    }
}

/// Parses `s` as `str::parse::<uN>` does, where `max` is `uN::MAX`.
pub fn parse_unsigned_exec(s: &Vec<char>, max: u64) -> (r: Option<u64>)
    ensures
        match r {
            Some(n) => parse_unsigned(s@, max as nat) == Some(n as nat),
            None => parse_unsigned(s@, max as nat) is None,
        },
{
    let start: usize = if s.len() > 0 && s[0] == '+' { 1 } else { 0 };
    let ghost digits = unsigned_digits(s@);
    assert(digits =~= s@.subrange(start as int, s@.len() as int));
    if start == s.len() {
        return None;
    }
    assert(digits.len() > 0);
    let mut i: usize = start;
    while i < s.len()
        invariant
            start <= i <= s.len(),
            digits =~= s@.subrange(start as int, s@.len() as int),
            digits == unsigned_digits(s@),
            digits.len() > 0,
            forall|k: int| 0 <= k < i - start ==> is_digit(#[trigger] digits[k]),
        decreases s.len() - i,
    {
        if !('0' <= s[i] && s[i] <= '9') {
            assert(digits[i - start] == s@[i as int]);
            assert(!is_digit(digits[i - start]));
            assert(!all_digits(digits));
            return None;
        }
        i = i + 1;
    }
    let mut value: u64 = 0;
    let mut j: usize = start;
    while j < s.len()
        invariant
            start <= j <= s.len(),
            digits =~= s@.subrange(start as int, s@.len() as int),
            digits == unsigned_digits(s@),
            digits.len() > 0,
            all_digits(digits),
            value as nat == digits_value(digits.take(j - start)),
            value <= max,
        decreases s.len() - j,
    {
        assert(digits[j - start] == s@[j as int]);
        assert(is_digit(digits[j - start]));
        let d = (s[j] as u64) - 48;
        assert(digits.take(j - start + 1).drop_last() =~= digits.take(j - start));
        if d > max || value > (max - d) / 10 {
            assert(digits_value(digits.take(j - start + 1)) > max) by (nonlinear_arith)
                requires
                    digits_value(digits.take(j - start + 1)) == value * 10 + d,
                    d > max || value > (max - d) / 10,
                    d < 10,
            {}
            proof {
                lemma_digits_value_prefix_grows(digits, j - start + 1);
            }
            return None;
        }
        assert(value * 10 + d <= max) by (nonlinear_arith)
            requires
                value <= (max - d) / 10,
                d <= max,
        {}
        value = value * 10 + d;
        j = j + 1;
    }
    assert(digits.take(digits.len() as int) =~= digits);
    Some(value)
}

// ---------------------------------------------------------------------
// Hexadecimal numbers (lower case, as `{:x}`)

pub open spec fn hex_char(d: nat) -> char
    recommends
        d < 16,
{
    if d < 10 { ((d + 48) as u32) as char } else { ((d + 87) as u32) as char }
}

/// The lower-case hexadecimal representation of `n`, without leading zeros.
pub open spec fn hex(n: nat) -> Seq<char>
    decreases n,
{
    if n < 16 {
        seq![hex_char(n)]
    } else {
        hex(n / 16).push(hex_char(n % 16))
    }
}

/// `n` in hexadecimal, left padded with zeros to at least `width` digits
/// (as `format!("{:0width$x}", n)`).
pub open spec fn hex_padded(n: nat, width: nat) -> Seq<char> {
    let digits = hex(n);
    if digits.len() >= width {
        digits
    } else {
        Seq::new((width - digits.len()) as nat, |i: int| '0') + digits
    }
}

fn hex_digit_exec(d: u64) -> (c: char)
    requires
        d < 16,
    ensures
        c == hex_char(d as nat),
{
    let n: u32 = if d < 10 { (d as u32) + 48 } else { (d as u32) + 87 };
    ((n as u8) as char)
}

/// The hexadecimal digits of `n`.
pub fn hex_chars(n: u64) -> (r: Vec<char>)
    ensures
        r@ == hex(n as nat),
    decreases n,
{
    if n < 16 {
        let c = hex_digit_exec(n);
        let mut r: Vec<char> = Vec::new();
        r.push(c);
        assert(r@ =~= hex(n as nat));
        r
    } else {
        let mut r = hex_chars(n / 16);
        let c = hex_digit_exec(n % 16);
        r.push(c);
        r
    }
}

/// Appends `n` in hexadecimal, zero padded to at least `width` digits.
pub fn push_hex_padded(v: &mut Vec<char>, n: u64, width: usize)
    ensures
        final(v)@ == old(v)@ + hex_padded(n as nat, width as nat),
{
    let digits = hex_chars(n);
    let ghost start = v@;
    if digits.len() < width {
        let pad = width - digits.len();
        for i in 0..pad
            invariant
                v@ == start + Seq::new(i as nat, |k: int| '0'),
        {
            v.push('0');
            assert(start + Seq::new(i as nat, |k: int| '0') + seq!['0'] =~= start + Seq::new((i + 1) as nat, |k: int| '0'));
        }
    }
    let ghost mid = v@;
    push_all(v, &digits);
    assert(v@ =~= start + hex_padded(n as nat, width as nat));
}



// ---------------------------------------------------------------------
// UTF-8 and UTF-16

/// What `String::from_utf8_lossy` gives for `bytes`.
pub uninterp spec fn utf8_lossy(bytes: Seq<u8>) -> Seq<char>;

/// `String::from_utf8_lossy`: the standard library's decoding of `bytes`,
/// with each invalid sequence replaced by U+FFFD. Stated: ASCII bytes
/// (below 0x80) are valid UTF-8 and each decodes to that character;
/// otherwise the result is only named.
#[verifier::external_body]
pub(crate) fn lossy_string(bytes: &[u8]) -> (s: String)
    ensures
        s@ == utf8_lossy(bytes@),
        (forall|i: int| 0 <= i < bytes@.len() ==> bytes@[i] < 0x80)
            ==> s@ == bytes@.map_values(|b: u8| (b as u32) as char),
{
    String::from_utf8_lossy(bytes).into_owned()
}

/// What `String::from_utf16_lossy` gives for `units`.
pub uninterp spec fn utf16_lossy(units: Seq<u16>) -> Seq<char>;

/// `String::from_utf16_lossy`: decodes UTF-16, replacing each unpaired
/// surrogate by U+FFFD. Stated: units outside the surrogate range
/// 0xD800..=0xDFFF each decode to the character of that code point, so a
/// string without surrogates decodes unit by unit. Otherwise the result is
/// only named.
#[verifier::external_body]
pub(crate) fn utf16_lossy_string(units: &[u16]) -> (s: String)
    ensures
        s@ == utf16_lossy(units@),
        (forall|i: int| 0 <= i < units@.len() ==> (units@[i] < 0xD800 || units@[i] > 0xDFFF))
            ==> s@ == units@.map_values(|u: u16| (u as u32) as char),
{
    String::from_utf16_lossy(units)
}

/// Index of the first zero unit, or the length when there is none.
pub open spec fn wide_len(units: Seq<u16>) -> int
    decreases units.len(),
{
    if units.len() == 0 {
        0
    } else if units[0] == 0 {
        0
    } else {
        1 + wide_len(units.drop_first())
    }
}

proof fn lemma_wide_len(units: Seq<u16>, i: int)
    requires
        0 <= i <= units.len(),
        forall|k: int| 0 <= k < i ==> units[k] != 0,
        i == units.len() || units[i] == 0,
    ensures
        wide_len(units) == i,
    decreases i,
{
    if i > 0 {
        lemma_wide_len(units.drop_first(), i - 1);
    }
}

/// The string held by a zero-terminated UTF-16 buffer: the units before the
/// first zero (all of them when there is none), decoded lossily.
pub fn from_wide(buffer: &[u16]) -> (s: String)
    ensures
        s@ == utf16_lossy(buffer@.take(wide_len(buffer@))),
{
    let mut len: usize = 0;
    while len < buffer.len() && buffer[len] != 0
        invariant
            len <= buffer@.len(),
            forall|k: int| 0 <= k < len ==> buffer@[k] != 0,
        decreases buffer.len() - len,
    {
        len += 1;
    }
    proof {
        lemma_wide_len(buffer@, len as int);
    }
    let prefix = &buffer[0..len];
    assert(prefix@ == buffer@.take(len as int));
    utf16_lossy_string(prefix)
}

/// What `String::from_utf16` gives for `units`: the text, or `None` when
/// the units are not valid UTF-16.
pub uninterp spec fn utf16_strict(units: Seq<u16>) -> Option<Seq<char>>;

/// `String::from_utf16`: decodes UTF-16, failing on an unpaired surrogate.
/// Stated: units outside the surrogate range 0xD800..=0xDFFF are valid and
/// each decodes to the character of that code point. Otherwise the result
/// is only named.
#[verifier::external_body]
pub(crate) fn utf16_strict_string(units: &[u16]) -> (r: Option<String>)
    ensures
        r is Some <==> utf16_strict(units@) is Some,
        r matches Some(s) ==> utf16_strict(units@) == Some(s@),
        (forall|i: int| 0 <= i < units@.len() ==> (units@[i] < 0xD800 || units@[i] > 0xDFFF))
            ==> (r is Some && r->0@ == units@.map_values(|u: u16| (u as u32) as char)),
{
    String::from_utf16(units).ok()
}

/// The text of a zero-terminated UTF-16 buffer, when it is valid UTF-16.
pub fn from_wide_strict(buffer: &[u16]) -> (r: Option<String>)
    ensures
        match r {
            Some(s) => utf16_strict(buffer@.take(wide_len(buffer@))) == Some(s@),
            None => utf16_strict(buffer@.take(wide_len(buffer@))) is None,
        },
{
    let mut len: usize = 0;
    while len < buffer.len() && buffer[len] != 0
        invariant
            len <= buffer@.len(),
            forall|k: int| 0 <= k < len ==> buffer@[k] != 0,
        decreases buffer.len() - len,
    {
        len += 1;
    }
    proof {
        lemma_wide_len(buffer@, len as int);
    }
    let prefix = &buffer[0..len];
    assert(prefix@ == buffer@.take(len as int));
    utf16_strict_string(prefix)
}

/// The UTF-16 units of one character: the code point itself below
/// U+10000, otherwise a surrogate pair carrying the code point less 0x10000,
/// its high ten bits after 0xD800 and its low ten bits after 0xDC00.
pub open spec fn utf16_of_char(c: char) -> Seq<u16> {
    let v = c as u32 as int;
    if v < 0x10000 {
        seq![v as u16]
    } else {
        seq![(0xD800 + (v - 0x10000) / 1024) as u16, (0xDC00 + (v - 0x10000) % 1024) as u16]
    }
}

/// The UTF-16 encoding of a string: its characters' units, in order.
pub open spec fn utf16_units(s: Seq<char>) -> Seq<u16>
    decreases s.len(),
{
    if s.len() == 0 {
        Seq::empty()
    } else {
        utf16_units(s.drop_last()) + utf16_of_char(s.last())
    }
}

/// Appends the UTF-16 units of `c` to `units`.
fn push_utf16(units: &mut Vec<u16>, c: char)
    ensures
        final(units)@ == old(units)@ + utf16_of_char(c),
{
    let v = c as u32;
    if v < 0x10000 {
        units.push(v as u16);
        assert(final(units)@ =~= old(units)@ + utf16_of_char(c));
    } else {
        let w = v - 0x10000;
        assert(w < 0x100000) by {
            assert((c as u32) <= 0x10FFFF);
        }
        units.push((0xD800 + w / 1024) as u16);
        units.push((0xDC00 + w % 1024) as u16);
        assert(final(units)@ =~= old(units)@ + utf16_of_char(c));
    }
}

/// The UTF-16 encoding of a string, unit by unit (what `str::encode_utf16`
/// yields).
fn encode_utf16(s: &str) -> (units: Vec<u16>)
    ensures
        units@ == utf16_units(s@),
{
    let chars = chars_of(s);
    let mut units: Vec<u16> = Vec::new();
    for i in 0..chars.len()
        invariant
            chars@ == s@,
            units@ == utf16_units(s@.take(i as int)),
    {
        push_utf16(&mut units, chars[i]);
        assert(s@.take(i as int + 1).drop_last() =~= s@.take(i as int));
    }
    assert(s@.take(s@.len() as int) =~= s@);
    units
}

/// A string as Windows takes it: UTF-16 with a terminating zero.
pub fn wide(s: &str) -> (w: Vec<u16>)
    ensures
        w@ == utf16_units(s@).push(0),
{
    let mut w = encode_utf16(s);
    w.push(0);
    w
}

/// A one-entry zero-separated list (`REG_MULTI_SZ`): the UTF-16 string,
/// its terminating zero and the list's terminating zero.
pub fn multi_sz(s: &str) -> (w: Vec<u16>)
    ensures
        w@ == utf16_units(s@).push(0).push(0),
{
    let mut w = encode_utf16(s);
    w.push(0);
    w.push(0);
    w
}

} // verus!
