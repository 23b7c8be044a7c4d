//! Reading attribute values: lookups by name, integers, and decibel
//! values in fixed point.
use vstd::prelude::*;

use crate::serialize::Attrs;
use crate::text::same_text;
use crate::xml::{attrs_view, db_text, dec_spec, digit_char, fixed_digits, int_text, XmlAttr};

verus! {

/// Why a document could not be read.
#[derive(Debug, Clone, Copy, PartialEq, Eq)]
pub enum ParseFault {
    /// The XML reader rejected the text.
    Syntax,
    /// The element structure is not the one of a library document.
    Structure,
    /// A required attribute or element is missing.
    Missing,
    /// An attribute holds no valid number.
    Number,
}

/// The value of the first attribute named `k`.
pub open spec fn lookup(a: Attrs, k: Seq<char>) -> Option<Seq<char>>
    decreases a.len(),
{
    if a.len() == 0 {
        None
    } else if a[0].0 == k {
        Some(a[0].1)
    } else {
        lookup(a.drop_first(), k)
    }
}

pub open spec fn text_of(o: Option<String>) -> Option<Seq<char>> {
    match o {
        Some(s) => Some(s@),
        None => None,
    }
}

/// The value of attribute `key`, if present.
pub fn attr_value(attrs: &Vec<XmlAttr>, key: &str) -> (r: Option<String>)
    ensures
        text_of(r) == lookup(attrs_view(attrs@), key@),
{
    let mut i: usize = 0;
    assert(attrs_view(attrs@).skip(0) == attrs_view(attrs@));
    while i < attrs.len()
        invariant
            i <= attrs@.len(),
            lookup(attrs_view(attrs@), key@) == lookup(attrs_view(attrs@).skip(i as int), key@),
        decreases attrs@.len() - i,
    {
        let a = &attrs[i];
        proof {
            let v = attrs_view(attrs@).skip(i as int);
            assert(v[0] == (a.key@, a.value@));
            assert(v.drop_first() == attrs_view(attrs@).skip(i + 1));
        }
        if same_text(a.key.as_str(), key) {
            return Some(a.value.clone());
        }
        i += 1;
    }
    assert(attrs_view(attrs@).skip(i as int).len() == 0);
    None
}

pub open spec fn is_digit(c: char) -> bool {
    '0' <= c && c <= '9'
}

pub open spec fn digit_value(c: char) -> int {
    c as int - '0' as int
}

/// The number a non-empty run of decimal digits stands for.
pub open spec fn digits_value(s: Seq<char>) -> int
    decreases s.len(),
{
    if s.len() == 0 {
        0
    } else {
        digits_value(s.drop_last()) * 10 + digit_value(s.last())
    }
}

pub open spec fn all_digits(s: Seq<char>) -> bool {
    s.len() > 0 && forall|i: int| 0 <= i < s.len() ==> is_digit(#[trigger] s[i])
}

/// The integer a text stands for: an optional sign, then decimal digits,
/// within the range of `i64`.
pub open spec fn int_value(s: Seq<char>) -> Option<i64> {
    let neg = s.len() > 0 && s[0] == '-';
    let signed = s.len() > 0 && (s[0] == '-' || s[0] == '+');
    let body = if signed { s.drop_first() } else { s };
    let v = if neg { -digits_value(body) } else { digits_value(body) };
    if all_digits(body) && i64::MIN <= v <= i64::MAX {
        Some(v as i64)
    } else {
        None
    }
}

/// Reads a run of digits, giving up past `limit`.
fn read_digits(s: &str, from: usize, to: usize, limit: u64) -> (r: Option<u64>)
    requires
        from <= to <= s@.len(),
    ensures
        match r {
            Some(v) => all_digits(s@.subrange(from as int, to as int)) && v == digits_value(
                s@.subrange(from as int, to as int),
            ) && v <= limit,
            None => !all_digits(s@.subrange(from as int, to as int)) || digits_value(
                s@.subrange(from as int, to as int),
            ) > limit,
        },
{
    if from == to {
        return None;
    }
    let mut v: u64 = 0;
    let mut i: usize = from;
    while i < to
        invariant
            from <= i <= to <= s@.len(),
            from < to,
            v <= limit,
            v == digits_value(s@.subrange(from as int, i as int)),
            forall|j: int| from <= j < i ==> is_digit(#[trigger] s@[j]),
        decreases to - i,
    {
        let c = s.get_char(i);
        proof {
            assert(s@.subrange(from as int, i + 1).drop_last() == s@.subrange(from as int, i as int));
        }
        if !('0' <= c && c <= '9') {
            proof {
                let sub = s@.subrange(from as int, to as int);
                assert(sub[i - from] == c);
            }
            return None;
        }
        let d = (c as u32 - '0' as u32) as u64;
        if (v as u128) * 10 + d as u128 > limit as u128 {
            proof {
                let sub = s@.subrange(from as int, to as int);
                assert(sub.take(i + 1 - from) == s@.subrange(from as int, i + 1));
                if all_digits(sub) {
                    lemma_digits_grow(sub, i + 1 - from);
                }
            }
            return None;
        }
        v = v * 10 + d;
        i += 1;
    }
    proof {
        let sub = s@.subrange(from as int, to as int);
        assert forall|j: int| 0 <= j < sub.len() implies is_digit(#[trigger] sub[j]) by {
            assert(sub[j] == s@[from + j]);
        }
    }
    Some(v)
}

/// Digits only add: a prefix of a run of digits is worth at most the run.
proof fn lemma_digits_grow(s: Seq<char>, n: int)
    requires
        0 <= n <= s.len(),
        forall|i: int| 0 <= i < s.len() ==> is_digit(#[trigger] s[i]),
    ensures
        digits_value(s.take(n)) <= digits_value(s),
        0 <= digits_value(s.take(n)),
    decreases s.len() - n,
{
    lemma_digits_nonneg(s.take(n));
    if n < s.len() {
        lemma_digits_grow(s, n + 1);
        assert(s.take(n + 1).drop_last() == s.take(n));
        assert(is_digit(s[n]));
    } else {
        assert(s.take(n) == s);
    }
}

proof fn lemma_digits_nonneg(s: Seq<char>)
    requires
        forall|i: int| 0 <= i < s.len() ==> is_digit(#[trigger] s[i]),
    ensures
        0 <= digits_value(s),
    decreases s.len(),
{
    if s.len() > 0 {
        let p = s.drop_last();
        assert forall|i: int| 0 <= i < p.len() implies is_digit(#[trigger] p[i]) by {
            assert(p[i] == s[i]);
        }
        lemma_digits_nonneg(p);
        assert(is_digit(s[s.len() - 1]));
    }
}

/// Reads an integer attribute value.
pub fn parse_int(s: &str) -> (r: Option<i64>)
    ensures
        r == int_value(s@),
{
    let n = s.unicode_len();
    let neg = n > 0 && s.get_char(0) == '-';
    let signed = n > 0 && (s.get_char(0) == '-' || s.get_char(0) == '+');
    let from: usize = if signed { 1 } else { 0 };
    proof {
        let body = if signed { s@.drop_first() } else { s@ };
        assert(s@.subrange(from as int, n as int) == body);
    }
    let limit: u64 = if neg { 0x8000_0000_0000_0000 } else { 0x7fff_ffff_ffff_ffff };
    match read_digits(s, from, n, limit) {
        Some(v) => {
            if neg {
                Some((-(v as i128)) as i64)
            } else {
                Some(v as i64)
            }
        },
        None => None,
    }
}

/// Whether every character of `s` is a decimal digit (also when `s` is empty).
pub open spec fn digits_only(s: Seq<char>) -> bool {
    forall|i: int| 0 <= i < s.len() ==> is_digit(#[trigger] s[i])
}

/// The position of the first `c` in `s`, or -1.
pub open spec fn first_index_of(s: Seq<char>, c: char) -> int
    decreases s.len(),
{
    if s.len() == 0 {
        -1
    } else if s[0] == c {
        0
    } else if first_index_of(s.drop_first(), c) < 0 {
        -1
    } else {
        first_index_of(s.drop_first(), c) + 1
    }
}

pub open spec fn pow10(n: nat) -> int
    decreases n,
{
    if n == 0 {
        1
    } else {
        10 * pow10((n - 1) as nat)
    }
}

/// The first six decimals of a fraction, in millionths; further digits are cut.
pub open spec fn frac_micro(b: Seq<char>) -> int {
    let k = if b.len() < 6 { b.len() } else { 6 };
    digits_value(b.take(k as int)) * pow10((6 - k) as nat)
}

/// The micro-decibel value of a decibel text: an optional sign, digits, and
/// optionally a dot and more digits, of which the first six count.
pub open spec fn db_value(s: Seq<char>) -> Option<i64> {
    let neg = s.len() > 0 && s[0] == '-';
    let signed = s.len() > 0 && (s[0] == '-' || s[0] == '+');
    let body = if signed { s.drop_first() } else { s };
    let dot = first_index_of(body, '.');
    let a = if dot < 0 { body } else { body.take(dot) };
    let b = if dot < 0 { Seq::<char>::empty() } else { body.skip(dot + 1) };
    let m = digits_value(a) * 1_000_000 + frac_micro(b);
    let v = if neg { -m } else { m };
    if all_digits(a) && digits_only(b) && i64::MIN <= v <= i64::MAX {
        Some(v as i64)
    } else {
        None
    }
}

proof fn lemma_first_index(s: Seq<char>, c: char, i: int)
    requires
        0 <= i <= s.len(),
        forall|j: int| 0 <= j < i ==> s[j] != c,
    ensures
        i < s.len() && s[i] == c ==> first_index_of(s, c) == i,
        i == s.len() ==> first_index_of(s, c) == -1,
    decreases i,
{
    if i > 0 {
        lemma_first_index(s.drop_first(), c, i - 1);
    } else if s.len() > 0 {
    }
}

/// Reads a loudness attribute value into micro-decibels.
pub fn parse_db(s: &str) -> (r: Option<i64>)
    ensures
        r == db_value(s@),
{
    let n = s.unicode_len();
    let neg = n > 0 && s.get_char(0) == '-';
    let signed = n > 0 && (s.get_char(0) == '-' || s.get_char(0) == '+');
    let from: usize = if signed { 1 } else { 0 };
    let ghost body = if signed { s@.drop_first() } else { s@ };
    assert(s@.subrange(from as int, n as int) == body);
    // find the dot
    let mut dot: usize = from;
    while dot < n && s.get_char(dot) != '.'
        invariant
            from <= dot <= n == s@.len(),
            forall|j: int| from <= j < dot ==> s@[j] != '.',
        decreases n - dot,
    {
        dot += 1;
    }
    proof {
        assert forall|j: int| 0 <= j < dot - from implies body[j] != '.' by {
            assert(body[j] == s@[from + j]);
        }
        lemma_first_index(body, '.', dot - from);
    }
    let ghost a = s@.subrange(from as int, dot as int);
    let frac_from: usize = if dot < n { dot + 1 } else { n };
    let ghost b = s@.subrange(frac_from as int, n as int);
    proof {
        if dot < n {
            assert(a == body.take(dot - from));
            assert(b == body.skip(dot - from + 1));
        } else {
            assert(a == body);
            assert(b == Seq::<char>::empty());
        }
    }
    let digits_after = digits_in(s, frac_from, n);
    let whole = match read_digits(s, from, dot, 9_223_372_036_854) {
        Some(v) => v,
        None => {
            proof {
                if all_digits(a) && digits_only(b) {
                    lemma_big_whole(a, b);
                }
            }
            return None;
        },
    };
    if !digits_after {
        return None;
    }
    let scaled = fraction_micro(s, frac_from, n);
    let total: i128 = whole as i128 * 1_000_000 + scaled as i128;
    let v: i128 = if neg { -total } else { total };
    if v < -0x8000_0000_0000_0000 || v > 0x7fff_ffff_ffff_ffff {
        return None;
    }
    Some(v as i64)
}

proof fn lemma_pow10_pos(n: nat)
    ensures
        pow10(n) >= 1,
    decreases n,
{
    if n > 0 {
        lemma_pow10_pos((n - 1) as nat);
    }
}

proof fn lemma_frac_bounds(b: Seq<char>)
    requires
        digits_only(b),
    ensures
        0 <= frac_micro(b) < 1_000_000,
{
    reveal_with_fuel(pow10, 7);
    let k = if b.len() < 6 { b.len() as int } else { 6 };
    let t = b.take(k);
    assert forall|i: int| 0 <= i < t.len() implies is_digit(#[trigger] t[i]) by {
        assert(t[i] == b[i]);
    }
    lemma_six_digits(t);
    let f = digits_value(t);
    let p = pow10((6 - k) as nat);
    let q = pow10(k as nat);
    lemma_pow10_split(k as nat);
    assert(f * p < 1_000_000) by (nonlinear_arith)
        requires 0 <= f < q, p >= 1, p * q == 1_000_000;
    assert(f * p >= 0) by (nonlinear_arith)
        requires 0 <= f, p >= 1;
}

proof fn lemma_pow10_split(k: nat)
    requires
        k <= 6,
    ensures
        pow10((6 - k) as nat) * pow10(k) == 1_000_000,
{
    reveal_with_fuel(pow10, 7);
    assert(pow10(0) == 1);
    assert(pow10(1) == 10);
    assert(pow10(2) == 100);
    assert(pow10(3) == 1_000);
    assert(pow10(4) == 10_000);
    assert(pow10(5) == 100_000);
    assert(pow10(6) == 1_000_000);
    if k == 0 {
    } else if k == 1 {
    } else if k == 2 {
    } else if k == 3 {
    } else if k == 4 {
    } else if k == 5 {
    } else {
    }
}

proof fn lemma_big_whole(a: Seq<char>, b: Seq<char>)
    requires
        digits_only(b),
        digits_value(a) > 9_223_372_036_854,
    ensures
        digits_value(a) * 1_000_000 + frac_micro(b) > 0x8000_0000_0000_0000,
{
    lemma_frac_bounds(b);
    assert(digits_value(a) * 1_000_000 >= 9_223_372_036_855_000_000) by (nonlinear_arith)
        requires digits_value(a) > 9_223_372_036_854;
}

/// The first six decimals of the fraction digits `s[from..to]`, in millionths.
fn fraction_micro(s: &str, from: usize, to: usize) -> (r: u64)
    requires
        from <= to <= s@.len(),
        digits_only(s@.subrange(from as int, to as int)),
    ensures
        r == frac_micro(s@.subrange(from as int, to as int)),
        r < 1_000_000,
{
    let ghost b = s@.subrange(from as int, to as int);
    let k: usize = if to - from < 6 { to - from } else { 6 };
    proof {
        reveal_with_fuel(pow10, 7);
        lemma_frac_bounds(b);
        let t = b.take(k as int);
        assert forall|i: int| 0 <= i < t.len() implies is_digit(#[trigger] t[i]) by {
            assert(t[i] == b[i]);
        }
        lemma_six_digits(t);
        if k > 0 {
            assert(s@.subrange(from as int, from + k) == t);
        } else {
            assert(t == Seq::<char>::empty());
        }
    }
    let first: u64 = if k == 0 {
        0
    } else {
        match read_digits(s, from, from + k, 999_999) {
            Some(v) => v,
            None => {
                return 0;
            },
        }
    };
    let scale: u64 = if k == 0 {
        1_000_000
    } else if k == 1 {
        100_000
    } else if k == 2 {
        10_000
    } else if k == 3 {
        1_000
    } else if k == 4 {
        100
    } else if k == 5 {
        10
    } else {
        1
    };
    proof {
        reveal_with_fuel(pow10, 7);
        assert(scale as int == pow10((6 - k) as nat));
        assert(first * scale < 1_000_000);
    }
    first * scale
}

/// Whether `s[from..to]` holds decimal digits only.
fn digits_in(s: &str, from: usize, to: usize) -> (r: bool)
    requires
        from <= to <= s@.len(),
    ensures
        r == digits_only(s@.subrange(from as int, to as int)),
{
    let mut j: usize = from;
    while j < to
        invariant
            from <= j <= to <= s@.len(),
            forall|t: int| from <= t < j ==> is_digit(#[trigger] s@[t]),
        decreases to - j,
    {
        let c = s.get_char(j);
        if !('0' <= c && c <= '9') {
            assert(s@.subrange(from as int, to as int)[j - from] == c);
            return false;
        }
        j += 1;
    }
    assert forall|t: int| 0 <= t < to - from implies is_digit(#[trigger] s@.subrange(from as int, to as int)[t]) by {
        assert(s@.subrange(from as int, to as int)[t] == s@[from + t]);
    }
    true
}

/// Six digits are worth less than a million.
proof fn lemma_six_digits(s: Seq<char>)
    requires
        s.len() <= 6,
        digits_only(s),
    ensures
        0 <= digits_value(s) < pow10(s.len()),
    decreases s.len(),
{
    if s.len() > 0 {
        let p = s.drop_last();
        assert forall|i: int| 0 <= i < p.len() implies is_digit(#[trigger] p[i]) by {
            assert(p[i] == s[i]);
        }
        lemma_six_digits(p);
        assert(is_digit(s[s.len() - 1]));
    }
}

proof fn lemma_digit(d: int)
    requires
        0 <= d < 10,
    ensures
        is_digit(digit_char(d)),
        digit_value(digit_char(d)) == d,
{
}

proof fn lemma_dec_digits(n: nat)
    ensures
        all_digits(dec_spec(n)),
        digits_value(dec_spec(n)) == n,
    decreases n,
{
    if n < 10 {
        lemma_digit(n as int);
        let s = dec_spec(n);
        assert(s.drop_last() == Seq::<char>::empty());
        assert(s.last() == digit_char(n as int));
        assert(digits_value(s) == digits_value(s.drop_last()) * 10 + digit_value(s.last()));
    } else {
        lemma_dec_digits(n / 10);
        lemma_digit((n % 10) as int);
        let s = dec_spec(n);
        assert(s.drop_last() == dec_spec(n / 10));
        assert(s.last() == digit_char((n % 10) as int));
        assert(n == (n / 10) * 10 + n % 10);
        assert(digits_value(s) == digits_value(s.drop_last()) * 10 + digit_value(s.last()));
        assert forall|i: int| 0 <= i < s.len() implies is_digit(#[trigger] s[i]) by {
            if i < s.len() - 1 {
                assert(s[i] == dec_spec(n / 10)[i]);
            }
        }
    }
}

/// An integer written as an attribute value reads back as itself.
pub proof fn lemma_int_round_trip(n: i64)
    ensures
        int_value(int_text(n as int)) == Some(n),
{
    let s = int_text(n as int);
    if n < 0 {
        let d = dec_spec((-n) as nat);
        lemma_dec_digits((-n) as nat);
        assert(s.drop_first() == d);
    } else {
        lemma_dec_digits(n as nat);
        assert(is_digit(s[0]));
    }
}

proof fn lemma_fixed_digits(n: nat, k: nat)
    ensures
        fixed_digits(n, k).len() == k,
        digits_only(fixed_digits(n, k)),
        digits_value(fixed_digits(n, k)) == (n as int) % pow10(k),
    decreases k,
{
    if k > 0 {
        let km = (k - 1) as nat;
        lemma_fixed_digits(n / 10, km);
        lemma_digit((n % 10) as int);
        let s = fixed_digits(n, k);
        assert(s.drop_last() == fixed_digits(n / 10, km));
        assert forall|i: int| 0 <= i < s.len() implies is_digit(#[trigger] s[i]) by {
            if i < s.len() - 1 {
                assert(s[i] == fixed_digits(n / 10, km)[i]);
            }
        }
        lemma_pow10_pos(km);
        let p = pow10(km);
        let m = n as int;
        vstd::arithmetic::div_mod::lemma_mod_breakdown(m, 10, p);
    }
}

/// The unsigned part of a decibel text: whole digits, a dot, six decimals.
proof fn lemma_db_body(w: nat, f: nat)
    requires
        f < 1_000_000,
    ensures
        ({
            let d = dec_spec(w);
            let body = d + seq!['.'] + fixed_digits(f, 6);
            let dot = first_index_of(body, '.');
            &&& dot == d.len()
            &&& body.take(dot) == d
            &&& body.skip(dot + 1) == fixed_digits(f, 6)
            &&& all_digits(d)
            &&& digits_value(d) == w
            &&& digits_only(fixed_digits(f, 6))
            &&& frac_micro(fixed_digits(f, 6)) == f
            &&& is_digit(body[0])
        }),
{
    let d = dec_spec(w);
    let x = fixed_digits(f, 6);
    let body = d + seq!['.'] + x;
    lemma_dec_digits(w);
    lemma_fixed_digits(f, 6);
    reveal_with_fuel(pow10, 7);
    assert forall|j: int| 0 <= j < d.len() implies body[j] != '.' by {
        assert(body[j] == d[j]);
        assert(is_digit(d[j]));
    }
    assert(body[d.len() as int] == '.');
    lemma_first_index(body, '.', d.len() as int);
    assert(body.take(d.len() as int) == d);
    assert(body.skip(d.len() as int + 1) == x);
    assert(x.take(6) == x);
    assert(body[0] == d[0]);
    assert(is_digit(d[0]));
    let dot = first_index_of(body, '.');
    assert(dot == d.len());
    assert(body.take(dot) == d);
    assert(body.skip(dot + 1) == x);
    assert(frac_micro(x) == digits_value(x.take(6)) * pow10(0));
    assert(pow10(0) == 1);
    assert(pow10(6) == 1_000_000);
    assert(digits_value(x) == (f as int) % 1_000_000);
    assert((f as int) % 1_000_000 == f);
    assert(frac_micro(x) == f);
}

/// A decibel value written with six decimals reads back as itself.
pub proof fn lemma_db_round_trip(v: i64)
    ensures
        db_value(db_text(v as int)) == Some(v),
{
    let a: int = if v < 0 { -v } else { v as int };
    let w = (a / 1_000_000) as nat;
    let f = (a % 1_000_000) as nat;
    lemma_db_body(w, f);
    let body = dec_spec(w) + seq!['.'] + fixed_digits(f, 6);
    let s = db_text(v as int);
    assert(a == w * 1_000_000 + f);
    if v < 0 {
        assert(s == seq!['-'] + body);
        assert(s.drop_first() == body);
    } else {
        assert(s == Seq::<char>::empty() + body);
        assert(s == body);
    }
}

} // verus!
