//! XML events and the decimal texts of numbers.
use vstd::prelude::*;

verus! {

/// One attribute of an element: name and text value.
pub struct XmlAttr {
    pub key: String,
    pub value: String,
}

/// The events that make up a document: an element opens with its
/// attributes, and closes.
pub enum XmlEvent {
    Start { name: String, attrs: Vec<XmlAttr> },
    End { name: String },
}

/// What an event says, as plain text.
pub enum EventView {
    Start(Seq<char>, Seq<(Seq<char>, Seq<char>)>),
    End(Seq<char>),
}

pub open spec fn attrs_view(a: Seq<XmlAttr>) -> Seq<(Seq<char>, Seq<char>)> {
    a.map_values(|x: XmlAttr| (x.key@, x.value@))
}

impl View for XmlEvent {
    type V = EventView;

    open spec fn view(&self) -> EventView {
        match self {
            XmlEvent::Start { name, attrs } => EventView::Start(name@, attrs_view(attrs@)),
            XmlEvent::End { name } => EventView::End(name@),
        }
    }
}

pub open spec fn events_view(s: Seq<XmlEvent>) -> Seq<EventView> {
    s.map_values(|e: XmlEvent| e@)
}

pub open spec fn digit_char(d: int) -> char {
    if d == 0 { '0' } else if d == 1 { '1' } else if d == 2 { '2' } else if d == 3 { '3' } else if d == 4 {
        '4'
    } else if d == 5 { '5' } else if d == 6 { '6' } else if d == 7 { '7' } else if d == 8 { '8' } else { '9' }
}

/// The decimal digits of `n`, without leading zeros.
pub open spec fn dec_spec(n: nat) -> Seq<char>
    decreases n,
{
    if n < 10 {
        seq![digit_char(n as int)]
    } else {
        dec_spec(n / 10).push(digit_char((n % 10) as int))
    }
}

/// The decimal text of an integer.
pub open spec fn int_text(n: int) -> Seq<char> {
    if n < 0 {
        seq!['-'] + dec_spec((-n) as nat)
    } else {
        dec_spec(n as nat)
    }
}

/// The last `k` decimal digits of `n`, zero-padded.
pub open spec fn fixed_digits(n: nat, k: nat) -> Seq<char>
    decreases k,
{
    if k == 0 {
        Seq::empty()
    } else {
        fixed_digits(n / 10, (k - 1) as nat).push(digit_char((n % 10) as int))
    }
}

/// A micro-decibel value as decibels with six decimals.
pub open spec fn db_text(v: int) -> Seq<char> {
    let a = if v < 0 { -v } else { v };
    (if v < 0 { seq!['-'] } else { Seq::empty() }) + dec_spec((a / 1_000_000) as nat) + seq!['.']
        + fixed_digits((a % 1_000_000) as nat, 6)
}

fn digit_str(d: u64) -> (r: &'static str)
    requires
        d < 10,
    ensures
        r@ == seq![digit_char(d as int)],
{
    proof {
        reveal_strlit("0");
        reveal_strlit("1");
        reveal_strlit("2");
        reveal_strlit("3");
        reveal_strlit("4");
        reveal_strlit("5");
        reveal_strlit("6");
        reveal_strlit("7");
        reveal_strlit("8");
        reveal_strlit("9");
    }
    if d == 0 { "0" } else if d == 1 { "1" } else if d == 2 { "2" } else if d == 3 { "3" } else if d == 4 {
        "4"
    } else if d == 5 { "5" } else if d == 6 { "6" } else if d == 7 { "7" } else if d == 8 { "8" } else { "9" }
}

fn append_dec(out: &mut String, n: u64)
    ensures
        final(out)@ == old(out)@ + dec_spec(n as nat),
    decreases n,
{
    if n >= 10 {
        append_dec(out, n / 10);
    }
    out.append(digit_str(n % 10));
}

fn append_fixed(out: &mut String, n: u64, k: u64)
    ensures
        final(out)@ == old(out)@ + fixed_digits(n as nat, k as nat),
    decreases k,
{
    if k > 0 {
        append_fixed(out, n / 10, k - 1);
        out.append(digit_str(n % 10));
    }
}

fn magnitude(v: i64) -> (r: u64)
    ensures
        r == if v < 0 { -(v as int) } else { v as int },
{
    if v < 0 {
        (-(v as i128)) as u64
    } else {
        v as u64
    }
}

/// The decimal text of an integer.
pub fn int_to_text(n: i64) -> (r: String)
    ensures
        r@ == int_text(n as int),
{
    let mut s = String::new();
    if n < 0 {
        proof {
            reveal_strlit("-");
        }
        s.append("-");
    }
    append_dec(&mut s, magnitude(n));
    s
}

/// A micro-decibel value as decibels with six decimals.
pub fn db_to_text(v: i64) -> (r: String)
    ensures
        r@ == db_text(v as int),
{
    let a = magnitude(v);
    let mut s = String::new();
    proof {
        reveal_strlit("-");
        reveal_strlit(".");
    }
    if v < 0 {
        s.append("-");
    }
    append_dec(&mut s, a / 1_000_000);
    s.append(".");
    append_fixed(&mut s, a % 1_000_000, 6);
    s
}

} // verus!
