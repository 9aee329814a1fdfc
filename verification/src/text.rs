//! Text building blocks: decimal and hexadecimal renderings of integers and
//! string concatenation, each stated over the characters it produces.

use vstd::prelude::*;
use vstd::string::StringExecFns;

verus! {

/// The decimal digit character for `d` (0 to 9).
pub open spec fn digit_char(d: int) -> char {
    if d == 0 { '0' }
    else if d == 1 { '1' }
    else if d == 2 { '2' }
    else if d == 3 { '3' }
    else if d == 4 { '4' }
    else if d == 5 { '5' }
    else if d == 6 { '6' }
    else if d == 7 { '7' }
    else if d == 8 { '8' }
    else { '9' }
}

/// The upper-case hexadecimal digit character for `d` (0 to 15).
pub open spec fn hex_digit_char(d: int) -> char {
    if d < 10 { digit_char(d) }
    else if d == 10 { 'A' }
    else if d == 11 { 'B' }
    else if d == 12 { 'C' }
    else if d == 13 { 'D' }
    else if d == 14 { 'E' }
    else { 'F' }
}

/// The decimal rendering of `n`, without leading zeros ("0" for zero).
pub open spec fn decimal(n: nat) -> Seq<char>
    decreases n,
{
    if n < 10 {
        seq![digit_char(n as int)]
    } else {
        decimal(n / 10).push(digit_char((n % 10) as int))
    }
}

/// Two upper-case hexadecimal digits of a byte, as `{:02X}` renders it.
pub open spec fn hex2(b: u8) -> Seq<char> {
    seq![hex_digit_char((b / 16) as int), hex_digit_char((b % 16) as int)]
}

/// The words `true` and `false`.
pub open spec fn bool_text(b: bool) -> Seq<char> {
    if b { "true"@ } else { "false"@ }
}

proof fn lemma_decimal_last_digit(m: nat)
    ensures
        decimal(m) =~= (if m / 10 > 0 { decimal(m / 10) } else { Seq::<char>::empty() })
            + seq![digit_char((m % 10) as int)],
{
}

fn digit_str(d: u64) -> (s: &'static str)
    requires
        d < 10,
    ensures
        s@ == seq![digit_char(d as int)],
{
    if d == 0 {
        proof { reveal_strlit("0"); }
        "0"
    } else if d == 1 {
        proof { reveal_strlit("1"); }
        "1"
    } else if d == 2 {
        proof { reveal_strlit("2"); }
        "2"
    } else if d == 3 {
        proof { reveal_strlit("3"); }
        "3"
    } else if d == 4 {
        proof { reveal_strlit("4"); }
        "4"
    } else if d == 5 {
        proof { reveal_strlit("5"); }
        "5"
    } else if d == 6 {
        proof { reveal_strlit("6"); }
        "6"
    } else if d == 7 {
        proof { reveal_strlit("7"); }
        "7"
    } else if d == 8 {
        proof { reveal_strlit("8"); }
        "8"
    } else {
        proof { reveal_strlit("9"); }
        "9"
    }
}

fn hex_digit_str(d: u8) -> (s: &'static str)
    requires
        d < 16,
    ensures
        s@ == seq![hex_digit_char(d as int)],
{
    if d < 10 {
        digit_str(d as u64)
    } else if d == 10 {
        proof { reveal_strlit("A"); }
        "A"
    } else if d == 11 {
        proof { reveal_strlit("B"); }
        "B"
    } else if d == 12 {
        proof { reveal_strlit("C"); }
        "C"
    } else if d == 13 {
        proof { reveal_strlit("D"); }
        "D"
    } else if d == 14 {
        proof { reveal_strlit("E"); }
        "E"
    } else {
        proof { reveal_strlit("F"); }
        "F"
    }
}

/// The decimal rendering of `n`.
pub fn decimal_string(n: u64) -> (s: String)
    ensures
        s@ == decimal(n as nat),
{
    let mut m: u64 = n / 10;
    let mut res = String::from_str(digit_str(n % 10));
    proof { lemma_decimal_last_digit(n as nat); }
    while m > 0
        invariant
            decimal(n as nat) == (if m > 0 { decimal(m as nat) } else { Seq::<char>::empty() })
                + res@,
        decreases m,
    {
        proof { lemma_decimal_last_digit(m as nat); }
        let mut next = String::from_str(digit_str(m % 10));
        next.append(res.as_str());
        res = next;
        m = m / 10;
    }
    res
}

/// Two upper-case hexadecimal digits of `b`.
pub fn hex2_string(b: u8) -> (s: String)
    ensures
        s@ == hex2(b),
{
    let mut s = String::from_str(hex_digit_str(b / 16));
    s.append(hex_digit_str(b % 16));
    s
}

/// `true` or `false`.
pub fn bool_string(b: bool) -> (s: String)
    ensures
        s@ == bool_text(b),
{
    if b {
        String::from_str("true")
    } else {
        String::from_str("false")
    }
}

/// Whether two strings hold the same characters.
pub fn text_eq(a: &str, b: &str) -> (r: bool)
    ensures
        r == (a@ == b@),
{
    String::from_str(a) == String::from_str(b)
}

/// Appends `t` to `s`.
pub fn push_text(s: &mut String, t: &str)
    ensures
        final(s)@ == old(s)@ + t@,
{
    s.append(t);
}

} // verus!
