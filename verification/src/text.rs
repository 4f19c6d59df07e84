//! Small string helpers with exact contracts.
use vstd::prelude::*;

verus! {

/// An owned copy of `s`.
pub fn owned(s: &str) -> (r: String)
    ensures
        r@ == s@,
{
    String::from_str(s)
}

/// Whether two strings hold the same characters.
pub fn str_eq(a: &str, b: &str) -> (r: bool)
    ensures
        r == (a@ == b@),
{
    let x = String::from_str(a);
    let y = String::from_str(b);
    x == y
}

/// The concatenation of `a` and `b`.
pub fn concat(a: &str, b: &str) -> (r: String)
    ensures
        r@ == a@ + b@,
{
    let mut s = String::from_str(a);
    s.append(b);
    s
}

/// `p0 a p1`
pub fn format1(p0: &str, a: &str, p1: &str) -> (r: String)
    ensures
        r@ == p0@ + a@ + p1@,
{
    let mut s = String::from_str(p0);
    s.append(a);
    s.append(p1);
    s
}

/// `p0 a p1 b p2`
pub fn format2(p0: &str, a: &str, p1: &str, b: &str, p2: &str) -> (r: String)
    ensures
        r@ == p0@ + a@ + p1@ + b@ + p2@,
{
    let mut s = format1(p0, a, p1);
    s.append(b);
    s.append(p2);
    s
}

/// `p0 a p1 b p2 c p3`
pub fn format3(p0: &str, a: &str, p1: &str, b: &str, p2: &str, c: &str, p3: &str) -> (r: String)
    ensures
        r@ == p0@ + a@ + p1@ + b@ + p2@ + c@ + p3@,
{
    let mut s = format2(p0, a, p1, b, p2);
    s.append(c);
    s.append(p3);
    s
}

/// `p0 a p1 b p2 c p3 d p4`
pub fn format4(
    p0: &str,
    a: &str,
    p1: &str,
    b: &str,
    p2: &str,
    c: &str,
    p3: &str,
    d: &str,
    p4: &str,
) -> (r: String)
    ensures
        r@ == p0@ + a@ + p1@ + b@ + p2@ + c@ + p3@ + d@ + p4@,
{
    let mut s = format2(p0, a, p1, b, p2);
    s.append(c);
    s.append(p3);
    s.append(d);
    s.append(p4);
    s
}

/// The decimal digit for `d < 10`.
pub open spec fn digit_char(d: nat) -> char {
    (48 + d) as char
}

/// The decimal notation of `n`, without sign or leading zeros.
pub open spec fn decimal_model(n: nat) -> Seq<char>
    decreases n,
{
    if n < 10 {
        seq![digit_char(n)]
    } else {
        decimal_model(n / 10) + seq![digit_char(n % 10)]
    }
}

/// The decimal notation of `n`.
pub(crate) fn decimal(n: usize) -> (r: String)
    ensures
        r@ == decimal_model(n as nat),
{
    crate::message::decimal_u128(n as u128)
}

} // verus!
