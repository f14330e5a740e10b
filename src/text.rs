//! String operations of std that the library relies on.
use vstd::prelude::*;

verus! {

/// The decimal notation of an integer: an optional minus sign, then its digits
/// with no leading zero.
pub open spec fn decimal(n: int) -> Seq<char>
    decreases (if n < 0 { -n + 1 } else { n }),
{
    if n < 0 {
        seq!['-'] + decimal(-n)
    } else if n < 10 {
        seq![digit(n)]
    } else {
        decimal(n / 10) + seq![digit(n % 10)]
    }
}

pub open spec fn digit(d: int) -> char {
    if d == 0 { '0' }
    else if d == 1 { '1' }
    else if d == 2 { '2' }
    else if d == 3 { '3' }
    else if d == 4 { '4' }
    else if d == 5 { '5' }
    else if d == 6 { '6' }
    else if d == 7 { '7' }
    else if d == 8 { '8' }
    else { '9' }
}

/// Relies on `ToString` for `i32`: the decimal notation of the value.
#[verifier::external_body]
pub(crate) fn decimal_of(n: i32) -> (r: String)
    ensures
        r@ == decimal(n as int),
{
    n.to_string()
}

/// Relies on `[str]::concat`: the two strings one after the other.
#[verifier::external_body]
pub(crate) fn concat(a: &str, b: &str) -> (r: String)
    ensures
        r@ == a@ + b@,
{
    [a, b].concat()
}

/// Relies on `str::strip_prefix`: what follows `prefix` in `s`, when `s`
/// starts with it.
#[verifier::external_body]
pub(crate) fn strip_prefix(s: &str, prefix: &str) -> (r: Option<String>)
    ensures
        r.is_some() <==> prefix@.is_prefix_of(s@),
        r.is_some() ==> r.unwrap()@ == s@.skip(prefix@.len() as int),
{
    s.strip_prefix(prefix).map(|t| t.to_string())
}

} // verus!
