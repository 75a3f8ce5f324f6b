//! Building the text of messages: decimal numbers and concatenation.

use vstd::prelude::*;

verus! {

/// The character of decimal digit `d`.
pub open spec fn digit_char(d: nat) -> char {
    (('0' as int) + d) as char
}

/// The decimal writing of `n`, without leading zeros.
pub open spec fn decimal(n: nat) -> Seq<char>
    decreases n,
{
    if n < 10 {
        seq![digit_char(n)]
    } else {
        decimal(n / 10).push(digit_char(n % 10))
    }
}

/// The decimal writing of a number, as `format!` with `{}` gives it
/// (std's `Display` for `u32`: the digits, no sign, no leading zeros).
#[verifier::external_body]
pub(crate) fn number_text(n: u32) -> (r: String)
    ensures
        r@ == decimal(n as nat),
{
    format!("{}", n)
}

/// Two texts one after the other, as `format!("{}{}", a, b)` gives them.
#[verifier::external_body]
pub(crate) fn concat(a: &str, b: &str) -> (r: String)
    ensures
        r@ == a@ + b@,
{
    format!("{}{}", a, b)
}

/// A text made of three parts.
pub(crate) fn concat3(a: &str, b: &str, c: &str) -> (r: String)
    ensures
        r@ == a@ + b@ + c@,
{
    let ab = concat(a, b);
    concat(ab.as_str(), c)
}

/// A text made of four parts.
pub(crate) fn concat4(a: &str, b: &str, c: &str, d: &str) -> (r: String)
    ensures
        r@ == a@ + b@ + c@ + d@,
{
    let abc = concat3(a, b, c);
    concat(abc.as_str(), d)
}

} // verus!
