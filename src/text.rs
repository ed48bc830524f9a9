use vstd::prelude::*;
use vstd::string::*;

verus! {

/// The decimal digit `d` as text.
pub open spec fn digit_text(d: nat) -> Seq<char> {
    if d == 0 {
        "0"@
    } else if d == 1 {
        "1"@
    } else if d == 2 {
        "2"@
    } else if d == 3 {
        "3"@
    } else if d == 4 {
        "4"@
    } else if d == 5 {
        "5"@
    } else if d == 6 {
        "6"@
    } else if d == 7 {
        "7"@
    } else if d == 8 {
        "8"@
    } else {
        "9"@
    }
}

/// The decimal text of a natural number, without leading zeros.
pub open spec fn nat_text(n: nat) -> Seq<char>
    decreases n,
{
    if n < 10 {
        digit_text(n)
    } else {
        nat_text(n / 10) + digit_text(n % 10)
    }
}

/// The decimal text of an integer, with a leading `-` when it is negative.
pub open spec fn int_text(n: int) -> Seq<char> {
    if n < 0 {
        "-"@ + nat_text((-n) as nat)
    } else {
        nat_text(n as nat)
    }
}

fn digit_str(d: u64) -> (r: &'static str)
    requires
        d < 10,
    ensures
        r@ == digit_text(d as nat),
{
    if d == 0 {
        "0"
    } else if d == 1 {
        "1"
    } else if d == 2 {
        "2"
    } else if d == 3 {
        "3"
    } else if d == 4 {
        "4"
    } else if d == 5 {
        "5"
    } else if d == 6 {
        "6"
    } else if d == 7 {
        "7"
    } else if d == 8 {
        "8"
    } else {
        "9"
    }
}

/// Writes a natural number in decimal.
pub fn u64_to_text(n: u64) -> (r: String)
    ensures
        r@ == nat_text(n as nat),
    decreases n,
{
    if n < 10 {
        String::from_str(digit_str(n))
    } else {
        let mut s = u64_to_text(n / 10);
        s.append(digit_str(n % 10));
        s
    }
}

/// Writes an integer in decimal.
pub fn i64_to_text(n: i64) -> (r: String)
    ensures
        r@ == int_text(n as int),
{
    if n < 0 {
        let m: u64 = (0i128 - n as i128) as u64;
        let digits = u64_to_text(m);
        String::from_str("-").concat(digits.as_str())
    } else {
        u64_to_text(n as u64)
    }
}

} // verus!
