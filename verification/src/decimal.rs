//! Decimal text of integers, as std's `to_string` writes it.
use vstd::prelude::*;

verus! {

/// The character of a decimal digit.
pub open spec fn digit_char(d: nat) -> char {
    (d + 48) as char
}

/// Decimal digits of `n`, most significant first, without leading zeros.
pub open spec fn decimal(n: nat) -> Seq<char>
    decreases n,
{
    if n < 10 {
        seq![digit_char(n)]
    } else {
        decimal(n / 10).push(digit_char(n % 10))
    }
}

/// Decimal text of a signed integer: a minus sign before the digits of a negative one.
pub open spec fn decimal_signed(n: int) -> Seq<char> {
    if n < 0 {
        seq!['-'] + decimal((-n) as nat)
    } else {
        decimal(n as nat)
    }
}

/// `usize::to_string`. Claimed, as std documents for integers: the decimal digits
/// of the value without leading zeros.
#[verifier::external_body]
pub(crate) fn usize_text(x: usize) -> (r: String)
    ensures
        r@ == decimal(x as nat),
{
    x.to_string()
}

/// `i64::to_string`. Claimed, as std documents for integers: a minus sign for a
/// negative value, then the decimal digits of its magnitude without leading zeros.
#[verifier::external_body]
pub(crate) fn i64_text(x: i64) -> (r: String)
    ensures
        r@ == decimal_signed(x as int),
{
    x.to_string()
}

/// Text of a race report: a headline, and when updates were lost or invented, the
/// expected and actual values and the number of missing items.
pub open spec fn report_text(race: bool, expected: Seq<char>, actual: Seq<char>, missing: Seq<char>) -> Seq<char> {
    if race {
        "[RACE CONDITION]\n"@ + "Expected: "@ + expected + ", Actual: "@ + actual + "\n"@ + "Missing items: "@
            + missing + "\n"@
    } else {
        "[NO RACE]\n"@
    }
}

/// Writes the report text for the given parts.
pub(crate) fn write_report(race: bool, expected: &String, actual: &String, missing: &String) -> (r: String)
    ensures
        r@ == report_text(race, expected@, actual@, missing@),
{
    let mut out = String::new();
    if race {
        out.append("[RACE CONDITION]\n");
        out.append("Expected: ");
        out.append(expected.as_str());
        out.append(", Actual: ");
        out.append(actual.as_str());
        out.append("\n");
        out.append("Missing items: ");
        out.append(missing.as_str());
        out.append("\n");
        assert(out@ =~= report_text(race, expected@, actual@, missing@));
    } else {
        out.append("[NO RACE]\n");
        assert(out@ =~= report_text(race, expected@, actual@, missing@));
    }
    out
}

} // verus!
