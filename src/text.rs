//! Decimal and hexadecimal renderings of numbers, and the formatted texts
//! built from them.
use vstd::prelude::*;

verus! {

pub open spec fn digit_char(d: nat) -> char {
    "0123456789ABCDEF"@[d as int]
}

/// The decimal digits of `n`, most significant first, without leading zeros.
pub open spec fn decimal_text(n: nat) -> Seq<char>
    decreases n,
{
    if n < 10 {
        seq![digit_char(n)]
    } else {
        decimal_text(n / 10).push(digit_char(n % 10))
    }
}

/// The upper-case hexadecimal digits of `n`, most significant first, without
/// leading zeros.
pub open spec fn hex_text(n: nat) -> Seq<char>
    decreases n,
{
    if n < 16 {
        seq![digit_char(n)]
    } else {
        hex_text(n / 16).push(digit_char(n % 16))
    }
}

/// A signed integer in decimal, with a leading `-` when negative.
pub open spec fn signed_text(i: int) -> Seq<char> {
    if i < 0 {
        seq!['-'] + decimal_text((-i) as nat)
    } else {
        decimal_text(i as nat)
    }
}

/// `text` followed by ` (ID: n)`.
pub open spec fn id_text(text: Seq<char>, id: u64) -> Seq<char> {
    text + " (ID: "@ + decimal_text(id as nat) + ")"@
}

/// The anchor text `year-HASH`, the hash in upper-case hexadecimal.
pub open spec fn anchor_text(year: i32, hash: u64) -> Seq<char> {
    signed_text(year as int) + seq!['-'] + hex_text(hash as nat)
}

/// Relies on std's `format!` with `{}` on a `u64`: the decimal digits of `id`.
#[verifier::external_body]
pub(crate) fn with_id(text: &str, id: u64) -> (r: String)
    ensures
        r@ == id_text(text@, id),
{
    format!("{} (ID: {})", text, id)
}

/// Relies on std's `format!`: `{}` on an `i32` writes its decimal digits after a
/// `-` when negative, and `{:X}` on a `u64` its upper-case hexadecimal digits.
#[verifier::external_body]
pub(crate) fn format_anchor(year: i32, hash: u64) -> (r: String)
    ensures
        r@ == anchor_text(year, hash),
{
    format!("{}-{:X}", year, hash)
}

} // verus!
