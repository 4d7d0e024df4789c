//! Random identifiers and their lowercase hexadecimal text.

use vstd::prelude::*;

verus! {

/// The lowercase hexadecimal digit for `d` (0 to 15).
pub open spec fn hex_digit(d: int) -> char {
    seq!['0', '1', '2', '3', '4', '5', '6', '7', '8', '9', 'a', 'b', 'c', 'd', 'e', 'f'][d]
}

/// The last `n` hexadecimal digits of `v`, most significant first.
pub open spec fn hex_digits(v: int, n: nat) -> Seq<char>
    decreases n,
{
    if n == 0 {
        Seq::empty()
    } else {
        hex_digits(v / 16, (n - 1) as nat).push(hex_digit(v % 16))
    }
}

/// An identifier written as 32 hexadecimal digits.
pub open spec fn uuid_simple_text(v: u128) -> Seq<char> {
    hex_digits(v as int, 32)
}

/// An identifier written in the 8-4-4-4-12 grouping.
pub open spec fn uuid_hyphenated_text(v: u128) -> Seq<char> {
    let h = hex_digits(v as int, 32);
    h.subrange(0, 8) + seq!['-'] + h.subrange(8, 12) + seq!['-'] + h.subrange(12, 16) + seq!['-']
        + h.subrange(16, 20) + seq!['-'] + h.subrange(20, 32)
}

/// Relies on uuid::Uuid::new_v4 (with as_u128): a fresh random identifier.
/// Nothing is known of the value.
#[verifier::external_body]
pub(crate) fn random_uuid() -> (r: u128) {
    uuid::Uuid::new_v4().as_u128()
}

/// Relies on uuid::Uuid::from_u128 and the Display of uuid::fmt::Simple:
/// the big-endian value as 32 lowercase hexadecimal digits.
#[verifier::external_body]
pub(crate) fn uuid_simple(v: u128) -> (r: String)
    ensures
        r@ == uuid_simple_text(v),
{
    uuid::Uuid::from_u128(v).simple().to_string()
}

/// Relies on uuid::Uuid::from_u128 and the Display of uuid::fmt::Hyphenated:
/// the big-endian value as lowercase hexadecimal digits in groups 8-4-4-4-12.
#[verifier::external_body]
pub(crate) fn uuid_hyphenated(v: u128) -> (r: String)
    ensures
        r@ == uuid_hyphenated_text(v),
{
    uuid::Uuid::from_u128(v).hyphenated().to_string()
}

} // verus!
