//! Record identity and creation time, drawn from the `uuid` and `chrono` crates.
use vstd::prelude::*;

verus! {

/// A point in time in UTC: whole seconds since the Unix epoch and the
/// nanoseconds past that second.
#[derive(Debug, Clone, Copy, PartialEq, Eq, Structural)]
pub struct Timestamp {
    pub secs: i64,
    pub nanos: u32,
}

/// The lower-case hexadecimal digit of `v`, for `0 <= v < 16`.
pub open spec fn hex_digit(v: int) -> char {
    seq!['0', '1', '2', '3', '4', '5', '6', '7', '8', '9', 'a', 'b', 'c', 'd', 'e', 'f'][v]
}

/// The hexadecimal digits of `id` from the `k`-th on, most significant first.
pub open spec fn hex_digits_from(id: u128, k: int) -> Seq<char>
    decreases 32 - k,
{
    if 0 <= k < 32 {
        seq![hex_digit(((id >> ((124 - 4 * k) as u128)) & 15u128) as int)] + hex_digits_from(
            id,
            k + 1,
        )
    } else {
        Seq::empty()
    }
}

/// The hyphenated text of an identifier: its 32 lower-case hexadecimal
/// digits, most significant first, in groups of 8, 4, 4, 4 and 12.
pub open spec fn uuid_text(id: u128) -> Seq<char> {
    let h = hex_digits_from(id, 0);
    h.subrange(0, 8) + seq!['-'] + h.subrange(8, 12) + seq!['-'] + h.subrange(12, 16) + seq!['-']
        + h.subrange(16, 20) + seq!['-'] + h.subrange(20, 32)
}

/// Relies on `uuid::Uuid::new_v4` (a random version-4 identifier), read back
/// as its 128-bit value with `Uuid::as_u128`.
#[verifier::external_body]
pub fn new_id() -> (r: u128) {
    uuid::Uuid::new_v4().as_u128()
}

/// Relies on `chrono::Utc::now`, read back with `DateTime::timestamp` and
/// `DateTime::timestamp_subsec_nanos`.
#[verifier::external_body]
pub fn now() -> (r: Timestamp) {
    let t = chrono::Utc::now();
    Timestamp { secs: t.timestamp(), nanos: t.timestamp_subsec_nanos() }
}

/// Relies on `uuid::Uuid::from_u128` (the value's big-endian bytes) and
/// `Uuid`'s `Display`, which writes the hyphenated lower-case form.
#[verifier::external_body]
pub fn id_text(id: u128) -> (r: String)
    ensures
        r@ == uuid_text(id),
{
    uuid::Uuid::from_u128(id).to_string()
}

} // verus!
